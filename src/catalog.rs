use vstd::prelude::*;

use crate::sql_builder::{dollar_free, names_dollar_free};
use crate::model::{
    first_named, fields_view, FieldDef, FieldView, ModelDef, ModelView, RelationDef, RelationKind, RelationView, ScalarType,
};

verus! {

pub open spec fn id_view() -> FieldView {
    FieldView {
        name: "id"@,
        column: "id"@,
        scalar: Some(ScalarType::Id),
        is_primary_key: true,
        is_filterable: true,
        is_sortable: true,
        is_writable: false,
        has_default: true,
        relation: None,
    }
}

pub open spec fn scalar_view(name: Seq<char>, column: Seq<char>, t: ScalarType, filterable: bool, sortable: bool) -> FieldView {
    FieldView {
        name,
        column,
        scalar: Some(t),
        is_primary_key: false,
        is_filterable: filterable,
        is_sortable: sortable,
        is_writable: true,
        has_default: false,
        relation: None,
    }
}

pub open spec fn org_id_view() -> FieldView {
    FieldView {
        name: "orgId"@,
        column: "org_id"@,
        scalar: Some(ScalarType::String),
        is_primary_key: false,
        is_filterable: true,
        is_sortable: false,
        is_writable: false,
        has_default: false,
        relation: None,
    }
}

pub open spec fn created_at_view() -> FieldView {
    FieldView {
        name: "createdAt"@,
        column: "created_at"@,
        scalar: Some(ScalarType::DateTime),
        is_primary_key: false,
        is_filterable: true,
        is_sortable: true,
        is_writable: false,
        has_default: true,
        relation: None,
    }
}

pub open spec fn link_view(name: Seq<char>, column: Seq<char>, target: Seq<char>) -> FieldView {
    FieldView {
        name,
        column,
        scalar: Some(ScalarType::Id),
        is_primary_key: false,
        is_filterable: true,
        is_sortable: false,
        is_writable: true,
        has_default: false,
        relation: Some(RelationView { kind: RelationKind::ManyToOne, target_model: target, fk_column: column }),
    }
}

pub open spec fn collection_view(name: Seq<char>, target: Seq<char>, fk_column: Seq<char>) -> FieldView {
    FieldView {
        name,
        column: fk_column,
        scalar: None,
        is_primary_key: false,
        is_filterable: false,
        is_sortable: false,
        is_writable: false,
        has_default: false,
        relation: Some(RelationView { kind: RelationKind::OneToMany, target_model: target, fk_column }),
    }
}

pub open spec fn account_view() -> ModelView {
    ModelView {
        name: "Account"@,
        table: "accounts"@,
        fields: seq![
            id_view(),
            org_id_view(),
            scalar_view("name"@, "name"@, ScalarType::String, true, true),
            scalar_view("industry"@, "industry"@, ScalarType::String, true, true),
            scalar_view("website"@, "website"@, ScalarType::String, true, false),
            created_at_view(),
            collection_view("contacts"@, "Contact"@, "account_id"@),
        ],
    }
}

pub open spec fn contact_view() -> ModelView {
    ModelView {
        name: "Contact"@,
        table: "contacts"@,
        fields: seq![
            id_view(),
            org_id_view(),
            link_view("accountId"@, "account_id"@, "Account"@),
            scalar_view("name"@, "full_name"@, ScalarType::String, true, true),
            scalar_view("email"@, "email"@, ScalarType::String, true, true),
            scalar_view("phone"@, "phone"@, ScalarType::String, true, false),
            created_at_view(),
        ],
    }
}

pub open spec fn ticket_view() -> ModelView {
    ModelView {
        name: "Ticket"@,
        table: "tickets"@,
        fields: seq![
            id_view(),
            org_id_view(),
            link_view("contactId"@, "contact_id"@, "Contact"@),
            scalar_view("subject"@, "subject"@, ScalarType::String, true, true),
            scalar_view("status"@, "status"@, ScalarType::String, true, true),
            scalar_view("priority"@, "priority"@, ScalarType::Int, true, true),
            created_at_view(),
        ],
    }
}

pub open spec fn social_event_view() -> ModelView {
    ModelView {
        name: "SocialEvent"@,
        table: "social_events"@,
        fields: seq![
            id_view(),
            org_id_view(),
            scalar_view("platform"@, "platform"@, ScalarType::String, true, true),
            scalar_view("payload"@, "payload"@, ScalarType::Json, false, false),
            scalar_view("occurredAt"@, "occurred_at"@, ScalarType::DateTime, true, true),
        ],
    }
}

pub open spec fn lead_view() -> ModelView {
    ModelView {
        name: "Lead"@,
        table: "leads"@,
        fields: seq![
            id_view(),
            org_id_view(),
            scalar_view("name"@, "full_name"@, ScalarType::String, true, true),
            scalar_view("email"@, "email"@, ScalarType::String, true, true),
            scalar_view("score"@, "score"@, ScalarType::Int, true, true),
            scalar_view("converted"@, "is_converted"@, ScalarType::Bool, true, false),
            created_at_view(),
        ],
    }
}

pub open spec fn opportunity_view() -> ModelView {
    ModelView {
        name: "Opportunity"@,
        table: "opportunities"@,
        fields: seq![
            id_view(),
            org_id_view(),
            link_view("accountId"@, "account_id"@, "Account"@),
            scalar_view("name"@, "name"@, ScalarType::String, true, true),
            scalar_view("amount"@, "amount"@, ScalarType::Float, true, true),
            scalar_view("stage"@, "stage"@, ScalarType::String, true, true),
            scalar_view("closeDate"@, "close_date"@, ScalarType::DateTime, true, true),
        ],
    }
}

/// The catalog's models, in catalog order.
pub open spec fn catalog() -> Seq<ModelView> {
    seq![account_view(), contact_view(), ticket_view(), social_event_view(), lead_view(), opportunity_view()]
}

/// The catalog's model named exactly `name`.
pub open spec fn catalog_model(name: Seq<char>) -> Option<ModelView> {
    if name == account_view().name {
        Some(account_view())
    } else if name == contact_view().name {
        Some(contact_view())
    } else if name == ticket_view().name {
        Some(ticket_view())
    } else if name == social_event_view().name {
        Some(social_event_view())
    } else if name == lead_view().name {
        Some(lead_view())
    } else if name == opportunity_view().name {
        Some(opportunity_view())
    } else {
        None
    }
}

/// Every model of the catalog declares `orgId` as a filterable string field,
/// so its rows can always be scoped to an organization.
pub proof fn lemma_catalog_org_field(m: ModelDef)
    requires
        catalog_model(m@.name) == Some(m@),
    ensures
        m.spec_field("orgId"@) is Some,
        m.spec_field("orgId"@)->0.is_filterable,
        m.spec_field("orgId"@)->0.scalar == Some(ScalarType::String),
{
    reveal_strlit("id");
    reveal_strlit("orgId");
    let fs = m.fields@;
    assert(m@.fields[0] == id_view());
    assert(m@.fields[1] == org_id_view());
    assert(m@.fields.len() >= 2);
    assert(fields_view(fs).len() == fs.len());
    assert(fields_view(fs)[0] == fs[0]@);
    assert(fields_view(fs)[1] == fs[1]@);
    assert(fs[0]@ == id_view());
    assert(fs[1]@ == org_id_view());
    assert(fs[0].name@ == "id"@);
    assert("id"@.len() != "orgId"@.len());
    assert(fs[0].name@ != "orgId"@);
    assert(fs.drop_first()[0] == fs[1]);
    assert(first_named(fs, "orgId"@) == first_named(fs.drop_first(), "orgId"@));
    assert(first_named(fs.drop_first(), "orgId"@) == Some(fs[1]));
}

/// The catalog's table and column names hold no `$`, so the placeholder
/// count of text compiled against a catalog model matches its bound values.
pub proof fn lemma_catalog_dollar_free(m: ModelDef)
    requires
        catalog_model(m@.name) == Some(m@),
    ensures
        names_dollar_free(m),
{
    reveal_strlit("accounts");
    reveal_strlit("contacts");
    reveal_strlit("tickets");
    reveal_strlit("social_events");
    reveal_strlit("leads");
    reveal_strlit("opportunities");
    reveal_strlit("id");
    reveal_strlit("org_id");
    reveal_strlit("name");
    reveal_strlit("industry");
    reveal_strlit("website");
    reveal_strlit("created_at");
    reveal_strlit("account_id");
    reveal_strlit("full_name");
    reveal_strlit("email");
    reveal_strlit("phone");
    reveal_strlit("contact_id");
    reveal_strlit("subject");
    reveal_strlit("status");
    reveal_strlit("priority");
    reveal_strlit("platform");
    reveal_strlit("payload");
    reveal_strlit("occurred_at");
    reveal_strlit("score");
    reveal_strlit("is_converted");
    reveal_strlit("amount");
    reveal_strlit("stage");
    reveal_strlit("close_date");
    assert(dollar_free(m.table@));
    assert(m@ == account_view() || m@ == contact_view() || m@ == ticket_view() || m@ == social_event_view()
        || m@ == lead_view() || m@ == opportunity_view());
    assert(fields_view(m.fields@).len() == m.fields@.len());
    assert forall|i: int| 0 <= i < m.fields@.len() implies dollar_free(#[trigger] m.fields@[i].column@) by {
        assert(fields_view(m.fields@)[i] == m.fields@[i]@);
        assert(m.fields@[i].column@ == m@.fields[i].column);
        if m@ == account_view() {
            if i == 0 {
                assert(dollar_free(m@.fields[0].column));
            } else if i == 1 {
                assert(dollar_free(m@.fields[1].column));
            } else if i == 2 {
                assert(dollar_free(m@.fields[2].column));
            } else if i == 3 {
                assert(dollar_free(m@.fields[3].column));
            } else if i == 4 {
                assert(dollar_free(m@.fields[4].column));
            } else if i == 5 {
                assert(dollar_free(m@.fields[5].column));
            } else if i == 6 {
                assert(dollar_free(m@.fields[6].column));
            }
        } else if m@ == contact_view() {
            if i == 0 {
                assert(dollar_free(m@.fields[0].column));
            } else if i == 1 {
                assert(dollar_free(m@.fields[1].column));
            } else if i == 2 {
                assert(dollar_free(m@.fields[2].column));
            } else if i == 3 {
                assert(dollar_free(m@.fields[3].column));
            } else if i == 4 {
                assert(dollar_free(m@.fields[4].column));
            } else if i == 5 {
                assert(dollar_free(m@.fields[5].column));
            } else if i == 6 {
                assert(dollar_free(m@.fields[6].column));
            }
        } else if m@ == ticket_view() {
            if i == 0 {
                assert(dollar_free(m@.fields[0].column));
            } else if i == 1 {
                assert(dollar_free(m@.fields[1].column));
            } else if i == 2 {
                assert(dollar_free(m@.fields[2].column));
            } else if i == 3 {
                assert(dollar_free(m@.fields[3].column));
            } else if i == 4 {
                assert(dollar_free(m@.fields[4].column));
            } else if i == 5 {
                assert(dollar_free(m@.fields[5].column));
            } else if i == 6 {
                assert(dollar_free(m@.fields[6].column));
            }
        } else if m@ == social_event_view() {
            if i == 0 {
                assert(dollar_free(m@.fields[0].column));
            } else if i == 1 {
                assert(dollar_free(m@.fields[1].column));
            } else if i == 2 {
                assert(dollar_free(m@.fields[2].column));
            } else if i == 3 {
                assert(dollar_free(m@.fields[3].column));
            } else if i == 4 {
                assert(dollar_free(m@.fields[4].column));
            }
        } else if m@ == lead_view() {
            if i == 0 {
                assert(dollar_free(m@.fields[0].column));
            } else if i == 1 {
                assert(dollar_free(m@.fields[1].column));
            } else if i == 2 {
                assert(dollar_free(m@.fields[2].column));
            } else if i == 3 {
                assert(dollar_free(m@.fields[3].column));
            } else if i == 4 {
                assert(dollar_free(m@.fields[4].column));
            } else if i == 5 {
                assert(dollar_free(m@.fields[5].column));
            } else if i == 6 {
                assert(dollar_free(m@.fields[6].column));
            }
        } else if m@ == opportunity_view() {
            if i == 0 {
                assert(dollar_free(m@.fields[0].column));
            } else if i == 1 {
                assert(dollar_free(m@.fields[1].column));
            } else if i == 2 {
                assert(dollar_free(m@.fields[2].column));
            } else if i == 3 {
                assert(dollar_free(m@.fields[3].column));
            } else if i == 4 {
                assert(dollar_free(m@.fields[4].column));
            } else if i == 5 {
                assert(dollar_free(m@.fields[5].column));
            } else if i == 6 {
                assert(dollar_free(m@.fields[6].column));
            }
        }
    }
}

/// The first field is the primary key and no other is.
pub open spec fn pk_first(fields: Seq<FieldDef>) -> bool {
    fields.len() > 0 && fields[0].is_primary_key && forall|j: int|
        1 <= j < fields.len() ==> !(#[trigger] fields[j].is_primary_key)
}

fn text(s: &str) -> (r: String)
    ensures
        r@ == s@,
{
    s.to_owned()
}

/// The primary key `id`, generated by the database.
fn id_field() -> (r: FieldDef)
    ensures
        r.is_primary_key,
        r@ == id_view(),
{
    FieldDef {
        name: text("id"),
        column: text("id"),
        scalar: Some(ScalarType::Id),
        is_primary_key: true,
        is_filterable: true,
        is_sortable: true,
        is_writable: false,
        has_default: true,
        relation: None,
    }
}

/// A writable scalar attribute.
fn scalar_field(name: &str, column: &str, t: ScalarType, filterable: bool, sortable: bool) -> (r: FieldDef)
    ensures
        !r.is_primary_key,
        r@ == scalar_view(name@, column@, t, filterable, sortable),
{
    FieldDef {
        name: text(name),
        column: text(column),
        scalar: Some(t),
        is_primary_key: false,
        is_filterable: filterable,
        is_sortable: sortable,
        is_writable: true,
        has_default: false,
        relation: None,
    }
}

/// The owning organization, `orgId`, set on creation.
fn org_id_field() -> (r: FieldDef)
    ensures
        !r.is_primary_key,
        r@ == org_id_view(),
{
    FieldDef {
        name: text("orgId"),
        column: text("org_id"),
        scalar: Some(ScalarType::String),
        is_primary_key: false,
        is_filterable: true,
        is_sortable: false,
        is_writable: false,
        has_default: false,
        relation: None,
    }
}

/// The creation time, filled in by the database.
fn created_at_field() -> (r: FieldDef)
    ensures
        !r.is_primary_key,
        r@ == created_at_view(),
{
    FieldDef {
        name: text("createdAt"),
        column: text("created_at"),
        scalar: Some(ScalarType::DateTime),
        is_primary_key: false,
        is_filterable: true,
        is_sortable: true,
        is_writable: false,
        has_default: true,
        relation: None,
    }
}

/// A foreign key to another model, stored as an identifier column.
fn link_field(name: &str, column: &str, target: &str) -> (r: FieldDef)
    ensures
        !r.is_primary_key,
        r@ == link_view(name@, column@, target@),
{
    FieldDef {
        name: text(name),
        column: text(column),
        scalar: Some(ScalarType::Id),
        is_primary_key: false,
        is_filterable: true,
        is_sortable: false,
        is_writable: true,
        has_default: false,
        relation: Some(RelationDef { kind: RelationKind::ManyToOne, target_model: text(target), fk_column: text(column) }),
    }
}

/// A relation-only field with no column of its own.
fn collection_field(name: &str, target: &str, fk_column: &str) -> (r: FieldDef)
    ensures
        !r.is_primary_key,
        r@ == collection_view(name@, target@, fk_column@),
{
    FieldDef {
        name: text(name),
        column: text(fk_column),
        scalar: None,
        is_primary_key: false,
        is_filterable: false,
        is_sortable: false,
        is_writable: false,
        has_default: false,
        relation: Some(RelationDef { kind: RelationKind::OneToMany, target_model: text(target), fk_column: text(fk_column) }),
    }
}

fn add_field(fields: &mut Vec<FieldDef>, f: FieldDef)
    requires
        pk_first(old(fields)@),
        !f.is_primary_key,
    ensures
        pk_first(final(fields)@),
        fields_view(final(fields)@) == fields_view(old(fields)@).push(f@),
{
    fields.push(f);
    assert(fields_view(fields@) =~= fields_view(old(fields)@).push(f@));
    assert(fields@[0] == old(fields)@[0]);
    assert forall|j: int| 1 <= j < fields@.len() implies !(#[trigger] fields@[j].is_primary_key) by {
        if j < old(fields)@.len() {
            assert(fields@[j] == old(fields)@[j]);
        }
    }
}

fn model(name: &str, table: &str, fields: Vec<FieldDef>) -> (r: ModelDef)
    requires
        pk_first(fields@),
    ensures
        r@ == (ModelView { name: name@, table: table@, fields: fields_view(fields@) }),
        r.wf(),
{
    let r = ModelDef { name: text(name), table: text(table), fields };
    assert(r.fields@[0].is_primary_key);
    r
}

fn start() -> (r: Vec<FieldDef>)
    ensures
        pk_first(r@),
        fields_view(r@) == seq![id_view()],
{
    let mut fields: Vec<FieldDef> = Vec::new();
    fields.push(id_field());
    assert(fields_view(fields@) =~= seq![id_view()]);
    fields
}

fn account_model() -> (r: ModelDef)
    ensures
        r@ == account_view(),
        r.wf(),
{
    let mut f = start();
    add_field(&mut f, org_id_field());
    add_field(&mut f, scalar_field("name", "name", ScalarType::String, true, true));
    add_field(&mut f, scalar_field("industry", "industry", ScalarType::String, true, true));
    add_field(&mut f, scalar_field("website", "website", ScalarType::String, true, false));
    add_field(&mut f, created_at_field());
    add_field(&mut f, collection_field("contacts", "Contact", "account_id"));
    assert(fields_view(f@) =~= account_view().fields);
    model("Account", "accounts", f)
}

fn contact_model() -> (r: ModelDef)
    ensures
        r@ == contact_view(),
        r.wf(),
{
    let mut f = start();
    add_field(&mut f, org_id_field());
    add_field(&mut f, link_field("accountId", "account_id", "Account"));
    add_field(&mut f, scalar_field("name", "full_name", ScalarType::String, true, true));
    add_field(&mut f, scalar_field("email", "email", ScalarType::String, true, true));
    add_field(&mut f, scalar_field("phone", "phone", ScalarType::String, true, false));
    add_field(&mut f, created_at_field());
    assert(fields_view(f@) =~= contact_view().fields);
    model("Contact", "contacts", f)
}

fn ticket_model() -> (r: ModelDef)
    ensures
        r@ == ticket_view(),
        r.wf(),
{
    let mut f = start();
    add_field(&mut f, org_id_field());
    add_field(&mut f, link_field("contactId", "contact_id", "Contact"));
    add_field(&mut f, scalar_field("subject", "subject", ScalarType::String, true, true));
    add_field(&mut f, scalar_field("status", "status", ScalarType::String, true, true));
    add_field(&mut f, scalar_field("priority", "priority", ScalarType::Int, true, true));
    add_field(&mut f, created_at_field());
    assert(fields_view(f@) =~= ticket_view().fields);
    model("Ticket", "tickets", f)
}

fn social_event_model() -> (r: ModelDef)
    ensures
        r@ == social_event_view(),
        r.wf(),
{
    let mut f = start();
    add_field(&mut f, org_id_field());
    add_field(&mut f, scalar_field("platform", "platform", ScalarType::String, true, true));
    add_field(&mut f, scalar_field("payload", "payload", ScalarType::Json, false, false));
    add_field(&mut f, scalar_field("occurredAt", "occurred_at", ScalarType::DateTime, true, true));
    assert(fields_view(f@) =~= social_event_view().fields);
    model("SocialEvent", "social_events", f)
}

fn lead_model() -> (r: ModelDef)
    ensures
        r@ == lead_view(),
        r.wf(),
{
    let mut f = start();
    add_field(&mut f, org_id_field());
    add_field(&mut f, scalar_field("name", "full_name", ScalarType::String, true, true));
    add_field(&mut f, scalar_field("email", "email", ScalarType::String, true, true));
    add_field(&mut f, scalar_field("score", "score", ScalarType::Int, true, true));
    add_field(&mut f, scalar_field("converted", "is_converted", ScalarType::Bool, true, false));
    add_field(&mut f, created_at_field());
    assert(fields_view(f@) =~= lead_view().fields);
    model("Lead", "leads", f)
}

fn opportunity_model() -> (r: ModelDef)
    ensures
        r@ == opportunity_view(),
        r.wf(),
{
    let mut f = start();
    add_field(&mut f, org_id_field());
    add_field(&mut f, link_field("accountId", "account_id", "Account"));
    add_field(&mut f, scalar_field("name", "name", ScalarType::String, true, true));
    add_field(&mut f, scalar_field("amount", "amount", ScalarType::Float, true, true));
    add_field(&mut f, scalar_field("stage", "stage", ScalarType::String, true, true));
    add_field(&mut f, scalar_field("closeDate", "close_date", ScalarType::DateTime, true, true));
    assert(fields_view(f@) =~= opportunity_view().fields);
    model("Opportunity", "opportunities", f)
}

/// Every model of the catalog, each with exactly one primary key.
pub fn all_models() -> (r: Vec<ModelDef>)
    ensures
        r@.len() == catalog().len(),
        forall|i: int| 0 <= i < r@.len() ==> (#[trigger] r@[i])@ == catalog()[i] && r@[i].wf(),
{
    let mut r: Vec<ModelDef> = Vec::new();
    r.push(account_model());
    r.push(contact_model());
    r.push(ticket_model());
    r.push(social_event_model());
    r.push(lead_model());
    r.push(opportunity_model());
    assert forall|i: int| 0 <= i < r@.len() implies (#[trigger] r@[i])@ == catalog()[i] && r@[i].wf() by {
        if i == 0 {
        } else if i == 1 {
        } else if i == 2 {
        } else if i == 3 {
        } else if i == 4 {
        } else {
        }
    }
    r
}

/// The catalog's model with exactly the given name, if there is one.
pub fn get_model(name: &str) -> (r: Option<ModelDef>)
    ensures
        match r {
            Some(m) => catalog_model(name@) == Some(m@) && m.wf(),
            None => catalog_model(name@) is None,
        },
{
    let key = name.to_owned();
    let mut models = all_models();
    let len = models.len();
    let mut i: usize = 0;
    while i < len
        invariant
            len == models@.len(),
            len == catalog().len(),
            i <= len,
            key@ == name@,
            forall|k: int| 0 <= k < len ==> (#[trigger] models@[k])@ == catalog()[k] && models@[k].wf(),
            forall|k: int| 0 <= k < i ==> (#[trigger] catalog()[k]).name != name@,
        decreases len - i,
    {
        if models[i].name == key {
            assert(catalog()[i as int].name == name@);
            return Some(models.remove(i));
        }
        i = i + 1;
    }
    assert(catalog()[0].name != name@);
    assert(catalog()[1].name != name@);
    assert(catalog()[2].name != name@);
    assert(catalog()[3].name != name@);
    assert(catalog()[4].name != name@);
    assert(catalog()[5].name != name@);
    None
}

} // verus!
