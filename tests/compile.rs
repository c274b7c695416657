use crm_platform::catalog::{all_models, get_model};
use crm_platform::model::{ModelDef, ScalarType};
use crm_platform::query::{
    FieldFilter, FilterOp, FilterValue, LogicalFilter, OrderBy, OrderDirection, Page, QueryError,
    ScalarValue,
};
use crm_platform::rbac::{scope_filter_for, with_scope, Principal, PrincipalKind};
use crm_platform::sql_builder::build_select;

fn model(name: &str) -> ModelDef {
    get_model(name).expect("model in catalog")
}

fn leaf(field: &str, op: FilterOp, value: ScalarValue) -> LogicalFilter {
    LogicalFilter::Simple(FieldFilter { field: field.to_string(), op, value: FilterValue::One(value) })
}

fn text(s: &str) -> ScalarValue {
    ScalarValue::String(s.to_string())
}

fn principal(org: Option<&str>, roles: &[&str]) -> Principal {
    Principal {
        sub: "user-1".to_string(),
        org_id: org.map(|o| o.to_string()),
        kind: PrincipalKind::InternalUser,
        roles: roles.iter().map(|r| r.to_string()).collect(),
        permissions: vec![],
        user_id: None,
        contact_id: None,
    }
}

const TICKET_COLUMNS: &str = "SELECT tickets.id AS id, tickets.org_id AS orgId, tickets.contact_id AS contactId, tickets.subject AS subject, tickets.status AS status, tickets.priority AS priority, tickets.created_at AS createdAt FROM tickets";

/// Counts `$n` placeholders and checks they run 1, 2, ... in order.
fn placeholders(sql: &str) -> Vec<usize> {
    let mut out = vec![];
    let chars: Vec<char> = sql.chars().collect();
    let mut i = 0;
    while i < chars.len() {
        if chars[i] == '$' {
            let mut j = i + 1;
            let mut n = 0usize;
            while j < chars.len() && chars[j].is_ascii_digit() {
                n = n * 10 + chars[j].to_digit(10).unwrap() as usize;
                j += 1;
            }
            out.push(n);
            i = j;
        } else {
            i += 1;
        }
    }
    out
}

#[test]
fn and_of_status_and_priority_compiles_in_order() {
    let m = model("Ticket");
    let f = LogicalFilter::And(vec![
        leaf("status", FilterOp::Eq, text("open")),
        leaf("priority", FilterOp::Gte, ScalarValue::Int(3)),
    ]);
    let q = build_select(&m, Some(&f), &[], None).unwrap();
    assert_eq!(q.sql, format!("{} WHERE (tickets.status = $1 AND tickets.priority >= $2)", TICKET_COLUMNS));
    assert_eq!(q.bind_values, vec![text("open"), ScalarValue::Int(3)]);
}

#[test]
fn contains_wraps_literal_in_wildcards() {
    let m = model("Account");
    let f = leaf("name", FilterOp::Contains, text("acme"));
    let q = build_select(&m, Some(&f), &[], None).unwrap();
    assert!(q.sql.ends_with(" WHERE accounts.name ILIKE $1"));
    assert_eq!(q.bind_values, vec![text("%acme%")]);
}

#[test]
fn starts_and_ends_with_wrap_one_side() {
    let m = model("Account");
    let q = build_select(&m, Some(&leaf("name", FilterOp::StartsWith, text("ac"))), &[], None).unwrap();
    assert_eq!(q.bind_values, vec![text("ac%")]);
    let q = build_select(&m, Some(&leaf("name", FilterOp::EndsWith, text("me"))), &[], None).unwrap();
    assert_eq!(q.bind_values, vec![text("%me")]);
}

#[test]
fn unknown_field_is_schema_error() {
    let m = model("Ticket");
    let f = leaf("nope", FilterOp::Eq, text("x"));
    assert_eq!(build_select(&m, Some(&f), &[], None), Err(QueryError::UnknownField));
}

#[test]
fn contains_with_int_is_type_mismatch() {
    let m = model("Contact");
    let f = leaf("email", FilterOp::Contains, ScalarValue::Int(42));
    assert_eq!(build_select(&m, Some(&f), &[], None), Err(QueryError::TypeMismatch));
}

#[test]
fn value_of_wrong_type_is_type_mismatch() {
    let m = model("Ticket");
    let f = leaf("priority", FilterOp::Eq, text("high"));
    assert_eq!(build_select(&m, Some(&f), &[], None), Err(QueryError::TypeMismatch));
}

#[test]
fn unfilterable_field_is_rejected() {
    let m = model("SocialEvent");
    let f = leaf("payload", FilterOp::Eq, ScalarValue::Json("{}".to_string()));
    assert_eq!(build_select(&m, Some(&f), &[], None), Err(QueryError::NotFilterable));
}

#[test]
fn order_by_uses_storage_column() {
    let m = model("Contact");
    let ob = [
        OrderBy { field: "name".to_string(), direction: OrderDirection::Asc },
        OrderBy { field: "createdAt".to_string(), direction: OrderDirection::Desc },
    ];
    let q = build_select(&m, None, &ob, None).unwrap();
    assert!(q.sql.ends_with(" FROM contacts ORDER BY contacts.full_name ASC, contacts.created_at DESC"));
    assert!(q.bind_values.is_empty());
}

#[test]
fn order_by_unknown_or_unsortable_field_is_rejected() {
    let m = model("Ticket");
    let unknown = [OrderBy { field: "nope".to_string(), direction: OrderDirection::Asc }];
    assert_eq!(build_select(&m, None, &unknown, None), Err(QueryError::UnknownField));
    let unsortable = [OrderBy { field: "orgId".to_string(), direction: OrderDirection::Asc }];
    assert_eq!(build_select(&m, None, &unsortable, None), Err(QueryError::NotSortable));
}

#[test]
fn page_emits_literal_limit_and_offset() {
    let m = model("Lead");
    let q = build_select(&m, None, &[], Some(Page { limit: 20, offset: 40 })).unwrap();
    assert!(q.sql.ends_with(" FROM leads LIMIT 20 OFFSET 40"));
    let q = build_select(&m, None, &[], Some(Page { limit: 0, offset: 1234567 })).unwrap();
    assert!(q.sql.ends_with(" LIMIT 0 OFFSET 1234567"));
}

#[test]
fn negative_page_is_rejected() {
    let m = model("Lead");
    assert_eq!(build_select(&m, None, &[], Some(Page { limit: -1, offset: 0 })), Err(QueryError::NegativePage));
    assert_eq!(build_select(&m, None, &[], Some(Page { limit: 10, offset: -5 })), Err(QueryError::NegativePage));
}

#[test]
fn placeholders_match_bind_list() {
    let m = model("Ticket");
    let f = LogicalFilter::Or(vec![
        LogicalFilter::Not(Box::new(leaf("status", FilterOp::Ne, text("closed")))),
        LogicalFilter::And(vec![
            leaf("priority", FilterOp::Lt, ScalarValue::Int(1)),
            LogicalFilter::Simple(FieldFilter {
                field: "status".to_string(),
                op: FilterOp::In,
                value: FilterValue::Many(vec![text("open"), text("pending"), text("new")]),
            }),
            leaf("subject", FilterOp::StartsWith, text("re")),
        ]),
        leaf("priority", FilterOp::Gt, ScalarValue::Int(9)),
        leaf("priority", FilterOp::Lte, ScalarValue::Int(12)),
    ]);
    let q = build_select(&m, Some(&f), &[], None).unwrap();
    let ps = placeholders(&q.sql);
    assert_eq!(ps.len(), q.bind_values.len());
    assert_eq!(ps, (1..=q.bind_values.len()).collect::<Vec<_>>());
    assert_eq!(q.bind_values[5], text("re%"));
}

fn list(field: &str, op: FilterOp, values: Vec<ScalarValue>) -> LogicalFilter {
    LogicalFilter::Simple(FieldFilter { field: field.to_string(), op, value: FilterValue::Many(values) })
}

#[test]
fn in_and_not_in_bind_one_placeholder_per_value() {
    let m = model("Ticket");
    let f = LogicalFilter::And(vec![
        leaf("subject", FilterOp::Eq, text("x")),
        list("priority", FilterOp::In, vec![ScalarValue::Int(1), ScalarValue::Int(2)]),
        list("status", FilterOp::NotIn, vec![text("closed")]),
    ]);
    let q = build_select(&m, Some(&f), &[], None).unwrap();
    assert!(q.sql.ends_with(
        " WHERE (tickets.subject = $1 AND tickets.priority IN ($2, $3) AND tickets.status NOT IN ($4))"
    ));
    assert_eq!(q.bind_values, vec![text("x"), ScalarValue::Int(1), ScalarValue::Int(2), text("closed")]);
}

#[test]
fn in_list_errors() {
    let m = model("Ticket");
    let empty = list("priority", FilterOp::In, vec![]);
    assert_eq!(build_select(&m, Some(&empty), &[], None), Err(QueryError::EmptyValueList));
    let mixed = list("priority", FilterOp::In, vec![ScalarValue::Int(1), text("2")]);
    assert_eq!(build_select(&m, Some(&mixed), &[], None), Err(QueryError::TypeMismatch));
    let single = leaf("priority", FilterOp::In, ScalarValue::Int(1));
    assert_eq!(build_select(&m, Some(&single), &[], None), Err(QueryError::TypeMismatch));
    let many_eq = list("priority", FilterOp::Eq, vec![ScalarValue::Int(1)]);
    assert_eq!(build_select(&m, Some(&many_eq), &[], None), Err(QueryError::TypeMismatch));
}

#[test]
fn empty_combinators_are_rejected() {
    let m = model("Ticket");
    assert_eq!(build_select(&m, Some(&LogicalFilter::And(vec![])), &[], None), Err(QueryError::EmptyCombinator));
    assert_eq!(build_select(&m, Some(&LogicalFilter::Or(vec![])), &[], None), Err(QueryError::EmptyCombinator));
}

#[test]
fn not_parenthesizes_its_operand() {
    let m = model("Ticket");
    let f = LogicalFilter::Not(Box::new(LogicalFilter::Or(vec![
        leaf("status", FilterOp::Eq, text("a")),
        leaf("status", FilterOp::Eq, text("b")),
    ])));
    let q = build_select(&m, Some(&f), &[], None).unwrap();
    assert!(q.sql.ends_with(" WHERE NOT ((tickets.status = $1 OR tickets.status = $2))"));
}

#[test]
fn unknown_field_anywhere_is_schema_error() {
    let m = model("Ticket");
    let f = LogicalFilter::And(vec![
        leaf("priority", FilterOp::Contains, text("x")),
        leaf("nope", FilterOp::Eq, text("x")),
    ]);
    assert_eq!(build_select(&m, Some(&f), &[], None), Err(QueryError::UnknownField));
}

#[test]
fn first_type_error_in_tree_wins() {
    let m = model("SocialEvent");
    let f = LogicalFilter::Or(vec![
        leaf("platform", FilterOp::Eq, ScalarValue::Int(1)),
        leaf("payload", FilterOp::Eq, ScalarValue::Json("{}".to_string())),
    ]);
    assert_eq!(build_select(&m, Some(&f), &[], None), Err(QueryError::TypeMismatch));
}

#[test]
fn relation_only_fields_are_not_projected() {
    let m = model("Account");
    let q = build_select(&m, None, &[], None).unwrap();
    assert_eq!(
        q.sql,
        "SELECT accounts.id AS id, accounts.org_id AS orgId, accounts.name AS name, accounts.industry AS industry, accounts.website AS website, accounts.created_at AS createdAt FROM accounts"
    );
}

#[test]
fn admin_is_never_scoped() {
    let m = model("Ticket");
    let admin = principal(Some("org-7"), &["SUPPORT", "CRM_PLATFORM_ADMIN"]);
    assert!(scope_filter_for(&m, &admin).is_none());
    assert!(with_scope(&m, &admin, None).is_none());
    let f = with_scope(&m, &admin, Some(leaf("status", FilterOp::Eq, text("open"))));
    let q = build_select(&m, f.as_ref(), &[], None).unwrap();
    assert!(q.sql.ends_with(" WHERE tickets.status = $1"));
    assert_eq!(q.bind_values, vec![text("open")]);
}

#[test]
fn org_scope_is_anded_before_user_filter() {
    let m = model("Ticket");
    let user = principal(Some("org-7"), &["SUPPORT"]);
    let f = with_scope(&m, &user, Some(leaf("status", FilterOp::Eq, text("open"))));
    let q = build_select(&m, f.as_ref(), &[], None).unwrap();
    assert!(q.sql.ends_with(" WHERE (tickets.org_id = $1 AND tickets.status = $2)"));
    assert_eq!(q.bind_values, vec![text("org-7"), text("open")]);
}

#[test]
fn org_scope_alone_without_user_filter() {
    let m = model("Lead");
    let user = principal(Some("org-9"), &[]);
    let f = with_scope(&m, &user, None);
    let q = build_select(&m, f.as_ref(), &[], None).unwrap();
    assert!(q.sql.ends_with(" WHERE leads.org_id = $1"));
    assert_eq!(q.bind_values, vec![text("org-9")]);
}

#[test]
fn no_org_means_no_scope() {
    let m = model("Ticket");
    let user = principal(None, &["SUPPORT"]);
    assert!(scope_filter_for(&m, &user).is_none());
    let f = with_scope(&m, &user, Some(leaf("status", FilterOp::Eq, text("open"))));
    let q = build_select(&m, f.as_ref(), &[], None).unwrap();
    assert_eq!(q.bind_values, vec![text("open")]);
}

#[test]
fn catalog_lookup_is_exact() {
    assert_eq!(all_models().len(), 6);
    for name in ["Account", "Contact", "Ticket", "SocialEvent", "Lead", "Opportunity"] {
        let m = get_model(name).unwrap();
        assert_eq!(m.name, name);
        assert!(m.pk_field().is_primary_key);
    }
    assert!(get_model("ticket").is_none());
    assert!(get_model("").is_none());
    assert!(get_model("Tickets").is_none());
}

#[test]
fn field_and_pk_lookup() {
    let m = model("Ticket");
    let f = m.field("priority").unwrap();
    assert_eq!(f.column, "priority");
    assert_eq!(f.scalar, Some(ScalarType::Int));
    assert!(m.field("Priority").is_none());
    assert_eq!(m.pk_field().name, "id");
    assert_eq!(model("Contact").field("name").unwrap().column, "full_name");
}

#[test]
fn request_on_unknown_model_is_rejected() {
    let user = principal(Some("org-1"), &[]);
    assert_eq!(
        crm_platform::request::compile_request("Invoice", &user, None, &[], None),
        Err(QueryError::UnknownModel)
    );
}

#[test]
fn request_is_scoped_ordered_and_paged() {
    let user = principal(Some("org-1"), &["SALES"]);
    let ob = [OrderBy { field: "amount".to_string(), direction: OrderDirection::Desc }];
    let q = crm_platform::request::compile_request(
        "Opportunity",
        &user,
        Some(leaf("stage", FilterOp::Eq, text("won"))),
        &ob,
        Some(Page { limit: 5, offset: 0 }),
    )
    .unwrap();
    assert!(q.sql.ends_with(
        " FROM opportunities WHERE (opportunities.org_id = $1 AND opportunities.stage = $2) ORDER BY opportunities.amount DESC LIMIT 5 OFFSET 0"
    ));
    assert_eq!(q.bind_values, vec![text("org-1"), text("won")]);
}

#[test]
fn unknown_field_under_not_is_schema_error() {
    let m = model("Lead");
    let f = LogicalFilter::Or(vec![
        leaf("score", FilterOp::Eq, text("high")),
        LogicalFilter::Not(Box::new(leaf("missing", FilterOp::Eq, ScalarValue::Int(1)))),
    ]);
    assert_eq!(build_select(&m, Some(&f), &[], None), Err(QueryError::UnknownField));
}
