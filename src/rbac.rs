use vstd::prelude::*;

use crate::model::{ModelDef, ScalarType};
use crate::query::{FieldFilter, FilterOp, FilterValue, LogicalFilter, OrderBy, Page, ScalarValue, ValueView};
use crate::sql_builder::{column_ref, emit, lemma_emit_independent_of_next, op_symbol, placeholder, select_sql};

verus! {

#[derive(Clone, Copy, Debug, PartialEq, Eq, Structural)]
pub enum PrincipalKind {
    InternalUser,
    ExternalUser,
    Machine,
}

/// The caller of a request, as supplied by the authentication layer.
/// Linked user and contact identifiers are held as their 128-bit value.
#[derive(Clone, Debug)]
pub struct Principal {
    pub sub: String,
    pub org_id: Option<String>,
    pub kind: PrincipalKind,
    pub roles: Vec<String>,
    pub permissions: Vec<String>,
    pub user_id: Option<u128>,
    pub contact_id: Option<u128>,
}

/// The role that sees every row.
pub open spec fn admin_role() -> Seq<char> {
    "CRM_PLATFORM_ADMIN"@
}

/// The field through which rows belong to an organization.
pub open spec fn org_field() -> Seq<char> {
    "orgId"@
}

pub open spec fn is_admin(p: Principal) -> bool {
    exists|i: int| 0 <= i < p.roles@.len() && (#[trigger] p.roles@[i])@ == admin_role()
}

/// Whether the principal's rows of `m` are restricted to its organization.
pub open spec fn is_scoped(m: ModelDef, p: Principal) -> bool {
    !is_admin(p) && p.org_id is Some && m.spec_field(org_field()) is Some
}

/// `lf` is the predicate `orgId = org`.
pub open spec fn is_org_predicate(lf: LogicalFilter, org: Seq<char>) -> bool {
    match lf {
        LogicalFilter::Simple(ff) => ff.field@ == org_field() && ff.op == FilterOp::Eq && match ff.value {
            FilterValue::One(ScalarValue::String(s)) => s@ == org,
            _ => false,
        },
        _ => false,
    }
}

/// `r` is the effective filter for principal `p` on model `m` given the
/// caller's filter `uf`: the caller's filter alone when no scope applies,
/// otherwise the organization predicate alone or ANDed before the caller's.
pub open spec fn scoped_as(m: ModelDef, p: Principal, uf: Option<LogicalFilter>, r: Option<LogicalFilter>) -> bool {
    if !is_scoped(m, p) {
        r == uf
    } else {
        match uf {
            None => r matches Some(sf) && is_org_predicate(sf, p.org_id->0@),
            Some(u) => r matches Some(LogicalFilter::And(list)) && list@.len() == 2
                && is_org_predicate(list@[0], p.org_id->0@) && list@[1] == u,
        }
    }
}

fn has_admin_role(principal: &Principal) -> (r: bool)
    ensures
        r == is_admin(*principal),
{
    let admin = "CRM_PLATFORM_ADMIN".to_owned();
    let len = principal.roles.len();
    let mut i: usize = 0;
    while i < len
        invariant
            len == principal.roles@.len(),
            i <= len,
            admin@ == admin_role(),
            forall|j: int| 0 <= j < i ==> (#[trigger] principal.roles@[j])@ != admin_role(),
        decreases len - i,
    {
        if principal.roles[i] == admin {
            return true;
        }
        i = i + 1;
    }
    false
}

/// The row restriction for `principal` on `model`: none for an admin, the
/// predicate `orgId = <its organization>` when it has an organization and the
/// model declares `orgId`, none otherwise.
pub fn scope_filter_for(model: &ModelDef, principal: &Principal) -> (r: Option<LogicalFilter>)
    ensures
        is_scoped(*model, *principal) ==> (r matches Some(sf) && is_org_predicate(sf, principal.org_id->0@)),
        !is_scoped(*model, *principal) ==> r is None,
{
    if has_admin_role(principal) {
        return None;
    }
    if let Some(org_id) = &principal.org_id {
        if model.field("orgId").is_some() {
            return Some(LogicalFilter::Simple(FieldFilter {
                field: "orgId".to_owned(),
                op: FilterOp::Eq,
                value: FilterValue::One(ScalarValue::String(org_id.clone())),
            }));
        }
    }
    None
}

/// The effective filter: the principal's scope, if any, ANDed before the
/// caller's filter, which is kept whole.
pub fn with_scope(
    model: &ModelDef,
    principal: &Principal,
    user_filter: Option<LogicalFilter>,
) -> (r: Option<LogicalFilter>)
    ensures
        scoped_as(*model, *principal, user_filter, r),
{
    let scope = scope_filter_for(model, principal);
    match (scope, user_filter) {
        (None, uf) => uf,
        (Some(sf), None) => Some(sf),
        (Some(sf), Some(uf)) => {
            let mut list: Vec<LogicalFilter> = Vec::new();
            list.push(sf);
            list.push(uf);
            Some(LogicalFilter::And(list))
        },
    }
}

/// An admin is never scoped: whatever organization it carries, its
/// effective filter is the caller's own, and the statement compiled from it
/// is the one compiled from the caller's filter alone.
pub proof fn lemma_admin_is_unscoped(
    m: ModelDef,
    p: Principal,
    uf: Option<LogicalFilter>,
    r: Option<LogicalFilter>,
    obs: Seq<OrderBy>,
    page: Option<Page>,
)
    requires
        scoped_as(m, p, uf, r),
        is_admin(p),
    ensures
        r == uf,
        select_sql(m, r, obs, page) == select_sql(m, uf, obs, page),
{
}

/// The compiled organization predicate `table.org_column = $1`.
pub open spec fn org_predicate_sql(m: ModelDef) -> Seq<char> {
    column_ref(m, m.spec_field(org_field())->0) + " "@ + (op_symbol(FilterOp::Eq) + " "@ + placeholder(1))
}

/// For a scoped principal on a model whose organization field is filterable
/// and string-typed, the compiled filter always starts with the equality on
/// that field, bound first to the principal's organization, and the caller's
/// filter, if any, follows it under AND, compiled unchanged after it: the
/// scoped filter compiles exactly when the caller's filter compiles on its
/// own, and binds the organization followed by the caller's own values.
pub proof fn lemma_scope_is_anded_first(m: ModelDef, p: Principal, uf: Option<LogicalFilter>, r: Option<LogicalFilter>)
    requires
        scoped_as(m, p, uf, r),
        is_scoped(m, p),
        m.spec_field(org_field())->0.is_filterable,
        m.spec_field(org_field())->0.scalar == Some(ScalarType::String),
    ensures
        r is Some,
        uf is None ==> emit(m, r->0, 0) == Ok::<_, crate::query::QueryError>((
            org_predicate_sql(m),
            seq![ValueView::Str(p.org_id->0@)],
            seq![1nat],
        )),
        uf matches Some(u) ==> match emit(m, u, 1) {
            Ok(e) => emit(m, r->0, 0) == Ok::<_, crate::query::QueryError>((
                "("@ + org_predicate_sql(m) + " AND "@ + e.0 + ")"@,
                seq![ValueView::Str(p.org_id->0@)] + e.1,
                seq![1nat] + e.2,
            )),
            Err(e) => emit(m, r->0, 0) == Err::<crate::sql_builder::Emission, _>(e),
        },
        uf matches Some(u) ==> (emit(m, r->0, 0) is Ok <==> emit(m, u, 0) is Ok),
        uf matches Some(u) ==> (emit(m, u, 0) is Ok ==> emit(m, r->0, 0)->Ok_0.1
            == seq![ValueView::Str(p.org_id->0@)] + emit(m, u, 0)->Ok_0.1),
{
    let sf = match r->0 {
        LogicalFilter::And(list) => list@[0],
        other => other,
    };
    let org = p.org_id->0@;
    assert(emit(m, sf, 0) == Ok::<_, crate::query::QueryError>((
        org_predicate_sql(m),
        seq![ValueView::Str(org)],
        seq![1nat],
    )));
    if let Some(u) = uf {
        lemma_emit_independent_of_next(m, u, 0, 1);
        if let LogicalFilter::And(list) = r->0 {
            let items = list@;
            assert(items.drop_last().drop_last() =~= Seq::<LogicalFilter>::empty());
            assert(items.drop_last().last() == sf);
            assert(items.last() == u);
            let one = crate::sql_builder::emit_items(m, items.drop_last(), " AND "@, 0);
            assert(crate::sql_builder::emit_items(m, items.drop_last().drop_last(), " AND "@, 0)
                == Ok::<_, crate::query::QueryError>((Seq::<char>::empty(), Seq::<ValueView>::empty(), Seq::<nat>::empty())));
            assert(one is Ok);
            assert(one->Ok_0.0 == org_predicate_sql(m));
            assert(one->Ok_0.1 =~= seq![ValueView::Str(org)]);
            assert(one->Ok_0.2 =~= seq![1nat]);
            assert(0 + one->Ok_0.1.len() == 1);
            let all = crate::sql_builder::emit_items(m, items, " AND "@, 0);
            match emit(m, u, 1) {
                Ok(e) => {
                    assert(all == Ok::<_, crate::query::QueryError>((
                        org_predicate_sql(m) + " AND "@ + e.0,
                        seq![ValueView::Str(org)] + e.1,
                        seq![1nat] + e.2,
                    )));
                    assert(("("@ + (org_predicate_sql(m) + " AND "@ + e.0) + ")"@) =~= ("("@ + org_predicate_sql(m) + " AND "@ + e.0 + ")"@));
                },
                Err(e) => {
                    assert(all == Err::<crate::sql_builder::Emission, _>(e));
                },
            }
        }
    }
}

} // verus!
