use vstd::prelude::*;

use crate::catalog::{catalog_model, get_model};
use crate::model::ModelDef;
use crate::query::{values_view, LogicalFilter, OrderBy, Page, QueryError};
use crate::rbac::{scoped_as, with_scope, Principal};
use crate::sql_builder::{build_select, deref_filter, select_sql, BuiltQuery};

verus! {

/// `r` is the statement for the request on model `m` with effective filter `f`.
pub open spec fn compiled_as(m: ModelDef, f: Option<LogicalFilter>, obs: Seq<OrderBy>, page: Option<Page>, r: Result<BuiltQuery, QueryError>) -> bool {
    match select_sql(m, f, obs, page) {
        Ok(q) => r matches Ok(b) && b.sql@ == q.0 && values_view(b.bind_values@) == q.1,
        Err(e) => r == Err::<BuiltQuery, QueryError>(e),
    }
}

/// Compiles a caller's request end to end: resolves the model by name,
/// scopes the caller's filter by the principal, and compiles the select.
pub fn compile_request(
    model_name: &str,
    principal: &Principal,
    filter: Option<LogicalFilter>,
    order_by: &[OrderBy],
    page: Option<Page>,
) -> (r: Result<BuiltQuery, QueryError>)
    ensures
        catalog_model(model_name@) is None ==> r == Err::<BuiltQuery, QueryError>(QueryError::UnknownModel),
        catalog_model(model_name@) is Some ==> exists|m: ModelDef, f: Option<LogicalFilter>|
            m@ == catalog_model(model_name@)->0 && m.wf() && scoped_as(m, *principal, filter, f)
                && compiled_as(m, f, order_by@, page, r),
{
    let model = match get_model(model_name) {
        None => return Err(QueryError::UnknownModel),
        Some(m) => m,
    };
    let effective = with_scope(&model, principal, filter);
    let scoped = effective.as_ref();
    let r = build_select(&model, scoped, order_by, page);
    assert(deref_filter(scoped) == effective);
    assert(compiled_as(model, effective, order_by@, page, r));
    r
}

} // verus!
