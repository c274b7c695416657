use vstd::prelude::*;

use crate::model::{first_named, FieldDef, ModelDef, ScalarType};
use crate::query::{
    values_view, FieldFilter, FilterOp, FilterValue, LogicalFilter, OrderBy, OrderDirection, Page,
    QueryError, ScalarValue, ValueView,
};
use crate::text::{decimal, digit_char, push_decimal};

verus! {

/// What compiling a predicate produces: its SQL text, the values bound to its
/// placeholders in order, and the placeholder numbers in the order they occur
/// in the text.
pub type Emission = (Seq<char>, Seq<ValueView>, Seq<nat>);

/// The positional placeholder `$n`.
pub open spec fn placeholder(n: nat) -> Seq<char> {
    "$"@ + decimal(n)
}

/// `table.column` for a field of a model.
pub open spec fn column_ref(m: ModelDef, f: FieldDef) -> Seq<char> {
    m.table@ + "."@ + f.column@
}

pub open spec fn is_comparison(op: FilterOp) -> bool {
    op == FilterOp::Eq || op == FilterOp::Ne || op == FilterOp::Lt || op == FilterOp::Lte
        || op == FilterOp::Gt || op == FilterOp::Gte
}

pub open spec fn is_pattern(op: FilterOp) -> bool {
    op == FilterOp::Contains || op == FilterOp::StartsWith || op == FilterOp::EndsWith
}

/// The SQL operator an operator compiles to.
pub open spec fn op_symbol(op: FilterOp) -> Seq<char> {
    match op {
        FilterOp::Eq => "="@,
        FilterOp::Ne => "!="@,
        FilterOp::Lt => "<"@,
        FilterOp::Lte => "<="@,
        FilterOp::Gt => ">"@,
        FilterOp::Gte => ">="@,
        FilterOp::Contains => "ILIKE"@,
        FilterOp::StartsWith => "ILIKE"@,
        FilterOp::EndsWith => "ILIKE"@,
        FilterOp::In => "IN"@,
        FilterOp::NotIn => "NOT IN"@,
    }
}

/// The pattern bound for a substring operator: the literal wrapped in `%`
/// on the side(s) where any text may stand.
pub open spec fn pattern_of(op: FilterOp, s: Seq<char>) -> Seq<char> {
    match op {
        FilterOp::StartsWith => s + "%"@,
        FilterOp::EndsWith => "%"@ + s,
        _ => "%"@ + s + "%"@,
    }
}

/// `$(next+1), $(next+2), ..., $(next+n)`.
pub open spec fn placeholder_list(next: nat, n: nat) -> Seq<char>
    decreases n,
{
    if n == 0 {
        Seq::empty()
    } else if n == 1 {
        placeholder(next + 1)
    } else {
        placeholder_list(next, (n - 1) as nat) + ", "@ + placeholder(next + n)
    }
}

/// `next+1, next+2, ..., next+n`.
pub open spec fn numbers_from(next: nat, n: nat) -> Seq<nat> {
    Seq::new(n, |i: int| (next + i + 1) as nat)
}

/// The operator and right-hand side of a leaf predicate on a field of type
/// `t`, with `next` values already bound.
pub open spec fn emit_rhs(op: FilterOp, value: FilterValue, t: ScalarType, next: nat) -> Result<Emission, QueryError> {
    if is_comparison(op) {
        match value {
            FilterValue::One(v) => if v@.kind() == t {
                Ok((op_symbol(op) + " "@ + placeholder(next + 1), seq![v@], seq![next + 1]))
            } else {
                Err(QueryError::TypeMismatch)
            },
            FilterValue::Many(_) => Err(QueryError::TypeMismatch),
        }
    } else if is_pattern(op) {
        match value {
            FilterValue::One(ScalarValue::String(s)) => if t == ScalarType::String {
                Ok((op_symbol(op) + " "@ + placeholder(next + 1), seq![ValueView::Str(pattern_of(op, s@))], seq![next + 1]))
            } else {
                Err(QueryError::TypeMismatch)
            },
            _ => Err(QueryError::TypeMismatch),
        }
    } else {
        match value {
            FilterValue::One(_) => Err(QueryError::TypeMismatch),
            FilterValue::Many(vs) => if vs@.len() == 0 {
                Err(QueryError::EmptyValueList)
            } else if forall|i: int| 0 <= i < vs@.len() ==> (#[trigger] vs@[i])@.kind() == t {
                Ok((op_symbol(op) + " ("@ + placeholder_list(next, vs@.len()) + ")"@, values_view(vs@), numbers_from(next, vs@.len())))
            } else {
                Err(QueryError::TypeMismatch)
            },
        }
    }
}

/// A leaf predicate `table.column <op> <rhs>`.
pub open spec fn emit_simple(m: ModelDef, ff: FieldFilter, next: nat) -> Result<Emission, QueryError> {
    match m.spec_field(ff.field@) {
        None => Err(QueryError::UnknownField),
        Some(f) => if !f.is_filterable {
            Err(QueryError::NotFilterable)
        } else {
            match f.scalar {
                None => Err(QueryError::TypeMismatch),
                Some(t) => match emit_rhs(ff.op, ff.value, t, next) {
                    Ok(e) => Ok((column_ref(m, f) + " "@ + e.0, e.1, e.2)),
                    Err(e) => Err(e),
                },
            }
        }
    }
}

/// A predicate tree, with `next` values already bound; the first error met
/// in a left-to-right walk, if any. Statements check field names over the
/// whole tree before this (`where_clause`).
pub open spec fn emit(m: ModelDef, lf: LogicalFilter, next: nat) -> Result<Emission, QueryError>
    decreases lf,
{
    match lf {
        LogicalFilter::Simple(ff) => emit_simple(m, ff, next),
        LogicalFilter::And(list) => if list@.len() == 0 {
            Err(QueryError::EmptyCombinator)
        } else {
            match emit_items(m, list@, " AND "@, next) {
                Ok(e) => Ok(("("@ + e.0 + ")"@, e.1, e.2)),
                Err(e) => Err(e),
            }
        },
        LogicalFilter::Or(list) => if list@.len() == 0 {
            Err(QueryError::EmptyCombinator)
        } else {
            match emit_items(m, list@, " OR "@, next) {
                Ok(e) => Ok(("("@ + e.0 + ")"@, e.1, e.2)),
                Err(e) => Err(e),
            }
        },
        LogicalFilter::Not(inner) => match emit(m, *inner, next) {
            Ok(e) => Ok(("NOT ("@ + e.0 + ")"@, e.1, e.2)),
            Err(e) => Err(e),
        },
    }
}

/// The children of a combinator, joined by `sep`.
pub open spec fn emit_items(m: ModelDef, items: Seq<LogicalFilter>, sep: Seq<char>, next: nat) -> Result<Emission, QueryError>
    decreases items,
{
    if items.len() == 0 {
        Ok((Seq::empty(), Seq::empty(), Seq::empty()))
    } else {
        match emit_items(m, items.drop_last(), sep, next) {
            Err(e) => Err(e),
            Ok(p) => match emit(m, items.last(), next + p.1.len()) {
                Err(e) => Err(e),
                Ok(q) => Ok((if items.len() == 1 { q.0 } else { p.0 + sep + q.0 }, p.1 + q.1, p.2 + q.2)),
            },
        }
    }
}


fn push_placeholder(sql: &mut String, n: u128)
    ensures
        final(sql)@ == old(sql)@ + placeholder(n as nat),
{
    sql.append("$");
    push_decimal(sql, n);
    assert(sql@ =~= old(sql)@ + placeholder(n as nat));
}

fn op_text(op: FilterOp) -> (r: &'static str)
    ensures
        r@ == op_symbol(op),
{
    match op {
        FilterOp::Eq => "=",
        FilterOp::Ne => "!=",
        FilterOp::Lt => "<",
        FilterOp::Lte => "<=",
        FilterOp::Gt => ">",
        FilterOp::Gte => ">=",
        FilterOp::Contains => "ILIKE",
        FilterOp::StartsWith => "ILIKE",
        FilterOp::EndsWith => "ILIKE",
        FilterOp::In => "IN",
        FilterOp::NotIn => "NOT IN",
    }
}

proof fn lemma_values_view_push(vs: Seq<ScalarValue>, v: ScalarValue)
    ensures
        values_view(vs.push(v)) == values_view(vs).push(v@),
{
    assert(values_view(vs.push(v)) =~= values_view(vs).push(v@));
}

/// Whether every value in `vs` has scalar type `t`.
fn all_of_type(vs: &Vec<ScalarValue>, t: ScalarType) -> (r: bool)
    ensures
        r == forall|j: int| 0 <= j < vs@.len() ==> (#[trigger] vs@[j])@.kind() == t,
{
    let len = vs.len();
    let mut i: usize = 0;
    while i < len
        invariant
            len == vs@.len(),
            i <= len,
            forall|j: int| 0 <= j < i ==> (#[trigger] vs@[j])@.kind() == t,
        decreases len - i,
    {
        if vs[i].scalar_type() != t {
            assert(vs@[i as int]@.kind() != t);
            return false;
        }
        i = i + 1;
    }
    true
}

/// Appends one placeholder per value of `vs`, separated by commas and
/// numbered after the values already in `binds`, and binds the values.
fn push_value_list(sql: &mut String, binds: &mut Vec<ScalarValue>, vs: &Vec<ScalarValue>)
    ensures
        final(sql)@ == old(sql)@ + placeholder_list(old(binds)@.len() as nat, vs@.len()),
        values_view(final(binds)@) == values_view(old(binds)@) + values_view(vs@),
{
    let len = vs.len();
    let next = binds.len();
    let ghost n = next as nat;
    let ghost head = sql@;
    let mut k: usize = 0;
    while k < len
        invariant
            len == vs@.len(),
            k <= len,
            next == old(binds)@.len(),
            n == next as nat,
            head == old(sql)@,
            sql@ == head + placeholder_list(n, k as nat),
            values_view(binds@) == values_view(old(binds)@) + values_view(vs@.subrange(0, k as int)),
        decreases len - k,
    {
        if k > 0 {
            sql.append(", ");
        }
        push_placeholder(sql, next as u128 + k as u128 + 1);
        proof {
            let kk = (k + 1) as nat;
            assert(n + kk == (next as u128 + k as u128 + 1) as nat);
            if k == 0 {
                assert(placeholder_list(n, kk) == placeholder(n + 1));
                assert(sql@ =~= head + placeholder_list(n, kk));
            } else {
                assert(placeholder_list(n, kk) == placeholder_list(n, (kk - 1) as nat) + ", "@ + placeholder(n + kk));
                assert(sql@ =~= head + placeholder_list(n, kk));
            }
        }
        proof { lemma_values_view_push(binds@, vs@[k as int]); }
        binds.push(vs[k].duplicate());
        assert(values_view(vs@.subrange(0, k + 1)) =~= values_view(vs@.subrange(0, k as int)).push(vs@[k as int]@));
        assert(values_view(binds@) =~= values_view(old(binds)@) + values_view(vs@.subrange(0, k + 1)));
        k = k + 1;
    }
    assert(vs@.subrange(0, len as int) =~= vs@);
}

/// Appends the compiled form of one leaf predicate to `sql` and its values to
/// `binds`, numbering placeholders after the values already in `binds`.
#[verifier::rlimit(60)]
fn append_simple_filter(
    model: &ModelDef,
    sf: &FieldFilter,
    sql: &mut String,
    binds: &mut Vec<ScalarValue>,
) -> (r: Result<(), QueryError>)
    ensures
        match emit_simple(*model, *sf, old(binds)@.len()) {
            Ok(e) => r is Ok && final(sql)@ == old(sql)@ + e.0
                && values_view(final(binds)@) == values_view(old(binds)@) + e.1,
            Err(e) => r == Err::<(), QueryError>(e) && final(sql)@ == old(sql)@ && final(binds)@ == old(binds)@,
        },
{
    let field = match model.field(sf.field.as_str()) {
        None => return Err(QueryError::UnknownField),
        Some(f) => f,
    };
    if !field.is_filterable {
        return Err(QueryError::NotFilterable);
    }
    let t = match field.scalar {
        None => return Err(QueryError::TypeMismatch),
        Some(t) => t,
    };
    let next = binds.len();
    let ghost n = next as nat;
    let ghost pre = sql@;
    let ghost col = column_ref(*model, *field);
    match sf.op {
        FilterOp::Eq | FilterOp::Ne | FilterOp::Lt | FilterOp::Lte | FilterOp::Gt | FilterOp::Gte => {
            match &sf.value {
                FilterValue::One(v) => {
                    if v.scalar_type() != t {
                        return Err(QueryError::TypeMismatch);
                    }
                    sql.append(model.table.as_str());
                    sql.append(".");
                    sql.append(field.column.as_str());
                    sql.append(" ");
                    sql.append(op_text(sf.op));
                    sql.append(" ");
                    push_placeholder(sql, next as u128 + 1);
                    proof { lemma_values_view_push(binds@, *v); }
                    binds.push(v.duplicate());
                    assert(values_view(binds@) =~= values_view(old(binds)@) + seq![v@]);
                    assert(sql@ =~= pre + (col + " "@ + (op_symbol(sf.op) + " "@ + placeholder(n + 1))));
                    Ok(())
                },
                FilterValue::Many(_) => Err(QueryError::TypeMismatch),
            }
        },
        FilterOp::Contains | FilterOp::StartsWith | FilterOp::EndsWith => {
            match &sf.value {
                FilterValue::One(ScalarValue::String(s)) => {
                    if t != ScalarType::String {
                        return Err(QueryError::TypeMismatch);
                    }
                    let mut pat = String::new();
                    if sf.op != FilterOp::StartsWith {
                        pat.append("%");
                    }
                    pat.append(s.as_str());
                    if sf.op != FilterOp::EndsWith {
                        pat.append("%");
                    }
                    assert(pat@ =~= pattern_of(sf.op, s@));
                    sql.append(model.table.as_str());
                    sql.append(".");
                    sql.append(field.column.as_str());
                    sql.append(" ");
                    sql.append(op_text(sf.op));
                    sql.append(" ");
                    push_placeholder(sql, next as u128 + 1);
                    let b = ScalarValue::String(pat);
                    proof { lemma_values_view_push(binds@, b); }
                    binds.push(b);
                    assert(values_view(binds@) =~= values_view(old(binds)@) + seq![ValueView::Str(pattern_of(sf.op, s@))]);
                    assert(sql@ =~= pre + (col + " "@ + (op_symbol(sf.op) + " "@ + placeholder(n + 1))));
                    Ok(())
                },
                _ => Err(QueryError::TypeMismatch),
            }
        },
        FilterOp::In | FilterOp::NotIn => {
            match &sf.value {
                FilterValue::One(_) => Err(QueryError::TypeMismatch),
                FilterValue::Many(vs) => {
                    let len = vs.len();
                    if len == 0 {
                        return Err(QueryError::EmptyValueList);
                    }
                    if !all_of_type(vs, t) {
                        return Err(QueryError::TypeMismatch);
                    }
                    sql.append(model.table.as_str());
                    sql.append(".");
                    sql.append(field.column.as_str());
                    sql.append(" ");
                    sql.append(op_text(sf.op));
                    sql.append(" (");
                    push_value_list(sql, binds, vs);
                    sql.append(")");
                    assert(sql@ =~= pre + (col + " "@ + (op_symbol(sf.op) + " ("@ + placeholder_list(n, len as nat) + ")"@)));
                    Ok(())
                },
            }
        },
    }
}

proof fn lemma_items_err_prefix(m: ModelDef, items: Seq<LogicalFilter>, sep: Seq<char>, next: nat, j: int)
    requires
        0 <= j <= items.len(),
        emit_items(m, items.subrange(0, j), sep, next) is Err,
    ensures
        emit_items(m, items, sep, next) == emit_items(m, items.subrange(0, j), sep, next),
    decreases items.len(),
{
    if j < items.len() {
        assert(items.drop_last().subrange(0, j) =~= items.subrange(0, j));
        lemma_items_err_prefix(m, items.drop_last(), sep, next, j);
    } else {
        assert(items.subrange(0, j) =~= items);
    }
}

/// Appends the compiled form of a predicate tree to `sql` and its values to
/// `binds`, numbering placeholders after the values already in `binds`.
fn append_logical_filter(
    model: &ModelDef,
    lf: &LogicalFilter,
    sql: &mut String,
    binds: &mut Vec<ScalarValue>,
) -> (r: Result<(), QueryError>)
    ensures
        match emit(*model, *lf, old(binds)@.len()) {
            Ok(e) => r is Ok && final(sql)@ == old(sql)@ + e.0
                && values_view(final(binds)@) == values_view(old(binds)@) + e.1,
            Err(e) => r == Err::<(), QueryError>(e),
        },
    decreases lf,
{
    match lf {
        LogicalFilter::Simple(sf) => append_simple_filter(model, sf, sql, binds),
        LogicalFilter::And(list) => {
            if list.len() == 0 {
                return Err(QueryError::EmptyCombinator);
            }
            sql.append("(");
            let r = append_joined(model, list, " AND ", sql, binds);
            if r.is_err() {
                return r;
            }
            sql.append(")");
            assert(sql@ =~= old(sql)@ + emit(*model, *lf, old(binds)@.len())->Ok_0.0);
            Ok(())
        },
        LogicalFilter::Or(list) => {
            if list.len() == 0 {
                return Err(QueryError::EmptyCombinator);
            }
            sql.append("(");
            let r = append_joined(model, list, " OR ", sql, binds);
            if r.is_err() {
                return r;
            }
            sql.append(")");
            assert(sql@ =~= old(sql)@ + emit(*model, *lf, old(binds)@.len())->Ok_0.0);
            Ok(())
        },
        LogicalFilter::Not(inner) => {
            sql.append("NOT (");
            let r = append_logical_filter(model, inner, sql, binds);
            if r.is_err() {
                return r;
            }
            sql.append(")");
            assert(sql@ =~= old(sql)@ + emit(*model, *lf, old(binds)@.len())->Ok_0.0);
            Ok(())
        },
    }
}

/// Appends the compiled children of a combinator, separated by `sep`.
fn append_joined(
    model: &ModelDef,
    list: &Vec<LogicalFilter>,
    sep: &str,
    sql: &mut String,
    binds: &mut Vec<ScalarValue>,
) -> (r: Result<(), QueryError>)
    ensures
        match emit_items(*model, list@, sep@, old(binds)@.len()) {
            Ok(e) => r is Ok && final(sql)@ == old(sql)@ + e.0
                && values_view(final(binds)@) == values_view(old(binds)@) + e.1,
            Err(e) => r == Err::<(), QueryError>(e),
        },
    decreases list@,
{
    let len = list.len();
    let ghost base = old(binds)@.len() as nat;
    let mut i: usize = 0;
    assert(list@.subrange(0, 0) =~= Seq::<LogicalFilter>::empty());
    assert(sql@ =~= old(sql)@ + Seq::<char>::empty());
    assert(values_view(binds@) =~= values_view(old(binds)@) + Seq::<ValueView>::empty());
    while i < len
        invariant
            len == list@.len(),
            i <= len,
            base == old(binds)@.len(),
            emit_items(*model, list@.subrange(0, i as int), sep@, base) is Ok,
            sql@ == old(sql)@ + emit_items(*model, list@.subrange(0, i as int), sep@, base)->Ok_0.0,
            values_view(binds@) == values_view(old(binds)@)
                + emit_items(*model, list@.subrange(0, i as int), sep@, base)->Ok_0.1,
        decreases len - i,
    {
        let ghost prefix = list@.subrange(0, i as int);
        let ghost p = emit_items(*model, prefix, sep@, base)->Ok_0;
        let ghost longer = list@.subrange(0, i + 1);
        assert(longer.drop_last() =~= prefix);
        assert(longer.last() == list@[i as int]);
        let ghost mid = sql@;
        let ghost mid_binds = binds@;
        assert(binds@.len() == values_view(binds@).len());
        assert(binds@.len() == base + p.1.len());
        if i > 0 {
            sql.append(sep);
        }
        let r = append_logical_filter(model, &list[i], sql, binds);
        if r.is_err() {
            proof {
                lemma_items_err_prefix(*model, list@, sep@, base, i + 1);
            }
            return r;
        }
        proof {
            let q = emit(*model, list@[i as int], base + p.1.len())->Ok_0;
            if i == 0 {
                assert(sql@ =~= old(sql)@ + emit_items(*model, longer, sep@, base)->Ok_0.0);
            } else {
                assert(sql@ =~= old(sql)@ + emit_items(*model, longer, sep@, base)->Ok_0.0);
            }
            assert(values_view(binds@) =~= values_view(old(binds)@)
                + emit_items(*model, longer, sep@, base)->Ok_0.1);
        }
        i = i + 1;
    }
    assert(list@.subrange(0, len as int) =~= list@);
    Ok(())
}

/// Placeholders and bound values stay in lock-step: compiling any predicate
/// tree after `next` values were bound emits the placeholders
/// `$(next+1) .. $(next+k)` in that order, where `k` is the number of values
/// it binds, so placeholder `$i` stands for the bound value at index `i - 1`.
pub proof fn lemma_placeholders_follow_binds(m: ModelDef, lf: LogicalFilter, next: nat)
    ensures
        emit(m, lf, next) matches Ok(e) ==> e.2 == numbers_from(next, e.1.len()),
    decreases lf,
{
    match lf {
        LogicalFilter::Simple(ff) => {
            if let Ok(e) = emit(m, lf, next) {
                assert(e.2 =~= numbers_from(next, e.1.len()));
            }
        },
        LogicalFilter::And(list) => {
            lemma_items_placeholders_follow_binds(m, list@, " AND "@, next);
        },
        LogicalFilter::Or(list) => {
            lemma_items_placeholders_follow_binds(m, list@, " OR "@, next);
        },
        LogicalFilter::Not(inner) => {
            lemma_placeholders_follow_binds(m, *inner, next);
        },
    }
}

proof fn lemma_items_placeholders_follow_binds(m: ModelDef, items: Seq<LogicalFilter>, sep: Seq<char>, next: nat)
    ensures
        emit_items(m, items, sep, next) matches Ok(e) ==> e.2 == numbers_from(next, e.1.len()),
    decreases items,
{
    if items.len() == 0 {
        if let Ok(e) = emit_items(m, items, sep, next) {
            assert(e.2 =~= numbers_from(next, e.1.len()));
        }
    } else {
        lemma_items_placeholders_follow_binds(m, items.drop_last(), sep, next);
        if let Ok(p) = emit_items(m, items.drop_last(), sep, next) {
            lemma_placeholders_follow_binds(m, items.last(), next + p.1.len());
            if let Ok(q) = emit(m, items.last(), next + p.1.len()) {
                assert(p.2 + q.2 =~= numbers_from(next, p.1.len() + q.1.len()));
            }
        }
    }
}

/// Some leaf of `lf` names a field that `m` does not declare.
pub open spec fn unknown_field_in(m: ModelDef, lf: LogicalFilter) -> bool
    decreases lf,
{
    match lf {
        LogicalFilter::Simple(ff) => m.spec_field(ff.field@) is None,
        LogicalFilter::And(list) => unknown_field_in_items(m, list@),
        LogicalFilter::Or(list) => unknown_field_in_items(m, list@),
        LogicalFilter::Not(inner) => unknown_field_in(m, *inner),
    }
}

/// Some leaf of some of `items` names a field that `m` does not declare.
pub open spec fn unknown_field_in_items(m: ModelDef, items: Seq<LogicalFilter>) -> bool
    decreases items,
{
    if items.len() == 0 {
        false
    } else {
        unknown_field_in_items(m, items.drop_last()) || unknown_field_in(m, items.last())
    }
}

proof fn lemma_unknown_prefix(m: ModelDef, items: Seq<LogicalFilter>, j: int)
    requires
        0 <= j <= items.len(),
        unknown_field_in_items(m, items.subrange(0, j)),
    ensures
        unknown_field_in_items(m, items),
    decreases items.len(),
{
    if j < items.len() {
        assert(items.drop_last().subrange(0, j) =~= items.subrange(0, j));
        lemma_unknown_prefix(m, items.drop_last(), j);
    } else {
        assert(items.subrange(0, j) =~= items);
    }
}

/// Whether some leaf of `lf` names a field the model does not declare.
fn names_unknown_field(model: &ModelDef, lf: &LogicalFilter) -> (r: bool)
    ensures
        r == unknown_field_in(*model, *lf),
    decreases lf,
{
    match lf {
        LogicalFilter::Simple(sf) => model.field(sf.field.as_str()).is_none(),
        LogicalFilter::And(list) => any_names_unknown_field(model, list),
        LogicalFilter::Or(list) => any_names_unknown_field(model, list),
        LogicalFilter::Not(inner) => names_unknown_field(model, inner),
    }
}

fn any_names_unknown_field(model: &ModelDef, list: &Vec<LogicalFilter>) -> (r: bool)
    ensures
        r == unknown_field_in_items(*model, list@),
    decreases list@,
{
    let len = list.len();
    let mut i: usize = 0;
    assert(list@.subrange(0, 0) =~= Seq::<LogicalFilter>::empty());
    while i < len
        invariant
            len == list@.len(),
            i <= len,
            !unknown_field_in_items(*model, list@.subrange(0, i as int)),
        decreases len - i,
    {
        let ghost longer = list@.subrange(0, i + 1);
        assert(longer.drop_last() =~= list@.subrange(0, i as int));
        assert(longer.last() == list@[i as int]);
        if names_unknown_field(model, &list[i]) {
            proof { lemma_unknown_prefix(*model, list@, i + 1); }
            return true;
        }
        i = i + 1;
    }
    assert(list@.subrange(0, len as int) =~= list@);
    false
}

/// How many `$` characters `s` holds: in compiled text, the placeholders.
pub open spec fn dollar_count(s: Seq<char>) -> nat
    decreases s.len(),
{
    if s.len() == 0 {
        0
    } else {
        dollar_count(s.drop_last()) + if s.last() == '$' { 1nat } else { 0nat }
    }
}

pub open spec fn dollar_free(s: Seq<char>) -> bool {
    forall|i: int| 0 <= i < s.len() ==> s[i] != '$'
}

/// The model's table and column names hold no `$`, so every `$` in text
/// compiled against it starts a placeholder.
pub open spec fn names_dollar_free(m: ModelDef) -> bool {
    dollar_free(m.table@) && forall|i: int| 0 <= i < m.fields@.len() ==> dollar_free(#[trigger] m.fields@[i].column@)
}

proof fn lemma_dollar_count_add(a: Seq<char>, b: Seq<char>)
    ensures
        dollar_count(a + b) == dollar_count(a) + dollar_count(b),
    decreases b.len(),
{
    if b.len() == 0 {
        assert(a + b =~= a);
    } else {
        assert((a + b).drop_last() =~= a + b.drop_last());
        lemma_dollar_count_add(a, b.drop_last());
    }
}

proof fn lemma_dollar_free_count(s: Seq<char>)
    requires
        dollar_free(s),
    ensures
        dollar_count(s) == 0,
    decreases s.len(),
{
    if s.len() > 0 {
        lemma_dollar_free_count(s.drop_last());
    }
}

proof fn lemma_decimal_dollar_free(n: nat)
    ensures
        dollar_count(decimal(n)) == 0,
    decreases n,
{
    let d = decimal(n);
    if n >= 10 {
        lemma_decimal_dollar_free(n / 10);
        assert(d.drop_last() =~= decimal(n / 10));
        assert(d.last() == digit_char(n % 10));
        assert(digit_char(n % 10) != '$');
        assert(dollar_count(d) == dollar_count(d.drop_last()) + if d.last() == '$' { 1nat } else { 0nat });
    } else {
        assert(d.drop_last() =~= Seq::<char>::empty());
        assert(d.last() == digit_char(n));
        assert(digit_char(n) != '$');
        assert(dollar_count(d.drop_last()) == 0);
        assert(dollar_count(d) == dollar_count(d.drop_last()) + if d.last() == '$' { 1nat } else { 0nat });
    }
}

proof fn lemma_placeholder_count(n: nat)
    ensures
        dollar_count(placeholder(n)) == 1,
{
    reveal_strlit("$");
    assert("$"@ =~= seq!['$']);
    assert(seq!['$'].drop_last() =~= Seq::<char>::empty());
    assert(dollar_count(seq!['$'].drop_last()) == 0);
    assert(dollar_count(seq!['$']) == 1);
    lemma_decimal_dollar_free(n);
    lemma_dollar_count_add("$"@, decimal(n));
}

proof fn lemma_placeholder_list_count(next: nat, n: nat)
    ensures
        dollar_count(placeholder_list(next, n)) == n,
    decreases n,
{
    if n == 1 {
        lemma_placeholder_count(next + 1);
    } else if n > 1 {
        lemma_placeholder_list_count(next, (n - 1) as nat);
        reveal_strlit(", ");
        lemma_dollar_free_count(", "@);
        lemma_placeholder_count(next + n);
        lemma_dollar_count_add(placeholder_list(next, (n - 1) as nat), ", "@);
        lemma_dollar_count_add(placeholder_list(next, (n - 1) as nat) + ", "@, placeholder(next + n));
    }
}

proof fn lemma_literals_dollar_free()
    ensures
        dollar_count("."@) == 0,
        dollar_count(" "@) == 0,
        dollar_count(" ("@) == 0,
        dollar_count(")"@) == 0,
        dollar_count("("@) == 0,
        dollar_count("NOT ("@) == 0,
        dollar_count(" AND "@) == 0,
        dollar_count(" OR "@) == 0,
        forall|op: FilterOp| dollar_count(#[trigger] op_symbol(op)) == 0,
{
    reveal_strlit(".");
    reveal_strlit(" ");
    reveal_strlit(" (");
    reveal_strlit(")");
    reveal_strlit("(");
    reveal_strlit("NOT (");
    reveal_strlit(" AND ");
    reveal_strlit(" OR ");
    reveal_strlit("=");
    reveal_strlit("!=");
    reveal_strlit("<");
    reveal_strlit("<=");
    reveal_strlit(">");
    reveal_strlit(">=");
    reveal_strlit("ILIKE");
    reveal_strlit("IN");
    reveal_strlit("NOT IN");
    lemma_dollar_free_count("."@);
    lemma_dollar_free_count(" "@);
    lemma_dollar_free_count(" ("@);
    lemma_dollar_free_count(")"@);
    lemma_dollar_free_count("("@);
    lemma_dollar_free_count("NOT ("@);
    lemma_dollar_free_count(" AND "@);
    lemma_dollar_free_count(" OR "@);
    lemma_dollar_free_count("="@);
    lemma_dollar_free_count("!="@);
    lemma_dollar_free_count("<"@);
    lemma_dollar_free_count("<="@);
    lemma_dollar_free_count(">"@);
    lemma_dollar_free_count(">="@);
    lemma_dollar_free_count("ILIKE"@);
    lemma_dollar_free_count("IN"@);
    lemma_dollar_free_count("NOT IN"@);
}

proof fn lemma_first_named_member(fields: Seq<FieldDef>, name: Seq<char>)
    requires
        first_named(fields, name) is Some,
    ensures
        exists|k: int| 0 <= k < fields.len() && fields[k] == first_named(fields, name)->0,
    decreases fields.len(),
{
    if fields[0].name@ != name {
        lemma_first_named_member(fields.drop_first(), name);
        let k = choose|k: int| 0 <= k < fields.drop_first().len() && fields.drop_first()[k] == first_named(fields.drop_first(), name)->0;
        assert(fields[k + 1] == first_named(fields, name)->0);
    } else {
        assert(fields[0] == first_named(fields, name)->0);
    }
}

/// In the text compiled from any predicate tree against a model whose table
/// and column names hold no `$`, the number of placeholders equals the
/// number of values bound.
pub proof fn lemma_placeholder_count_matches_binds(m: ModelDef, lf: LogicalFilter, next: nat)
    requires
        names_dollar_free(m),
    ensures
        emit(m, lf, next) matches Ok(e) ==> dollar_count(e.0) == e.1.len(),
    decreases lf,
{
    lemma_literals_dollar_free();
    match lf {
        LogicalFilter::Simple(ff) => {
            if let Ok(e) = emit(m, lf, next) {
                let f = m.spec_field(ff.field@)->0;
                lemma_first_named_member(m.fields@, ff.field@);
                let k = choose|k: int| 0 <= k < m.fields@.len() && m.fields@[k] == f;
                assert(dollar_free(m.fields@[k].column@));
                lemma_dollar_free_count(m.table@);
                lemma_dollar_free_count(f.column@);
                lemma_dollar_count_add(m.table@, "."@);
                lemma_dollar_count_add(m.table@ + "."@, f.column@);
                lemma_dollar_count_add(column_ref(m, f), " "@);
                let rhs = emit_rhs(ff.op, ff.value, f.scalar->0, next)->Ok_0;
                lemma_dollar_count_add(column_ref(m, f) + " "@, rhs.0);
                lemma_dollar_count_add(op_symbol(ff.op), " "@);
                lemma_dollar_count_add(op_symbol(ff.op), " ("@);
                if is_comparison(ff.op) || is_pattern(ff.op) {
                    lemma_placeholder_count(next + 1);
                    lemma_dollar_count_add(op_symbol(ff.op) + " "@, placeholder(next + 1));
                } else {
                    let n = rhs.1.len();
                    lemma_placeholder_list_count(next, n);
                    lemma_dollar_count_add(op_symbol(ff.op) + " ("@, placeholder_list(next, n));
                    lemma_dollar_count_add(op_symbol(ff.op) + " ("@ + placeholder_list(next, n), ")"@);
                }
            }
        },
        LogicalFilter::And(list) => {
            lemma_items_placeholder_count(m, list@, " AND "@, next);
            if let Ok(e) = emit(m, lf, next) {
                let i = emit_items(m, list@, " AND "@, next)->Ok_0;
                lemma_dollar_count_add("("@, i.0);
                lemma_dollar_count_add("("@ + i.0, ")"@);
            }
        },
        LogicalFilter::Or(list) => {
            lemma_items_placeholder_count(m, list@, " OR "@, next);
            if let Ok(e) = emit(m, lf, next) {
                let i = emit_items(m, list@, " OR "@, next)->Ok_0;
                lemma_dollar_count_add("("@, i.0);
                lemma_dollar_count_add("("@ + i.0, ")"@);
            }
        },
        LogicalFilter::Not(inner) => {
            lemma_placeholder_count_matches_binds(m, *inner, next);
            if let Ok(e) = emit(m, lf, next) {
                let i = emit(m, *inner, next)->Ok_0;
                lemma_dollar_count_add("NOT ("@, i.0);
                lemma_dollar_count_add("NOT ("@ + i.0, ")"@);
            }
        },
    }
}

proof fn lemma_items_placeholder_count(m: ModelDef, items: Seq<LogicalFilter>, sep: Seq<char>, next: nat)
    requires
        names_dollar_free(m),
        dollar_count(sep) == 0,
    ensures
        emit_items(m, items, sep, next) matches Ok(e) ==> dollar_count(e.0) == e.1.len(),
    decreases items,
{
    if items.len() > 0 {
        lemma_items_placeholder_count(m, items.drop_last(), sep, next);
        if let Ok(p) = emit_items(m, items.drop_last(), sep, next) {
            lemma_placeholder_count_matches_binds(m, items.last(), next + p.1.len());
            if let Ok(q) = emit(m, items.last(), next + p.1.len()) {
                lemma_dollar_count_add(p.0, sep);
                lemma_dollar_count_add(p.0 + sep, q.0);
            }
        }
    }
}

/// A substring filter on a filterable string field compiles to a
/// case-insensitive `ILIKE` against one placeholder, bound to the literal
/// wrapped in `%` on both sides, never to text inside the SQL.
pub proof fn lemma_contains_is_ilike(m: ModelDef, ff: FieldFilter, s: String, next: nat)
    requires
        ff.op == FilterOp::Contains,
        ff.value == FilterValue::One(ScalarValue::String(s)),
        m.spec_field(ff.field@) is Some,
        m.spec_field(ff.field@)->0.is_filterable,
        m.spec_field(ff.field@)->0.scalar == Some(ScalarType::String),
    ensures
        emit_simple(m, ff, next) == Ok::<Emission, QueryError>((
            column_ref(m, m.spec_field(ff.field@)->0) + " "@ + ("ILIKE"@ + " "@ + placeholder(next + 1)),
            seq![ValueView::Str("%"@ + s@ + "%"@)],
            seq![next + 1],
        )),
{
}

/// Whether a predicate tree compiles, its error if not, and the values it
/// binds if so, do not depend on how many values were bound before it.
pub proof fn lemma_emit_independent_of_next(m: ModelDef, lf: LogicalFilter, a: nat, b: nat)
    ensures
        emit(m, lf, a) is Ok <==> emit(m, lf, b) is Ok,
        emit(m, lf, a) is Err ==> emit(m, lf, a) == emit(m, lf, b),
        emit(m, lf, a) is Ok ==> emit(m, lf, a)->Ok_0.1 == emit(m, lf, b)->Ok_0.1,
    decreases lf,
{
    match lf {
        LogicalFilter::Simple(ff) => {},
        LogicalFilter::And(list) => {
            lemma_items_independent_of_next(m, list@, " AND "@, a, b);
        },
        LogicalFilter::Or(list) => {
            lemma_items_independent_of_next(m, list@, " OR "@, a, b);
        },
        LogicalFilter::Not(inner) => {
            lemma_emit_independent_of_next(m, *inner, a, b);
        },
    }
}

proof fn lemma_items_independent_of_next(m: ModelDef, items: Seq<LogicalFilter>, sep: Seq<char>, a: nat, b: nat)
    ensures
        emit_items(m, items, sep, a) is Ok <==> emit_items(m, items, sep, b) is Ok,
        emit_items(m, items, sep, a) is Err ==> emit_items(m, items, sep, a) == emit_items(m, items, sep, b),
        emit_items(m, items, sep, a) is Ok ==> emit_items(m, items, sep, a)->Ok_0.1 == emit_items(m, items, sep, b)->Ok_0.1,
    decreases items,
{
    if items.len() > 0 {
        lemma_items_independent_of_next(m, items.drop_last(), sep, a, b);
        if let Ok(p) = emit_items(m, items.drop_last(), sep, a) {
            let q = emit_items(m, items.drop_last(), sep, b)->Ok_0;
            lemma_emit_independent_of_next(m, items.last(), a + p.1.len(), b + q.1.len());
        }
    }
}

/// A compiled statement: SQL text with positional placeholders, and the
/// values to bind to them in order.
#[derive(Clone, Debug, PartialEq)]
pub struct BuiltQuery {
    pub sql: String,
    pub bind_values: Vec<ScalarValue>,
}

/// How many of `fields` carry a scalar type.
pub open spec fn scalar_count(fields: Seq<FieldDef>) -> nat
    decreases fields.len(),
{
    if fields.len() == 0 {
        0
    } else {
        scalar_count(fields.drop_last()) + if fields.last().scalar is Some { 1nat } else { 0nat }
    }
}

/// `table.column AS name`.
pub open spec fn select_item(m: ModelDef, f: FieldDef) -> Seq<char> {
    column_ref(m, f) + " AS "@ + f.name@
}

/// The select list: one item per field that carries a scalar type, in
/// declaration order, separated by commas.
pub open spec fn projection(m: ModelDef, fields: Seq<FieldDef>) -> Seq<char>
    decreases fields.len(),
{
    if fields.len() == 0 {
        Seq::empty()
    } else if fields.last().scalar is None {
        projection(m, fields.drop_last())
    } else if scalar_count(fields.drop_last()) == 0 {
        select_item(m, fields.last())
    } else {
        projection(m, fields.drop_last()) + ", "@ + select_item(m, fields.last())
    }
}

pub open spec fn direction_text(d: OrderDirection) -> Seq<char> {
    match d {
        OrderDirection::Asc => "ASC"@,
        OrderDirection::Desc => "DESC"@,
    }
}

/// One ordering key: `table.column ASC|DESC`, through the schema's column.
pub open spec fn order_item(m: ModelDef, ob: OrderBy) -> Result<Seq<char>, QueryError> {
    match m.spec_field(ob.field@) {
        None => Err(QueryError::UnknownField),
        Some(f) => if !f.is_sortable {
            Err(QueryError::NotSortable)
        } else {
            Ok(column_ref(m, f) + " "@ + direction_text(ob.direction))
        },
    }
}

/// The ordering keys separated by commas; the first error in order, if any.
pub open spec fn order_list(m: ModelDef, obs: Seq<OrderBy>) -> Result<Seq<char>, QueryError>
    decreases obs.len(),
{
    if obs.len() == 0 {
        Ok(Seq::empty())
    } else {
        match order_list(m, obs.drop_last()) {
            Err(e) => Err(e),
            Ok(prev) => match order_item(m, obs.last()) {
                Err(e) => Err(e),
                Ok(it) => Ok(if obs.len() == 1 { it } else { prev + ", "@ + it }),
            },
        }
    }
}

pub open spec fn page_ok(page: Option<Page>) -> bool {
    page matches Some(p) ==> p.limit >= 0 && p.offset >= 0
}

pub open spec fn page_sql(page: Option<Page>) -> Seq<char> {
    match page {
        None => Seq::empty(),
        Some(p) => " LIMIT "@ + decimal(p.limit as nat) + " OFFSET "@ + decimal(p.offset as nat),
    }
}

/// The `WHERE` clause of a statement and its values.
pub open spec fn where_clause(m: ModelDef, filter: Option<LogicalFilter>) -> Result<Emission, QueryError> {
    match filter {
        None => Ok((Seq::empty(), Seq::empty(), Seq::empty())),
        Some(f) => if unknown_field_in(m, f) {
            Err(QueryError::UnknownField)
        } else {
            match emit(m, f, 0) {
                Ok(e) => Ok((" WHERE "@ + e.0, e.1, e.2)),
                Err(e) => Err(e),
            }
        },
    }
}

pub open spec fn order_clause(m: ModelDef, obs: Seq<OrderBy>) -> Result<Seq<char>, QueryError> {
    if obs.len() == 0 {
        Ok(Seq::empty())
    } else {
        match order_list(m, obs) {
            Ok(o) => Ok(" ORDER BY "@ + o),
            Err(e) => Err(e),
        }
    }
}

/// The statement selecting from `m`: its text and bound values, or the
/// first error: a negative page, then a field the filter names that the
/// model lacks, then the filter's other errors, then the ordering's.
pub open spec fn select_sql(m: ModelDef, filter: Option<LogicalFilter>, obs: Seq<OrderBy>, page: Option<Page>) -> Result<(Seq<char>, Seq<ValueView>), QueryError> {
    if !page_ok(page) {
        Err(QueryError::NegativePage)
    } else {
        match where_clause(m, filter) {
            Err(e) => Err(e),
            Ok(w) => match order_clause(m, obs) {
                Err(e) => Err(e),
                Ok(o) => Ok((
                    "SELECT "@ + projection(m, m.fields@) + " FROM "@ + m.table@ + w.0 + o + page_sql(page),
                    w.1,
                )),
            },
        }
    }
}

pub open spec fn deref_filter(filter: Option<&LogicalFilter>) -> Option<LogicalFilter> {
    match filter {
        Some(f) => Some(*f),
        None => None,
    }
}

proof fn lemma_projection_empty(m: ModelDef, fields: Seq<FieldDef>)
    requires
        scalar_count(fields) == 0,
    ensures
        projection(m, fields) == Seq::<char>::empty(),
    decreases fields.len(),
{
    if fields.len() > 0 {
        lemma_projection_empty(m, fields.drop_last());
    }
}

/// An ordering key on a field the model lacks, or on one that is not
/// sortable, fails the whole statement with no SQL; on a sortable field it
/// orders by the field's storage column, never by its logical name.
pub proof fn lemma_order_key_uses_column(m: ModelDef, filter: Option<LogicalFilter>, ob: OrderBy, page: Option<Page>)
    requires
        page_ok(page),
        where_clause(m, filter) is Ok,
    ensures
        m.spec_field(ob.field@) is None ==> select_sql(m, filter, seq![ob], page)
            == Err::<(Seq<char>, Seq<ValueView>), QueryError>(QueryError::UnknownField),
        (m.spec_field(ob.field@) matches Some(f) && !f.is_sortable) ==> select_sql(m, filter, seq![ob], page)
            == Err::<(Seq<char>, Seq<ValueView>), QueryError>(QueryError::NotSortable),
        m.spec_field(ob.field@) is Some && m.spec_field(ob.field@)->0.is_sortable ==> order_clause(m, seq![ob])
            == Ok::<Seq<char>, QueryError>(" ORDER BY "@ + (m.table@ + "."@ + m.spec_field(ob.field@)->0.column@ + " "@
                + direction_text(ob.direction))),
{
    assert(seq![ob].drop_last() =~= Seq::<OrderBy>::empty());
    assert(seq![ob].last() == ob);
    assert(order_list(m, seq![ob].drop_last()) == Ok::<Seq<char>, QueryError>(Seq::empty()));
    assert(order_list(m, seq![ob]) == order_item(m, ob));
}

fn push_projection(model: &ModelDef, sql: &mut String)
    ensures
        final(sql)@ == old(sql)@ + projection(*model, model.fields@),
{
    let len = model.fields.len();
    let mut wrote = false;
    let mut i: usize = 0;
    while i < len
        invariant
            len == model.fields@.len(),
            i <= len,
            wrote == (scalar_count(model.fields@.subrange(0, i as int)) > 0),
            sql@ == old(sql)@ + projection(*model, model.fields@.subrange(0, i as int)),
        decreases len - i,
    {
        let ghost prefix = model.fields@.subrange(0, i as int);
        let ghost longer = model.fields@.subrange(0, i + 1);
        assert(longer.drop_last() =~= prefix);
        assert(longer.last() == model.fields@[i as int]);
        let f = &model.fields[i];
        let ghost pre = sql@;
        if f.scalar.is_some() {
            assert(scalar_count(longer) > 0);
            if wrote {
                assert(projection(*model, longer) == projection(*model, prefix) + ", "@ + select_item(*model, *f));
                sql.append(", ");
            }
            sql.append(model.table.as_str());
            sql.append(".");
            sql.append(f.column.as_str());
            sql.append(" AS ");
            sql.append(f.name.as_str());
            if wrote {
                assert(sql@ =~= pre + (", "@ + select_item(*model, *f)));
            } else {
                assert(projection(*model, longer) == select_item(*model, *f));
                proof { lemma_projection_empty(*model, prefix); }
                assert(sql@ =~= pre + select_item(*model, *f));
            }
            wrote = true;
            assert(sql@ =~= old(sql)@ + projection(*model, longer));
        }
        i = i + 1;
    }
    assert(model.fields@.subrange(0, len as int) =~= model.fields@);
}

proof fn lemma_order_err_prefix(m: ModelDef, obs: Seq<OrderBy>, j: int)
    requires
        0 <= j <= obs.len(),
        order_list(m, obs.subrange(0, j)) is Err,
    ensures
        order_list(m, obs) == order_list(m, obs.subrange(0, j)),
    decreases obs.len(),
{
    if j < obs.len() {
        assert(obs.drop_last().subrange(0, j) =~= obs.subrange(0, j));
        lemma_order_err_prefix(m, obs.drop_last(), j);
    } else {
        assert(obs.subrange(0, j) =~= obs);
    }
}

fn push_order_list(model: &ModelDef, order_by: &[OrderBy], sql: &mut String) -> (r: Result<(), QueryError>)
    ensures
        match order_list(*model, order_by@) {
            Ok(o) => r is Ok && final(sql)@ == old(sql)@ + o,
            Err(e) => r == Err::<(), QueryError>(e),
        },
{
    let len = order_by.len();
    let mut i: usize = 0;
    assert(order_by@.subrange(0, 0) =~= Seq::<OrderBy>::empty());
    assert(sql@ =~= old(sql)@ + Seq::<char>::empty());
    while i < len
        invariant
            len == order_by@.len(),
            i <= len,
            order_list(*model, order_by@.subrange(0, i as int)) is Ok,
            sql@ == old(sql)@ + order_list(*model, order_by@.subrange(0, i as int))->Ok_0,
        decreases len - i,
    {
        let ghost prefix = order_by@.subrange(0, i as int);
        let ghost longer = order_by@.subrange(0, i + 1);
        assert(longer.drop_last() =~= prefix);
        assert(longer.last() == order_by@[i as int]);
        let ob = &order_by[i];
        let field = match model.field(ob.field.as_str()) {
            None => {
                proof { lemma_order_err_prefix(*model, order_by@, i + 1); }
                return Err(QueryError::UnknownField);
            },
            Some(f) => f,
        };
        if !field.is_sortable {
            proof { lemma_order_err_prefix(*model, order_by@, i + 1); }
            return Err(QueryError::NotSortable);
        }
        if i > 0 {
            sql.append(", ");
        }
        sql.append(model.table.as_str());
        sql.append(".");
        sql.append(field.column.as_str());
        sql.append(" ");
        match ob.direction {
            OrderDirection::Asc => sql.append("ASC"),
            OrderDirection::Desc => sql.append("DESC"),
        }
        assert(sql@ =~= old(sql)@ + order_list(*model, longer)->Ok_0);
        i = i + 1;
    }
    assert(order_by@.subrange(0, len as int) =~= order_by@);
    Ok(())
}

/// Compiles a select over `model`: every scalar field projected as
/// `table.column AS name`, the filter as a `WHERE` clause whose values are
/// bound through placeholders, the ordering keys, and the page as literal
/// `LIMIT`/`OFFSET`. Fails, emitting nothing, on a negative page, an invalid
/// filter or an invalid ordering key.
pub fn build_select(
    model: &ModelDef,
    filter: Option<&LogicalFilter>,
    order_by: &[OrderBy],
    page: Option<Page>,
) -> (r: Result<BuiltQuery, QueryError>)
    ensures
        match select_sql(*model, deref_filter(filter), order_by@, page) {
            Ok(q) => r matches Ok(b) && b.sql@ == q.0 && values_view(b.bind_values@) == q.1,
            Err(e) => r == Err::<BuiltQuery, QueryError>(e),
        },
        page_ok(page) && (filter matches Some(f) && unknown_field_in(*model, *f))
            ==> r == Err::<BuiltQuery, QueryError>(QueryError::UnknownField),
{
    if let Some(p) = page {
        if p.limit < 0 || p.offset < 0 {
            return Err(QueryError::NegativePage);
        }
    }
    let mut sql = String::new();
    let mut binds: Vec<ScalarValue> = Vec::new();
    sql.append("SELECT ");
    push_projection(model, &mut sql);
    sql.append(" FROM ");
    sql.append(model.table.as_str());
    let ghost head = sql@;
    if let Some(f) = filter {
        if names_unknown_field(model, f) {
            return Err(QueryError::UnknownField);
        }
        sql.append(" WHERE ");
        let res = append_logical_filter(model, f, &mut sql, &mut binds);
        if let Err(e) = res {
            return Err(e);
        }
    }
    let ghost w = where_clause(*model, deref_filter(filter))->Ok_0;
    assert(sql@ =~= head + w.0);
    assert(values_view(binds@) =~= w.1);
    if order_by.len() > 0 {
        sql.append(" ORDER BY ");
        let res = push_order_list(model, order_by, &mut sql);
        if let Err(e) = res {
            return Err(e);
        }
    }
    let ghost o = order_clause(*model, order_by@)->Ok_0;
    assert(sql@ =~= head + w.0 + o);
    if let Some(p) = page {
        sql.append(" LIMIT ");
        push_decimal(&mut sql, p.limit as u128);
        sql.append(" OFFSET ");
        push_decimal(&mut sql, p.offset as u128);
    }
    assert(sql@ =~= select_sql(*model, deref_filter(filter), order_by@, page)->Ok_0.0);
    Ok(BuiltQuery { sql, bind_values: binds })
}

} // verus!
