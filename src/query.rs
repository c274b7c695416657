use vstd::prelude::*;

use crate::model::ScalarType;

verus! {

/// A literal compared against a field. Identifiers are held as their 128-bit
/// value, floats as their IEEE-754 bit pattern, date-times as microseconds
/// since the Unix epoch (UTC), and JSON documents as their serialized text.
#[derive(Clone, Debug, PartialEq)]
pub enum ScalarValue {
    Id(u128),
    String(String),
    Int(i64),
    Float(u64),
    Bool(bool),
    DateTime(i64),
    Json(String),
}

/// The mathematical content of a `ScalarValue`.
pub enum ValueView {
    Id(u128),
    Str(Seq<char>),
    Int(i64),
    Float(u64),
    Bool(bool),
    DateTime(i64),
    Json(Seq<char>),
}

impl ValueView {
    pub open spec fn kind(self) -> ScalarType {
        match self {
            ValueView::Id(_) => ScalarType::Id,
            ValueView::Str(_) => ScalarType::String,
            ValueView::Int(_) => ScalarType::Int,
            ValueView::Float(_) => ScalarType::Float,
            ValueView::Bool(_) => ScalarType::Bool,
            ValueView::DateTime(_) => ScalarType::DateTime,
            ValueView::Json(_) => ScalarType::Json,
        }
    }
}

impl View for ScalarValue {
    type V = ValueView;

    open spec fn view(&self) -> ValueView {
        match self {
            ScalarValue::Id(u) => ValueView::Id(*u),
            ScalarValue::String(s) => ValueView::Str(s@),
            ScalarValue::Int(i) => ValueView::Int(*i),
            ScalarValue::Float(f) => ValueView::Float(*f),
            ScalarValue::Bool(b) => ValueView::Bool(*b),
            ScalarValue::DateTime(t) => ValueView::DateTime(*t),
            ScalarValue::Json(j) => ValueView::Json(j@),
        }
    }
}

/// The views of a sequence of values, in order.
pub open spec fn values_view(vs: Seq<ScalarValue>) -> Seq<ValueView> {
    vs.map_values(|v: ScalarValue| v@)
}

impl ScalarValue {
    /// The scalar type this value carries.
    pub fn scalar_type(&self) -> (r: ScalarType)
        ensures
            r == self@.kind(),
    {
        match self {
            ScalarValue::Id(_) => ScalarType::Id,
            ScalarValue::String(_) => ScalarType::String,
            ScalarValue::Int(_) => ScalarType::Int,
            ScalarValue::Float(_) => ScalarType::Float,
            ScalarValue::Bool(_) => ScalarType::Bool,
            ScalarValue::DateTime(_) => ScalarType::DateTime,
            ScalarValue::Json(_) => ScalarType::Json,
        }
    }

    /// An equal copy of the value.
    pub fn duplicate(&self) -> (r: ScalarValue)
        ensures
            r@ == self@,
    {
        match self {
            ScalarValue::Id(u) => ScalarValue::Id(*u),
            ScalarValue::String(s) => ScalarValue::String(s.clone()),
            ScalarValue::Int(i) => ScalarValue::Int(*i),
            ScalarValue::Float(f) => ScalarValue::Float(*f),
            ScalarValue::Bool(b) => ScalarValue::Bool(*b),
            ScalarValue::DateTime(t) => ScalarValue::DateTime(*t),
            ScalarValue::Json(j) => ScalarValue::Json(j.clone()),
        }
    }
}

#[derive(Clone, Copy, Debug, PartialEq, Eq, Structural)]
pub enum FilterOp {
    Eq,
    Ne,
    Lt,
    Lte,
    Gt,
    Gte,
    Contains,
    StartsWith,
    EndsWith,
    In,
    NotIn,
}

/// The right-hand side of a leaf predicate: one value for the comparison and
/// pattern operators, a non-empty list of values of one type for set
/// membership, which compiles to one placeholder per value
/// (`column IN ($1, $2, ...)`).
#[derive(Clone, Debug, PartialEq)]
pub enum FilterValue {
    One(ScalarValue),
    Many(Vec<ScalarValue>),
}

/// A leaf predicate: a field, an operator and the value(s) compared.
#[derive(Clone, Debug, PartialEq)]
pub struct FieldFilter {
    pub field: String,
    pub op: FilterOp,
    pub value: FilterValue,
}

/// A boolean predicate tree over leaf predicates.
#[derive(Debug)]
pub enum LogicalFilter {
    Simple(FieldFilter),
    And(Vec<LogicalFilter>),
    Or(Vec<LogicalFilter>),
    Not(Box<LogicalFilter>),
}

#[derive(Clone, Copy, Debug, PartialEq, Eq, Structural)]
pub enum OrderDirection {
    Asc,
    Desc,
}

#[derive(Clone, Debug, PartialEq)]
pub struct OrderBy {
    pub field: String,
    pub direction: OrderDirection,
}

#[derive(Clone, Copy, Debug, PartialEq, Eq, Structural)]
pub struct Page {
    pub limit: i64,
    pub offset: i64,
}

/// Why a request could not be compiled.
#[derive(Clone, Copy, Debug, PartialEq, Eq, Structural)]
pub enum QueryError {
    /// The named model is not in the catalog.
    UnknownModel,
    /// A filter or ordering names a field the model does not declare.
    UnknownField,
    /// A filter names a field that is not marked filterable.
    NotFilterable,
    /// An ordering names a field that is not marked sortable.
    NotSortable,
    /// A value does not match the field's scalar type or the operator's
    /// required kind of operand.
    TypeMismatch,
    /// An `And` or `Or` without children.
    EmptyCombinator,
    /// An `In` or `NotIn` with no values.
    EmptyValueList,
    /// A page with a negative limit or offset.
    NegativePage,
}

} // verus!
