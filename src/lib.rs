//! A metadata-driven data-access layer: a schema catalog, a typed filter
//! language, row-level scoping by caller identity, and a compiler from
//! filter, ordering and paging requests to parameterized SQL.

pub mod catalog;
pub mod config;
pub mod model;
pub mod query;
pub mod rbac;
pub mod request;
pub mod sql_builder;
pub mod text;

