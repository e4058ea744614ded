//! Search syntax: filter types, query parsing, and SQL generation.

pub mod filters;
pub mod parser;
pub mod query;
