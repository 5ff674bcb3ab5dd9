//! Reads time series from a metrics backend as relational rows: a template
//! lexer, a compiler that binds placeholders to pushed-down predicates, and a
//! cursor that projects backend samples onto the requested columns.

pub mod error;
pub mod fdw;
pub mod query;
pub mod strings;
pub mod utils;
