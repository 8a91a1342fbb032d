//! Build-time SQL query-binding generator.
//!
//! Given a `SELECT` query text and a binding request (a client handle
//! expression, the SQL text, and ordered bound-parameter expressions), the
//! crate derives the query's ordered projection field list and emits source
//! text that runs the query and constructs one record per returned row,
//! mapping row columns to record fields by projection order.

pub mod analyze;
pub mod generate;
pub mod preprocess;
pub mod request;
pub mod text;
