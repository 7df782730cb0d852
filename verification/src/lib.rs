//! Metrics as rows of wide tables in GreptimeDB.
//!
//! A metric becomes one row: a time index, its tags, and the fields of its value. Tags that are
//! listed, or that a pattern selects, stay tags; any other tag that is a number becomes a field
//! of its own. A batch of metrics is sorted by database, and one request goes to each.
//!
//! What a template renders to, and making a metric absolute, is up to the one who calls; the
//! library is handed the results.
pub mod config;
pub mod laws;
pub mod metric;
pub mod model;
pub mod number;
pub mod pattern;
pub mod request_builder;
pub mod row;
pub mod sink;
pub mod template;
pub mod timestamp;
pub mod wide;
