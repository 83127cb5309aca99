//! Import-and-reconciliation pipeline for a semicolon-delimited schedule
//! export: a byte decoder that repairs embedded line breaks inside quoted
//! fields, a strict positional record parser, an in-memory event store with
//! purge-and-bulk-insert reconciliation, and a daily refresh scheduler.

pub mod auth;
pub mod ctx;
pub mod csv_parse;
pub mod datetime;
pub mod decode;
pub mod error;
pub mod event;
pub mod parse;
pub mod query;
pub mod reconcile;
pub mod schedule;
pub mod store;
pub mod text;
