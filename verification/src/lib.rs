//! The namespace calls of a Lance client that is driven from C: what each call sends, what it
//! makes of the reply, and how the outcome is handed back through status codes, out-parameters
//! and the last-error slot.

pub mod arrow_schema;
pub mod call;
pub mod error;
pub mod exports;
pub mod json;
pub mod list_tables;
pub mod requests;
pub mod schema;
pub mod tables;
pub mod text;
pub mod tsv;
