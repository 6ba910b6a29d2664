//! Read-only decoder for the single-file page format used by SQLite.
//!
//! The crate turns raw database bytes into typed structures: variable-length
//! integers, page headers, cell records with their column values, and the
//! schema catalog on page 1, plus a row counter that walks a table's b-tree.
//! Every decoder is total over arbitrary input bytes: malformed input yields
//! a [`error::DbError`], never a panic.

pub mod bytes;
pub mod command;
pub mod count;
pub mod error;
pub mod header;
pub mod page;
pub mod record;
pub mod schema;
pub mod serial;
pub mod utf8;
pub mod value;
pub mod varint;
