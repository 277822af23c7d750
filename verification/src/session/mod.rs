//! Session tracing: the on-the-wire schema, canonical payload hashing,
//! action completion folds, and the NDJSON reader's logic.

pub mod hash;
pub mod types;
pub mod partial;
pub mod reader;
pub mod member_order;
pub mod writer;
pub mod demo;
