//! A registry of named object-storage backends bound to an embedded SQL engine,
//! with a typed bridge between columnar result batches and row values.
//!
//! Nothing here waits or reads: statements are run, and files are read and
//! written, by the caller. This crate decides what is registered where, what
//! a batch decodes to, and where an export lands.

pub mod batch;
pub mod ck;
pub mod config;
pub mod engine;
pub mod error;
pub mod export;
pub mod keyed;
pub mod kv_schema;
pub mod pool;
pub mod row;
pub mod schema;
pub mod storage;
pub mod text;
