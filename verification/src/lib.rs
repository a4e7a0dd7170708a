//! A paged virtual file store: file-like views over independently growable
//! regions of one stable memory, for an embedded SQL engine to use as its disk.
//!
//! From the bottom up: `memory` holds the bytes, `page_store` reads and writes
//! regions that grow by whole pages, `allocator` hands the regions out, `mount`
//! ties paths to regions, `file_table` answers file operations, `adapter` is
//! what the engine calls, and `context` sets all of it up at start and again at
//! restart. `endpoint` and `text` decide what the canister's endpoints run and
//! answer.

pub mod adapter;
pub mod allocator;
pub mod context;
pub mod endpoint;
pub mod error;
pub mod file_table;
pub mod memory;
pub mod mount;
pub mod page_store;
pub mod text;
