//! A verified note/task repository over an embedded SQLite store.
//!
//! The crate covers the schema-migration engine, the note and kanban-state
//! repositories, free-text search with a substring fallback, and the bulk
//! operation executor. All store access goes through a small set of trusted
//! wrappers around `rusqlite`; everything above them is verified.

use vstd::prelude::*;

pub mod bulk;
pub mod chars;
pub mod db;
pub mod labels;
pub mod mcp;
pub mod migrations;
pub mod models;
pub mod notes;
pub mod search;
pub mod states;

verus! {

/// Smallest of two `i32` values; used to cap caller-supplied limits.
pub fn min_i32(a: i32, b: i32) -> (r: i32)
    ensures
        r == if a <= b { a } else { b },
{
    if a <= b {
        a
    } else {
        b
    }
}

} // verus!
