//! A resident's long-term memory entry about a player or another resident.

use vstd::prelude::*;

verus! {

/// One remembered thing.
#[derive(Debug, PartialEq)]
pub struct MemoryEntry {
    /// The resident who remembers.
    pub resident: String,
    /// Whom the memory is about.
    pub player: String,
    /// What is remembered.
    pub summary: String,
    /// Order of writing; larger is newer.
    pub seq: u64,
}

} // verus!
