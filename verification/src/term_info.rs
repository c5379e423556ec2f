//! The metadata that a dictionary keeps for each term.

use vstd::prelude::*;

verus! {

/// The position of a term in its dictionary: terms are numbered from zero in
/// ascending order of key.
pub type TermOrdinal = u64;

/// What a dictionary records about one term.
#[derive(Debug, Clone, Copy, PartialEq, Eq, Structural)]
pub struct TermInfo {
    /// Number of documents of the segment that contain the term.
    pub doc_freq: u32,
    /// Offset of the term's postings.
    pub postings_offset: u64,
    /// Offset of the term's positions.
    pub positions_offset: u64,
    /// Offset within the block of positions.
    pub positions_inner_offset: u8,
}

impl TermInfo {
    /// The record of a term about which nothing is known: every field is zero.
    pub open spec fn empty() -> TermInfo {
        TermInfo { doc_freq: 0, postings_offset: 0, positions_offset: 0, positions_inner_offset: 0 }
    }
}

impl Default for TermInfo {
    fn default() -> (info: TermInfo)
        ensures
            info == TermInfo::empty(),
    {
        TermInfo { doc_freq: 0, postings_offset: 0, positions_offset: 0, positions_inner_offset: 0 }
    }
}

} // verus!
