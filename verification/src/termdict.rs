//! The term dictionary of a segment: a sorted map from term keys to
//! ordinals, with the metadata of each term.

use vstd::prelude::*;
use crate::fst_index::{map_entries, map_from_sorted, map_range};
use crate::range::{
    keys_ascending,
    lemma_select_range_unbounded,
    ordinals_dense,
    paired,
    ranked,
    Entry,
    KeyBound,
};
use crate::streamer::{CursorView, TermStreamer, TermStreamerBuilder};
use crate::term_info::{TermInfo, TermOrdinal};

verus! {

/// An immutable dictionary of terms. The terms are ordered by key, the
/// ordinal of a term is its rank in that order, and each term has a record of
/// metadata that is found by its ordinal.
pub struct TermDictionary {
    fst_index: fst::Map,
    term_infos: Vec<TermInfo>,
}

impl TermDictionary {
    /// The terms of the dictionary, each with its ordinal, in ascending order
    /// of key.
    pub closed spec fn entries(&self) -> Seq<Entry> {
        map_entries(self.fst_index)
    }

    /// The metadata of the terms, in the order of their ordinals.
    pub closed spec fn term_infos(&self) -> Seq<TermInfo> {
        self.term_infos@
    }

    /// What holds of every dictionary: keys ascend strictly, the ordinal of
    /// a term is its index, and every term has its metadata.
    pub open spec fn wf(&self) -> bool {
        &&& keys_ascending(self.entries())
        &&& ordinals_dense(self.entries())
        &&& self.term_infos().len() == self.entries().len()
    }

    /// Makes the dictionary of the given terms: `keys` holds their keys and
    /// `term_infos` the metadata of each, at the same index.
    ///
    /// The keys must come in strictly ascending order, byte by byte, and
    /// there must be as many records as keys; otherwise no dictionary is
    /// made. The ordinal of each term is its index.
    pub fn new(keys: &[Vec<u8>], term_infos: Vec<TermInfo>) -> (made: Option<TermDictionary>)
        ensures
            made is Some <==> keys_ascending(ranked(keys@)) && keys@.len() == term_infos@.len(),
            made matches Some(dictionary) ==> dictionary.wf() && dictionary.entries() == ranked(
                keys@,
            ) && dictionary.term_infos() == term_infos@,
    {
        if keys.len() != term_infos.len() {
            return None;
        }
        let ordinals = first_ordinals(keys.len());
        assert(paired(keys@, ordinals@) =~= ranked(keys@));
        match map_from_sorted(keys, ordinals.as_slice()) {
            Ok(fst_index) => Some(TermDictionary { fst_index, term_infos }),
            Err(_) => None,
        }
    }

    /// The number of terms in the dictionary.
    pub fn num_terms(&self) -> (count: usize)
        ensures
            count == self.term_infos().len(),
            self.wf() ==> count == self.entries().len(),
    {
        self.term_infos.len()
    }

    /// The metadata of the term with the given ordinal, which must be that
    /// of a term of the dictionary.
    pub fn term_info_from_ord(&self, term_ord: TermOrdinal) -> (info: TermInfo)
        requires
            term_ord < self.term_infos().len(),
        ensures
            info == self.term_infos()[term_ord as int],
    {
        let count = self.term_infos.len();
        assert(term_ord < count);
        self.term_infos[term_ord as usize]
    }

    /// A range of the terms of the dictionary, with no bound on either side
    /// yet.
    pub fn range(&self) -> (builder: TermStreamerBuilder<'_>)
        requires
            self.wf(),
        ensures
            builder.wf(),
            builder.dictionary() == *self,
            builder.lower() == KeyBound::Unbounded,
            builder.upper() == KeyBound::Unbounded,
    {
        TermStreamerBuilder::new(self, map_range(&self.fst_index))
    }

    /// A cursor over all the terms of the dictionary.
    pub fn stream(&self) -> (cursor: TermStreamer<'_>)
        requires
            self.wf(),
        ensures
            cursor.wf(),
            cursor@ == CursorView::start(
                self.entries(),
                self.term_infos(),
                KeyBound::Unbounded,
                KeyBound::Unbounded,
            ),
            cursor@.items() == self.entries(),
    {
        proof {
            lemma_select_range_unbounded(self.entries());
        }
        self.range().into_stream()
    }
}

/// The first `count` ordinals, in order.
fn first_ordinals(count: usize) -> (ordinals: Vec<TermOrdinal>)
    ensures
        ordinals@.len() == count,
        forall|i: int| 0 <= i < count ==> ordinals@[i] == i,
{
    let mut ordinals: Vec<TermOrdinal> = Vec::with_capacity(count);
    let mut next: usize = 0;
    while next < count
        invariant
            next <= count,
            ordinals@.len() == next,
            forall|i: int| 0 <= i < next ==> ordinals@[i] == i,
        decreases count - next,
    {
        ordinals.push(next as u64);
        next = next + 1;
    }
    ordinals
}

} // verus!
