//! Cursors over a range of the terms of a dictionary.
//!
//! A [`TermStreamerBuilder`] collects the bounds of the range; a
//! [`TermStreamer`] then walks the terms of the range in ascending order of
//! key. What a cursor does is stated over its model, [`CursorView`].

use vstd::prelude::*;
use crate::byte_order::{bytes_le, bytes_lt};
use crate::fst_index::{
    builder_ge,
    builder_gt,
    builder_into_stream,
    builder_le,
    builder_lower,
    builder_lt,
    builder_source,
    builder_upper,
    stream_next,
    stream_remaining,
    MapStream,
};
use crate::range::{
    bounds_crossed,
    in_range,
    keys_ascending,
    lemma_crossed_bounds_select_nothing,
    lemma_dense_ordinals_ascend,
    lemma_select_range_ascending,
    lemma_select_range_complete,
    lemma_select_range_members,
    lemma_select_range_none,
    ordinals_ascending,
    ordinals_dense,
    select_range,
    Entry,
    KeyBound,
};
use crate::term_info::{TermInfo, TermOrdinal};
use crate::termdict::TermDictionary;

verus! {

/// Where a cursor stands in its life.
pub enum CursorState {
    /// The cursor has not been advanced yet.
    Uninitialized,
    /// The last advance produced a term, which is the current one.
    Positioned,
    /// An advance found no further term.
    Exhausted,
}

/// The model of a cursor: the dictionary it reads, the range it was made
/// for, and how far it has come.
pub struct CursorView {
    /// The terms of the dictionary with their ordinals, in ascending order of
    /// key.
    pub entries: Seq<Entry>,
    /// The metadata of the terms of the dictionary, by ordinal.
    pub infos: Seq<TermInfo>,
    /// The lower bound of the range.
    pub lower: KeyBound,
    /// The upper bound of the range.
    pub upper: KeyBound,
    /// How many terms the cursor has produced.
    pub produced: nat,
    /// Whether an advance has found no further term.
    pub exhausted: bool,
}

impl CursorView {
    /// A cursor over the given range of a dictionary, before its first
    /// advance.
    pub open spec fn start(
        entries: Seq<Entry>,
        infos: Seq<TermInfo>,
        lower: KeyBound,
        upper: KeyBound,
    ) -> CursorView {
        CursorView { entries, infos, lower, upper, produced: 0, exhausted: false }
    }

    /// Every term that the cursor produces from its first advance to its
    /// last, in order: the terms of the dictionary that lie in the range.
    pub open spec fn items(self) -> Seq<Entry> {
        select_range(self.entries, self.lower, self.upper)
    }

    /// What holds of the model of every cursor.
    pub open spec fn wf(self) -> bool {
        &&& keys_ascending(self.entries)
        &&& ordinals_dense(self.entries)
        &&& self.infos.len() == self.entries.len()
        &&& self.produced <= self.items().len()
        &&& self.exhausted ==> self.produced == self.items().len()
    }

    /// The state of the cursor.
    pub open spec fn state(self) -> CursorState {
        if self.exhausted {
            CursorState::Exhausted
        } else if self.produced == 0 {
            CursorState::Uninitialized
        } else {
            CursorState::Positioned
        }
    }

    /// Whether a term is left for the next advance.
    pub open spec fn has_next(self) -> bool {
        self.produced < self.items().len()
    }

    /// The current key: that of the term produced last, empty before the
    /// first.
    pub open spec fn key(self) -> Seq<u8> {
        if self.produced == 0 {
            Seq::empty()
        } else {
            self.items()[self.produced - 1].0
        }
    }

    /// The current ordinal: that of the term produced last, zero before the
    /// first.
    pub open spec fn term_ord(self) -> TermOrdinal {
        if self.produced == 0 {
            0
        } else {
            self.items()[self.produced - 1].1
        }
    }

    /// The current metadata: that of the term produced last, the empty record
    /// before the first.
    pub open spec fn value(self) -> TermInfo {
        if self.produced == 0 {
            TermInfo::empty()
        } else {
            self.infos[self.term_ord() as int]
        }
    }

    /// The cursor after one more advance: on the next term if one is left,
    /// exhausted and otherwise unchanged if none is.
    pub open spec fn advanced(self) -> CursorView {
        if self.has_next() {
            CursorView { produced: self.produced + 1, ..self }
        } else {
            CursorView { exhausted: true, ..self }
        }
    }

    /// The cursor after `count` more advances.
    pub open spec fn advanced_by(self, count: nat) -> CursorView
        decreases count,
    {
        if count == 0 {
            self
        } else {
            self.advanced().advanced_by((count - 1) as nat)
        }
    }
}

/// The terms that a cursor produces from first to last come in strictly
/// ascending order of key and of ordinal.
pub proof fn lemma_items_ordered(view: CursorView)
    requires
        view.wf(),
    ensures
        keys_ascending(view.items()),
        ordinals_ascending(view.items()),
{
    lemma_dense_ordinals_ascend(view.entries);
    lemma_select_range_ascending(view.entries, view.lower, view.upper);
}

/// The terms that a cursor produces from first to last are the terms of
/// the dictionary whose key lies within the bounds: each of them is such a
/// term and stands in the dictionary at its ordinal, and no such term is
/// left out.
pub proof fn lemma_items_are_the_range(view: CursorView)
    requires
        view.wf(),
    ensures
        forall|i: int|
            0 <= i < view.items().len() ==> {
                let item = #[trigger] view.items()[i];
                &&& in_range(item.0, view.lower, view.upper)
                &&& item.1 < view.entries.len()
                &&& view.entries[item.1 as int] == item
            },
        forall|i: int|
            0 <= i < view.entries.len() && in_range(view.entries[i].0, view.lower, view.upper)
                ==> view.items().contains(#[trigger] view.entries[i]),
{
    lemma_select_range_members(view.entries, view.lower, view.upper);
    assert forall|i: int| 0 <= i < view.items().len() implies {
        let item = #[trigger] view.items()[i];
        item.1 < view.entries.len() && view.entries[item.1 as int] == item
    } by {
        let item = view.items()[i];
        let k = choose|k: int| 0 <= k < view.entries.len() && view.entries[k] == item;
        assert(view.entries[k].1 == k);
    }
    assert forall|i: int|
        0 <= i < view.entries.len() && in_range(
            view.entries[i].0,
            view.lower,
            view.upper,
        ) implies view.items().contains(#[trigger] view.entries[i]) by {
        lemma_select_range_complete(view.entries, view.lower, view.upper, i);
    }
}

/// Of two advances in a row that both produce a term, the second produces
/// the greater key and the greater ordinal.
pub proof fn lemma_advance_ascends(view: CursorView)
    requires
        view.wf(),
        view.state() == CursorState::Positioned,
        view.has_next(),
    ensures
        bytes_lt(view.key(), view.advanced().key()),
        view.term_ord() < view.advanced().term_ord(),
{
    lemma_items_ordered(view);
    let items = view.items();
    assert(bytes_lt(items[view.produced - 1].0, items[view.produced as int].0));
    assert(items[view.produced - 1].1 < items[view.produced as int].1);
}

/// The term on which a cursor stands is a term of the dictionary, and its
/// key lies within the bounds of the range: at or above an inclusive lower
/// bound, above an exclusive one, and likewise below the upper bound.
pub proof fn lemma_key_within_bounds(view: CursorView)
    requires
        view.wf(),
        view.produced > 0,
    ensures
        in_range(view.key(), view.lower, view.upper),
        view.lower matches KeyBound::Included(bound) ==> bytes_le(bound, view.key()),
        view.lower matches KeyBound::Excluded(bound) ==> bytes_lt(bound, view.key()),
        view.upper matches KeyBound::Included(bound) ==> bytes_le(view.key(), bound),
        view.upper matches KeyBound::Excluded(bound) ==> bytes_lt(view.key(), bound),
        view.term_ord() < view.entries.len(),
        view.entries[view.term_ord() as int] == (view.key(), view.term_ord()),
{
    lemma_items_are_the_range(view);
    let item = view.items()[view.produced - 1];
    assert(in_range(item.0, view.lower, view.upper));
}

/// Advancing a cursor `count` times produces the next `count` terms of its
/// range, one by one and without a gap, or all that are left if they are
/// fewer; the dictionary and the bounds stay as they are.
pub proof fn lemma_advanced_by_produces(view: CursorView, count: nat)
    requires
        view.wf(),
    ensures
        view.advanced_by(count).wf(),
        view.advanced_by(count).entries == view.entries,
        view.advanced_by(count).infos == view.infos,
        view.advanced_by(count).lower == view.lower,
        view.advanced_by(count).upper == view.upper,
        view.produced + count <= view.items().len() ==> view.advanced_by(count).produced
            == view.produced + count,
        view.produced + count > view.items().len() ==> view.advanced_by(count).produced
            == view.items().len() && view.advanced_by(count).exhausted,
    decreases count,
{
    if count > 0 {
        lemma_advanced_by_produces(view.advanced(), (count - 1) as nat);
    }
}

/// Once an advance has found nothing, the cursor stays as it is: however
/// often it is advanced again, it finds nothing, and its key, ordinal and
/// metadata remain those of the last term produced.
pub proof fn lemma_exhausted_stays(view: CursorView, count: nat)
    requires
        !view.has_next(),
    ensures
        !view.advanced_by(count).has_next(),
        view.advanced_by(count).produced == view.produced,
        view.advanced_by(count).key() == view.key(),
        view.advanced_by(count).term_ord() == view.term_ord(),
        view.advanced_by(count).value() == view.value(),
    decreases count,
{
    if count > 0 {
        lemma_exhausted_stays(view.advanced(), (count - 1) as nat);
    }
}

/// A cursor over a range in which no term of the dictionary lies never
/// produces anything: its first advance finds nothing, and so does every
/// later one, while the key stays empty and the metadata the empty record.
pub proof fn lemma_empty_range_produces_nothing(view: CursorView, count: nat)
    requires
        view.produced == 0,
        forall|i: int|
            0 <= i < view.entries.len() ==> !in_range(
                (#[trigger] view.entries[i]).0,
                view.lower,
                view.upper,
            ),
    ensures
        !view.has_next(),
        !view.advanced_by(count).has_next(),
        view.advanced_by(count).produced == 0,
        view.advanced_by(count).key() == Seq::<u8>::empty(),
        view.advanced_by(count).value() == TermInfo::empty(),
{
    lemma_select_range_none(view.entries, view.lower, view.upper);
    lemma_exhausted_stays(view, count);
}

/// A cursor whose lower bound lies above its upper bound never produces
/// anything, whatever the dictionary holds.
pub proof fn lemma_crossed_bounds_produce_nothing(view: CursorView, count: nat)
    requires
        view.produced == 0,
        bounds_crossed(view.lower, view.upper),
    ensures
        !view.has_next(),
        !view.advanced_by(count).has_next(),
        view.advanced_by(count).produced == 0,
        view.advanced_by(count).key() == Seq::<u8>::empty(),
        view.advanced_by(count).value() == TermInfo::empty(),
{
    lemma_crossed_bounds_select_nothing(view.entries, view.lower, view.upper);
    lemma_exhausted_stays(view, count);
}

/// A range of terms that is being defined, before the cursor is made.
pub struct TermStreamerBuilder<'a> {
    fst_map: &'a TermDictionary,
    stream_builder: fst::map::StreamBuilder<'a>,
}

impl<'a> TermStreamerBuilder<'a> {
    /// The dictionary whose terms the cursor will walk.
    pub closed spec fn dictionary(&self) -> TermDictionary {
        *self.fst_map
    }

    /// The lower bound of the range as it stands.
    pub closed spec fn lower(&self) -> KeyBound {
        builder_lower(self.stream_builder)
    }

    /// The upper bound of the range as it stands.
    pub closed spec fn upper(&self) -> KeyBound {
        builder_upper(self.stream_builder)
    }

    /// The range is one of the terms of the builder's own dictionary.
    pub closed spec fn reads_dictionary(&self) -> bool {
        builder_source(self.stream_builder) == self.fst_map.entries()
    }

    /// What holds of every builder: its dictionary is well formed, and it is
    /// the terms of that dictionary that the range selects from.
    pub open spec fn wf(&self) -> bool {
        &&& self.dictionary().wf()
        &&& self.reads_dictionary()
    }

    /// Makes a builder of a dictionary and a range query on the map of
    /// that dictionary.
    pub(crate) fn new(
        fst_map: &'a TermDictionary,
        stream_builder: fst::map::StreamBuilder<'a>,
    ) -> (builder: Self)
        requires
            fst_map.wf(),
            builder_source(stream_builder) == fst_map.entries(),
        ensures
            builder.wf(),
            builder.dictionary() == *fst_map,
            builder.lower() == builder_lower(stream_builder),
            builder.upper() == builder_upper(stream_builder),
    {
        TermStreamerBuilder { fst_map, stream_builder }
    }

    /// Limits the range to the terms greater than or equal to `bound`. An
    /// earlier lower bound is forgotten; the upper bound stays.
    pub fn ge(self, bound: &[u8]) -> (narrowed: Self)
        requires
            self.wf(),
        ensures
            narrowed.wf(),
            narrowed.dictionary() == self.dictionary(),
            narrowed.lower() == KeyBound::Included(bound@),
            narrowed.upper() == self.upper(),
    {
        TermStreamerBuilder {
            fst_map: self.fst_map,
            stream_builder: builder_ge(self.stream_builder, bound),
        }
    }

    /// Limits the range to the terms strictly greater than `bound`. An
    /// earlier lower bound is forgotten; the upper bound stays.
    pub fn gt(self, bound: &[u8]) -> (narrowed: Self)
        requires
            self.wf(),
        ensures
            narrowed.wf(),
            narrowed.dictionary() == self.dictionary(),
            narrowed.lower() == KeyBound::Excluded(bound@),
            narrowed.upper() == self.upper(),
    {
        TermStreamerBuilder {
            fst_map: self.fst_map,
            stream_builder: builder_gt(self.stream_builder, bound),
        }
    }

    /// Limits the range to the terms less than or equal to `bound`. An
    /// earlier upper bound is forgotten; the lower bound stays.
    pub fn le(self, bound: &[u8]) -> (narrowed: Self)
        requires
            self.wf(),
        ensures
            narrowed.wf(),
            narrowed.dictionary() == self.dictionary(),
            narrowed.lower() == self.lower(),
            narrowed.upper() == KeyBound::Included(bound@),
    {
        TermStreamerBuilder {
            fst_map: self.fst_map,
            stream_builder: builder_le(self.stream_builder, bound),
        }
    }

    /// Limits the range to the terms strictly less than `bound`. An earlier
    /// upper bound is forgotten; the lower bound stays.
    pub fn lt(self, bound: &[u8]) -> (narrowed: Self)
        requires
            self.wf(),
        ensures
            narrowed.wf(),
            narrowed.dictionary() == self.dictionary(),
            narrowed.lower() == self.lower(),
            narrowed.upper() == KeyBound::Excluded(bound@),
    {
        TermStreamerBuilder {
            fst_map: self.fst_map,
            stream_builder: builder_lt(self.stream_builder, bound),
        }
    }

    /// Makes the cursor over the range as it stands. The cursor has not been
    /// advanced: its key is empty, its ordinal zero and its metadata the
    /// empty record.
    pub fn into_stream(self) -> (cursor: TermStreamer<'a>)
        requires
            self.wf(),
        ensures
            cursor.wf(),
            cursor@ == CursorView::start(
                self.dictionary().entries(),
                self.dictionary().term_infos(),
                self.lower(),
                self.upper(),
            ),
            cursor@.state() == CursorState::Uninitialized,
            cursor@.key() == Seq::<u8>::empty(),
            cursor@.term_ord() == 0,
            cursor@.value() == TermInfo::empty(),
    {
        let ghost lower = self.lower();
        let ghost upper = self.upper();
        let ghost entries = self.fst_map.entries();
        proof {
            lemma_select_range_members(entries, lower, upper);
        }
        let cursor = TermStreamer {
            fst_map: self.fst_map,
            stream: builder_into_stream(self.stream_builder),
            term_ord: 0u64,
            current_key: Vec::with_capacity(100),
            current_value: TermInfo::default(),
            lower: Ghost(lower),
            upper: Ghost(upper),
            produced: Ghost(0),
            exhausted: Ghost(false),
        };
        assert(cursor@.items().skip(0) =~= cursor@.items());
        cursor
    }
}

/// A cursor over a range of the terms of a dictionary. It produces the
/// terms of the range one by one, in ascending order of key.
pub struct TermStreamer<'a> {
    fst_map: &'a TermDictionary,
    stream: MapStream<'a>,
    term_ord: TermOrdinal,
    current_key: Vec<u8>,
    current_value: TermInfo,
    lower: Ghost<KeyBound>,
    upper: Ghost<KeyBound>,
    produced: Ghost<nat>,
    exhausted: Ghost<bool>,
}

impl<'a> View for TermStreamer<'a> {
    type V = CursorView;

    closed spec fn view(&self) -> CursorView {
        CursorView {
            entries: self.fst_map.entries(),
            infos: self.fst_map.term_infos(),
            lower: self.lower@,
            upper: self.upper@,
            produced: self.produced@,
            exhausted: self.exhausted@,
        }
    }
}

impl<'a> TermStreamer<'a> {
    /// The cursor holds what its model says: the terms still to come are
    /// those of the range that have not been produced, and the key, the
    /// ordinal and the metadata are those of the model.
    pub closed spec fn reflects_view(&self) -> bool {
        &&& stream_remaining(self.stream) == self@.items().skip(self@.produced as int)
        &&& self.current_key@ == self@.key()
        &&& self.term_ord == self@.term_ord()
        &&& self.current_value == self@.value()
    }

    /// What holds of every cursor: its model is well formed, and the cursor
    /// holds what the model says.
    pub open spec fn wf(&self) -> bool {
        &&& self@.wf()
        &&& self.reflects_view()
    }

    /// Moves the cursor to the next term of the range.
    ///
    /// Returns `true` if there was one: the key, the ordinal and the metadata
    /// are then those of that term. Returns `false` if the range holds no
    /// further term: the cursor then keeps what it had.
    pub fn advance(&mut self) -> (advanced: bool)
        requires
            old(self).wf(),
        ensures
            final(self).wf(),
            advanced == old(self)@.has_next(),
            final(self)@ == old(self)@.advanced(),
            advanced ==> final(self)@.state() == CursorState::Positioned,
            advanced ==> in_range(final(self)@.key(), final(self)@.lower, final(self)@.upper),
            advanced && old(self)@.state() == CursorState::Positioned ==> bytes_lt(
                old(self)@.key(),
                final(self)@.key(),
            ) && old(self)@.term_ord() < final(self)@.term_ord(),
            !advanced ==> final(self)@.state() == CursorState::Exhausted,
            !advanced ==> final(self)@.key() == old(self)@.key(),
            !advanced ==> final(self)@.term_ord() == old(self)@.term_ord(),
            !advanced ==> final(self)@.value() == old(self)@.value(),
    {
        let ghost before = self@;
        proof {
            lemma_items_ordered(before);
            lemma_items_are_the_range(before);
        }
        if let Some((term, term_ord)) = stream_next(&mut self.stream) {
            proof {
                let at = before.produced as int;
                let left = before.items().skip(at);
                assert(left[0] == before.items()[at]);
                assert(left.skip(1) =~= before.items().skip(at + 1));
            }
            self.current_key.clear();
            self.current_key.extend_from_slice(term);
            self.term_ord = term_ord;
            self.current_value = self.fst_map.term_info_from_ord(term_ord);
            self.produced = Ghost((before.produced + 1) as nat);
            assert(self.current_key@ =~= term@);
            true
        } else {
            self.exhausted = Ghost(true);
            false
        }
    }

    /// The ordinal of the current term; zero before the first advance.
    pub fn term_ord(&self) -> (ordinal: TermOrdinal)
        requires
            self.wf(),
        ensures
            ordinal == self@.term_ord(),
    {
        self.term_ord
    }

    /// The key of the current term; empty before the first advance. After
    /// the end of the range it remains the last key produced.
    pub fn key(&self) -> (key: &[u8])
        requires
            self.wf(),
        ensures
            key@ == self@.key(),
    {
        self.current_key.as_slice()
    }

    /// The metadata of the current term; the empty record before the first
    /// advance. After the end of the range it remains the last one produced.
    pub fn value(&self) -> (value: &TermInfo)
        requires
            self.wf(),
        ensures
            *value == self@.value(),
    {
        &self.current_value
    }

    /// Advances the cursor and returns the key and the metadata of the term
    /// it has moved to, or nothing if the range holds no further term.
    pub fn next(&mut self) -> (produced: Option<(&[u8], &TermInfo)>)
        requires
            old(self).wf(),
        ensures
            final(self).wf(),
            final(self)@ == old(self)@.advanced(),
            produced is Some <==> old(self)@.has_next(),
            produced matches Some(pair) ==> pair.0@ == final(self)@.key(),
            produced matches Some(pair) ==> *pair.1 == final(self)@.value(),
    {
        if self.advance() {
            Some((self.key(), self.value()))
        } else {
            None
        }
    }
}

} // verus!
