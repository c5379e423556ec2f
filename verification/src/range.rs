//! Ranges of keys: which entries of a sorted dictionary lie between a lower
//! and an upper bound, and what holds of the entries so selected.

use vstd::prelude::*;
use crate::byte_order::{bytes_le, bytes_lt, lemma_bytes_lt_irreflexive, lemma_bytes_lt_transitive};

verus! {

/// One side of a range of keys.
pub enum KeyBound {
    /// No restriction on this side.
    Unbounded,
    /// The bound itself belongs to the range.
    Included(Seq<u8>),
    /// The bound itself does not belong to the range.
    Excluded(Seq<u8>),
}

/// A term of a dictionary as a cursor sees it: its key and its ordinal.
pub type Entry = (Seq<u8>, u64);

/// The entries made of the given keys, each with the value that stands at
/// the same index.
pub open spec fn paired(keys: Seq<Vec<u8>>, values: Seq<u64>) -> Seq<Entry> {
    Seq::new(keys.len(), |i: int| (keys[i]@, values[i]))
}

/// The entries of a dictionary of the given keys: each key with its index as
/// ordinal.
pub open spec fn ranked(keys: Seq<Vec<u8>>) -> Seq<Entry> {
    Seq::new(keys.len(), |i: int| (keys[i]@, i as u64))
}

/// `key` satisfies `lower` taken as a lower bound.
pub open spec fn above(key: Seq<u8>, lower: KeyBound) -> bool {
    match lower {
        KeyBound::Unbounded => true,
        KeyBound::Included(bound) => bytes_le(bound, key),
        KeyBound::Excluded(bound) => bytes_lt(bound, key),
    }
}

/// `key` satisfies `upper` taken as an upper bound.
pub open spec fn below(key: Seq<u8>, upper: KeyBound) -> bool {
    match upper {
        KeyBound::Unbounded => true,
        KeyBound::Included(bound) => bytes_le(key, bound),
        KeyBound::Excluded(bound) => bytes_lt(key, bound),
    }
}

/// `key` lies in the range from `lower` to `upper`.
pub open spec fn in_range(key: Seq<u8>, lower: KeyBound, upper: KeyBound) -> bool {
    above(key, lower) && below(key, upper)
}

/// The entries whose key lies in the range, in the order in which `entries`
/// holds them.
pub open spec fn select_range(entries: Seq<Entry>, lower: KeyBound, upper: KeyBound) -> Seq<Entry> {
    entries.filter(|entry: Entry| in_range(entry.0, lower, upper))
}

/// Each key comes strictly before the keys after it.
pub open spec fn keys_ascending(entries: Seq<Entry>) -> bool {
    forall|i: int, j: int|
        0 <= i < j < entries.len() ==> bytes_lt(#[trigger] entries[i].0, #[trigger] entries[j].0)
}

/// Each ordinal is smaller than the ordinals after it.
pub open spec fn ordinals_ascending(entries: Seq<Entry>) -> bool {
    forall|i: int, j: int|
        0 <= i < j < entries.len() ==> (#[trigger] entries[i]).1 < (#[trigger] entries[j]).1
}

/// The ordinal of each entry is its index: ordinals are dense and start at
/// zero.
pub open spec fn ordinals_dense(entries: Seq<Entry>) -> bool {
    forall|i: int| 0 <= i < entries.len() ==> (#[trigger] entries[i]).1 == i
}

/// Selecting a range keeps only entries of the range, and only entries that
/// were there.
pub proof fn lemma_select_range_members(entries: Seq<Entry>, lower: KeyBound, upper: KeyBound)
    ensures
        forall|i: int|
            0 <= i < select_range(entries, lower, upper).len() ==> {
                let entry = #[trigger] select_range(entries, lower, upper)[i];
                in_range(entry.0, lower, upper) && entries.contains(entry)
            },
        select_range(entries, lower, upper).len() <= entries.len(),
    decreases entries.len(),
{
    reveal(Seq::filter);
    let picked = select_range(entries, lower, upper);
    if entries.len() > 0 {
        let front = entries.drop_last();
        lemma_select_range_members(front, lower, upper);
        let front_picked = select_range(front, lower, upper);
        assert forall|i: int| 0 <= i < picked.len() implies in_range(picked[i].0, lower, upper)
            && entries.contains(#[trigger] picked[i]) by {
            if i < front_picked.len() {
                assert(picked[i] == front_picked[i]);
                let k = choose|k: int| 0 <= k < front.len() && front[k] == front_picked[i];
                assert(entries[k] == picked[i]);
            } else {
                assert(picked[i] == entries[entries.len() - 1]);
            }
        }
    }
}

/// Selecting a range drops no entry of the range.
pub proof fn lemma_select_range_complete(
    entries: Seq<Entry>,
    lower: KeyBound,
    upper: KeyBound,
    i: int,
)
    requires
        0 <= i < entries.len(),
        in_range(entries[i].0, lower, upper),
    ensures
        select_range(entries, lower, upper).contains(entries[i]),
{
    entries.lemma_filter_contains(|entry: Entry| in_range(entry.0, lower, upper), i);
}

/// Selecting a range keeps the entries in order: where keys ascend they still
/// ascend, and so do ordinals.
pub proof fn lemma_select_range_ascending(entries: Seq<Entry>, lower: KeyBound, upper: KeyBound)
    ensures
        keys_ascending(entries) ==> keys_ascending(select_range(entries, lower, upper)),
        ordinals_ascending(entries) ==> ordinals_ascending(select_range(entries, lower, upper)),
    decreases entries.len(),
{
    reveal(Seq::filter);
    let picked = select_range(entries, lower, upper);
    if entries.len() > 0 {
        let front = entries.drop_last();
        let front_picked = select_range(front, lower, upper);
        lemma_select_range_ascending(front, lower, upper);
        lemma_select_range_members(front, lower, upper);
        assert forall|i: int| 0 <= i < front.len() implies front[i] == entries[i] by {}
        if keys_ascending(entries) {
            assert(keys_ascending(front));
            assert forall|i: int, j: int| 0 <= i < j < picked.len() implies bytes_lt(
                #[trigger] picked[i].0,
                #[trigger] picked[j].0,
            ) by {
                if j < front_picked.len() {
                    assert(picked[i] == front_picked[i] && picked[j] == front_picked[j]);
                } else {
                    let k = choose|k: int| 0 <= k < front.len() && front[k] == front_picked[i];
                    assert(picked[i] == entries[k] && picked[j] == entries[entries.len() - 1]);
                }
            }
        }
        if ordinals_ascending(entries) {
            assert(ordinals_ascending(front));
            assert forall|i: int, j: int| 0 <= i < j < picked.len() implies (#[trigger] picked[i]).1
                < (#[trigger] picked[j]).1 by {
                if j < front_picked.len() {
                    assert(picked[i] == front_picked[i] && picked[j] == front_picked[j]);
                } else {
                    let k = choose|k: int| 0 <= k < front.len() && front[k] == front_picked[i];
                    assert(picked[i] == entries[k] && picked[j] == entries[entries.len() - 1]);
                }
            }
        }
    }
}

/// A range without bounds selects every entry.
pub proof fn lemma_select_range_unbounded(entries: Seq<Entry>)
    ensures
        select_range(entries, KeyBound::Unbounded, KeyBound::Unbounded) == entries,
    decreases entries.len(),
{
    reveal(Seq::filter);
    if entries.len() > 0 {
        lemma_select_range_unbounded(entries.drop_last());
        assert(entries.drop_last().push(entries.last()) =~= entries);
    }
}

/// Dense ordinals ascend.
pub proof fn lemma_dense_ordinals_ascend(entries: Seq<Entry>)
    requires
        ordinals_dense(entries),
    ensures
        ordinals_ascending(entries),
{
}

/// A range in which no key of the dictionary lies selects nothing.
pub proof fn lemma_select_range_none(entries: Seq<Entry>, lower: KeyBound, upper: KeyBound)
    requires
        forall|i: int|
            0 <= i < entries.len() ==> !in_range((#[trigger] entries[i]).0, lower, upper),
    ensures
        select_range(entries, lower, upper).len() == 0,
{
    lemma_select_range_members(entries, lower, upper);
    let picked = select_range(entries, lower, upper);
    if picked.len() > 0 {
        let k = choose|k: int| 0 <= k < entries.len() && entries[k] == picked[0];
        assert(in_range(entries[k].0, lower, upper));
    }
}

/// The lower bound lies above the upper one, or the two name the same key
/// and one of them excludes it.
pub open spec fn bounds_crossed(lower: KeyBound, upper: KeyBound) -> bool {
    match (lower, upper) {
        (KeyBound::Included(low), KeyBound::Included(high)) => bytes_lt(high, low),
        (KeyBound::Included(low), KeyBound::Excluded(high)) => bytes_le(high, low),
        (KeyBound::Excluded(low), KeyBound::Included(high)) => bytes_le(high, low),
        (KeyBound::Excluded(low), KeyBound::Excluded(high)) => bytes_le(high, low),
        _ => false,
    }
}

/// Crossed bounds admit no key.
pub proof fn lemma_crossed_bounds_admit_nothing(key: Seq<u8>, lower: KeyBound, upper: KeyBound)
    requires
        bounds_crossed(lower, upper),
    ensures
        !in_range(key, lower, upper),
{
    if in_range(key, lower, upper) {
        let low = match lower {
            KeyBound::Included(b) => b,
            KeyBound::Excluded(b) => b,
            KeyBound::Unbounded => key,
        };
        let high = match upper {
            KeyBound::Included(b) => b,
            KeyBound::Excluded(b) => b,
            KeyBound::Unbounded => key,
        };
        // low <= key <= high <= low, with one of the three strict
        if bytes_lt(low, key) && bytes_lt(key, high) {
            lemma_bytes_lt_transitive(low, key, high);
        }
        if bytes_lt(low, high) && bytes_lt(high, low) {
            lemma_bytes_lt_transitive(low, high, low);
        }
        lemma_bytes_lt_irreflexive(low);
        lemma_bytes_lt_irreflexive(key);
        lemma_bytes_lt_irreflexive(high);
    }
}

/// Whatever the dictionary holds, crossed bounds select nothing.
pub proof fn lemma_crossed_bounds_select_nothing(
    entries: Seq<Entry>,
    lower: KeyBound,
    upper: KeyBound,
)
    requires
        bounds_crossed(lower, upper),
    ensures
        select_range(entries, lower, upper).len() == 0,
{
    assert forall|i: int| 0 <= i < entries.len() implies !in_range(
        (#[trigger] entries[i]).0,
        lower,
        upper,
    ) by {
        lemma_crossed_bounds_admit_nothing(entries[i].0, lower, upper);
    }
    lemma_select_range_none(entries, lower, upper);
}

} // verus!
