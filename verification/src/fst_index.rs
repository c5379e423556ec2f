//! The contracts under which this library uses the `fst` crate.
//!
//! Nothing in this file is proved: each item states what the `fst` crate is
//! relied upon to do. The only maps that this library ever holds are those
//! that [`map_from_sorted`] has made, so that every map it queries was
//! written by the crate's own builder.

use vstd::prelude::*;
use fst::IntoStreamer;
use fst::Streamer;
use crate::range::{keys_ascending, paired, select_range, KeyBound};

verus! {

/// `fst::Map`: an immutable map from byte strings to `u64`, ordered by key.
#[verifier::external_type_specification]
#[verifier::external_body]
pub struct ExMap(fst::Map);

/// `fst::Error`: why a map could not be built.
#[verifier::external_type_specification]
#[verifier::external_body]
pub struct ExError(fst::Error);

/// `fst::automaton::AlwaysMatch`: the filter of a stream that filters
/// nothing, which is the only one used here.
#[verifier::external_type_specification]
#[verifier::external_body]
pub struct ExAlwaysMatch(fst::automaton::AlwaysMatch);

/// `fst::map::StreamBuilder`: a range query on a map that has not been
/// started yet.
#[verifier::external_type_specification]
#[verifier::external_body]
#[verifier::reject_recursive_types(A)]
pub struct ExStreamBuilder<'m, A>(fst::map::StreamBuilder<'m, A>);

/// A running range query on a map: an `fst::map::Stream`, held as it is.
///
/// The stream is wrapped rather than declared like the types above because
/// its filter parameter is bound by a trait of the `fst` crate.
#[verifier::external_body]
pub struct MapStream<'m> {
    inner: fst::map::Stream<'m>,
}

/// The key-value pairs that a map holds, in ascending order of key.
pub uninterp spec fn map_entries(map: fst::Map) -> Seq<(Seq<u8>, u64)>;

/// The key-value pairs of the map that a range query was made on, in
/// ascending order of key.
pub uninterp spec fn builder_source(builder: fst::map::StreamBuilder) -> Seq<(Seq<u8>, u64)>;

/// The lower bound that a range query has been given last.
pub uninterp spec fn builder_lower(builder: fst::map::StreamBuilder) -> KeyBound;

/// The upper bound that a range query has been given last.
pub uninterp spec fn builder_upper(builder: fst::map::StreamBuilder) -> KeyBound;

/// The key-value pairs that a stream has yet to yield, in the order in which
/// it will yield them.
pub uninterp spec fn stream_remaining(stream: MapStream) -> Seq<(Seq<u8>, u64)>;

/// `fst::Map::from_iter`: builds a map in memory that holds the given keys,
/// each with the value that stands at the same index.
///
/// The keys must come in strictly ascending order, byte by byte: if one of
/// them is equal to or smaller than the one before it, the crate returns an
/// error. It returns no other: the map is written to memory, where writing
/// does not fail, and read back from what its own builder wrote.
#[verifier::external_body]
pub(crate) fn map_from_sorted(keys: &[Vec<u8>], values: &[u64]) -> (built: Result<
    fst::Map,
    fst::Error,
>)
    requires
        keys@.len() == values@.len(),
    ensures
        built is Ok <==> keys_ascending(paired(keys@, values@)),
        built matches Ok(map) ==> map_entries(map) == paired(keys@, values@),
{
    fst::Map::from_iter(keys.iter().zip(values.iter()).map(|(key, value)| (key, *value)))
}

/// `fst::Map::range`: a range query on the map with no bound on either side.
#[verifier::external_body]
pub(crate) fn map_range<'m>(map: &'m fst::Map) -> (builder: fst::map::StreamBuilder<'m>)
    ensures
        builder_source(builder) == map_entries(*map),
        builder_lower(builder) == KeyBound::Unbounded,
        builder_upper(builder) == KeyBound::Unbounded,
{
    map.range()
}

/// `fst::map::StreamBuilder::ge`: replaces the lower bound, whatever it was,
/// by `bound`, which itself belongs to the range.
#[verifier::external_body]
pub(crate) fn builder_ge<'m>(builder: fst::map::StreamBuilder<'m>, bound: &[u8]) -> (narrowed:
    fst::map::StreamBuilder<'m>)
    ensures
        builder_source(narrowed) == builder_source(builder),
        builder_lower(narrowed) == KeyBound::Included(bound@),
        builder_upper(narrowed) == builder_upper(builder),
{
    builder.ge(bound)
}

/// `fst::map::StreamBuilder::gt`: replaces the lower bound, whatever it was,
/// by `bound`, which itself does not belong to the range.
#[verifier::external_body]
pub(crate) fn builder_gt<'m>(builder: fst::map::StreamBuilder<'m>, bound: &[u8]) -> (narrowed:
    fst::map::StreamBuilder<'m>)
    ensures
        builder_source(narrowed) == builder_source(builder),
        builder_lower(narrowed) == KeyBound::Excluded(bound@),
        builder_upper(narrowed) == builder_upper(builder),
{
    builder.gt(bound)
}

/// `fst::map::StreamBuilder::le`: replaces the upper bound, whatever it was,
/// by `bound`, which itself belongs to the range.
#[verifier::external_body]
pub(crate) fn builder_le<'m>(builder: fst::map::StreamBuilder<'m>, bound: &[u8]) -> (narrowed:
    fst::map::StreamBuilder<'m>)
    ensures
        builder_source(narrowed) == builder_source(builder),
        builder_lower(narrowed) == builder_lower(builder),
        builder_upper(narrowed) == KeyBound::Included(bound@),
{
    builder.le(bound)
}

/// `fst::map::StreamBuilder::lt`: replaces the upper bound, whatever it was,
/// by `bound`, which itself does not belong to the range.
#[verifier::external_body]
pub(crate) fn builder_lt<'m>(builder: fst::map::StreamBuilder<'m>, bound: &[u8]) -> (narrowed:
    fst::map::StreamBuilder<'m>)
    ensures
        builder_source(narrowed) == builder_source(builder),
        builder_lower(narrowed) == builder_lower(builder),
        builder_upper(narrowed) == KeyBound::Excluded(bound@),
{
    builder.lt(bound)
}

/// `fst::IntoStreamer::into_stream` on a range query: the stream will yield
/// the pairs of the map whose key lies within the two bounds, in ascending
/// order of key, and no others.
#[verifier::external_body]
pub(crate) fn builder_into_stream<'m>(builder: fst::map::StreamBuilder<'m>) -> (stream: MapStream<
    'm,
>)
    ensures
        stream_remaining(stream) == select_range(
            builder_source(builder),
            builder_lower(builder),
            builder_upper(builder),
        ),
{
    MapStream { inner: builder.into_stream() }
}

/// `fst::Streamer::next` on a map stream: yields the first pair that is left
/// and drops it from the stream, or yields nothing, and changes nothing, when
/// none is left.
#[verifier::external_body]
pub(crate) fn stream_next<'s, 'm>(stream: &'s mut MapStream<'m>) -> (item: Option<(&'s [u8], u64)>)
    ensures
        stream_remaining(*old(stream)).len() == 0 ==> item is None && stream_remaining(
            *final(stream),
        ) == stream_remaining(*old(stream)),
        stream_remaining(*old(stream)).len() > 0 ==> item is Some && (
            item.unwrap().0@,
            item.unwrap().1,
        ) == stream_remaining(*old(stream))[0] && stream_remaining(*final(stream))
            == stream_remaining(*old(stream)).skip(1),
{
    stream.inner.next()
}

} // verus!
