//! A range-bounded, forward-only cursor over the sorted terms of a
//! dictionary.
//!
//! A [`termdict::TermDictionary`] maps term keys, which are byte strings, to
//! ordinals and metadata. A [`streamer::TermStreamerBuilder`] narrows the
//! terms to a range of keys, and a [`streamer::TermStreamer`] walks the
//! terms of that range in ascending order of key.
//!
//! The sorted map itself is that of the `fst` crate. What this library
//! relies upon it to do is stated in [`fst_index`]; everything else is
//! proved: that a cursor produces exactly the terms of its range, in
//! strictly ascending order of key and of ordinal, that it keeps its last
//! term once the range is exhausted, and that it reads metadata only at
//! ordinals that the dictionary has.

pub mod byte_order;
pub mod fst_index;
pub mod range;
pub mod streamer;
pub mod term_info;
pub mod termdict;
