//! Lossless text round-tripping for compiled regular expression patterns.
//!
//! A compiled pattern is not a plain data structure, so it cannot be encoded
//! or decoded directly. This crate bridges the gap by carrying each pattern's
//! source string alongside the compiled matcher: decoding parses a string into
//! a pattern, encoding writes the source string back out. Six payload shapes
//! are supported: a bare pattern, an optional pattern, an ordered sequence of
//! patterns, a key-to-pattern mapping, and the optional forms of the latter
//! two.

use vstd::prelude::*;

pub mod codec;
pub mod laws;
pub mod pattern;
pub mod pattern_map;

verus! {

/// A transparent wrapper around a payload value of one of the supported
/// shapes. It has no identity beyond its payload; it exists so that call
/// sites can hand a payload to a decode or encode operation and take it
/// back afterwards.
#[derive(Debug, Clone, PartialEq, Eq, Hash)]
pub struct Serde<T>(pub T);

impl<T> Serde<T> {
    /// Consumes the `Serde`, returning the inner value.
    pub fn into_inner(self) -> (r: T)
        ensures
            r == self.0,
    {
        self.0
    }
}

impl<T> From<T> for Serde<T> {
    fn from(val: T) -> (r: Serde<T>) {
        Serde(val)
    }
}

impl<T> vstd::std_specs::convert::FromSpecImpl<T> for Serde<T> {
    open spec fn obeys_from_spec() -> bool {
        true
    }

    open spec fn from_spec(val: T) -> Serde<T> {
        Serde(val)
    }
}

} // verus!
