//! Decode and encode paths for the container shapes: optional pattern,
//! ordered sequence, and the optional sequence form. Each reduces to the
//! single-pattern leaf operations of [`crate::pattern`].

use vstd::prelude::*;

use crate::pattern::{valid_pattern, Pattern, PatternError};
use crate::pattern_map::{decode_map, encode_map, map_of, pair_views, unique_keys, PatternMap};

verus! {

/// Whether every source string in a sequence is valid pattern syntax.
pub open spec fn all_valid(sources: Seq<Seq<char>>) -> bool {
    forall|i: int| 0 <= i < sources.len() ==> valid_pattern(sources[i])
}

/// The views of a sequence of patterns: each pattern's source string.
pub open spec fn pattern_views(patterns: Seq<Pattern>) -> Seq<Seq<char>> {
    patterns.map_values(|p: Pattern| p@)
}

/// The views of a sequence of strings.
pub open spec fn string_views(strings: Seq<String>) -> Seq<Seq<char>> {
    strings.map_values(|s: String| s@)
}

/// Decode an ordered sequence of patterns from its source strings, in order.
/// Succeeds exactly when every string is valid pattern syntax; on failure the
/// error is the engine's message for the first invalid string.
pub fn decode_seq(sources: &Vec<String>) -> (r: Result<Vec<Pattern>, PatternError>)
    ensures
        r is Ok <==> all_valid(string_views(sources@)),
        r is Ok ==> pattern_views(r->Ok_0@) == string_views(sources@),
        r is Ok ==> forall|i: int| 0 <= i < r->Ok_0@.len() ==> (#[trigger] r->Ok_0@[i]).wf(),
        r is Err ==> exists|i: int|
            0 <= i < sources@.len() && !valid_pattern(sources@[i]@)
                && (forall|j: int| 0 <= j < i ==> valid_pattern(#[trigger] sources@[j]@)),
{
    let mut patterns: Vec<Pattern> = Vec::with_capacity(sources.len());
    let mut idx: usize = 0;
    while idx < sources.len()
        invariant
            0 <= idx <= sources@.len(),
            patterns@.len() == idx as int,
            forall|i: int| 0 <= i < idx ==> (#[trigger] patterns@[i])@ == sources@[i]@,
            forall|i: int| 0 <= i < idx ==> (#[trigger] patterns@[i]).wf(),
            forall|i: int| 0 <= i < idx ==> valid_pattern(#[trigger] sources@[i]@),
        decreases sources@.len() - idx,
    {
        match Pattern::parse(sources[idx].as_str()) {
            Ok(pattern) => patterns.push(pattern),
            Err(err) => {
                proof {
                    assert(string_views(sources@)[idx as int] == sources@[idx as int]@);
                    assert(!all_valid(string_views(sources@)));
                }
                return Err(err);
            },
        }
        idx += 1;
    }
    proof {
        assert(pattern_views(patterns@) =~= string_views(sources@));
    }
    Ok(patterns)
}

/// Encode an ordered sequence of patterns: each element's source string, in
/// the sequence's own order.
pub fn encode_seq(patterns: &Vec<Pattern>) -> (r: Vec<String>)
    ensures
        string_views(r@) == pattern_views(patterns@),
{
    let mut strings: Vec<String> = Vec::with_capacity(patterns.len());
    let mut idx: usize = 0;
    while idx < patterns.len()
        invariant
            0 <= idx <= patterns@.len(),
            strings@.len() == idx as int,
            forall|i: int| 0 <= i < idx ==> (#[trigger] strings@[i])@ == patterns@[i]@,
        decreases patterns@.len() - idx,
    {
        strings.push(String::from_str(patterns[idx].source()));
        idx += 1;
    }
    proof {
        assert(string_views(strings@) =~= pattern_views(patterns@));
    }
    strings
}

/// Decode an optional pattern: an absent slot yields an absent payload, a
/// present string is decoded as a single pattern.
pub fn decode_opt(source: &Option<String>) -> (r: Result<Option<Pattern>, PatternError>)
    ensures
        source is None ==> r == Result::<Option<Pattern>, PatternError>::Ok(None),
        source is Some ==> (r is Ok <==> valid_pattern(source->0@)),
        source is Some && r is Ok ==> r->Ok_0 is Some && r->Ok_0->0@ == source->0@
            && r->Ok_0->0.wf(),
{
    match source {
        Some(s) => match Pattern::parse(s.as_str()) {
            Ok(pattern) => Ok(Some(pattern)),
            Err(err) => Err(err),
        },
        None => Ok(None),
    }
}

/// Encode an optional pattern: an absent payload encodes as an absent slot, a
/// present pattern as its source string.
pub fn encode_opt(pattern: &Option<Pattern>) -> (r: Option<String>)
    ensures
        r is Some <==> pattern is Some,
        pattern is Some ==> r->0@ == pattern->0@,
{
    match pattern {
        Some(p) => Some(String::from_str(p.source())),
        None => None,
    }
}

/// Decode an optional sequence: an absent slot yields an absent payload, a
/// present list of strings is decoded as an ordered sequence of patterns.
pub fn decode_opt_seq(sources: &Option<Vec<String>>) -> (r: Result<
    Option<Vec<Pattern>>,
    PatternError,
>)
    ensures
        sources is None ==> r == Result::<Option<Vec<Pattern>>, PatternError>::Ok(None),
        sources is Some ==> (r is Ok <==> all_valid(string_views(sources->0@))),
        sources is Some && r is Ok ==> r->Ok_0 is Some && pattern_views(r->Ok_0->0@)
            == string_views(sources->0@),
{
    match sources {
        Some(list) => match decode_seq(list) {
            Ok(patterns) => Ok(Some(patterns)),
            Err(err) => Err(err),
        },
        None => Ok(None),
    }
}

/// Encode an optional sequence: an absent payload encodes as an absent slot,
/// a present sequence element by element, in order.
pub fn encode_opt_seq(patterns: &Option<Vec<Pattern>>) -> (r: Option<Vec<String>>)
    ensures
        r is Some <==> patterns is Some,
        patterns is Some ==> string_views(r->0@) == pattern_views(patterns->0@),
{
    match patterns {
        Some(list) => Some(encode_seq(list)),
        None => None,
    }
}

/// Decode an optional mapping: an absent slot yields an absent payload, a
/// present list of entries is decoded as a key-to-pattern mapping.
pub fn decode_opt_map(entries: &Option<Vec<(String, String)>>) -> (r: Result<
    Option<PatternMap>,
    PatternError,
>)
    ensures
        entries is None ==> r == Result::<Option<PatternMap>, PatternError>::Ok(None),
        entries is Some ==> (r is Ok <==> forall|i: int|
            0 <= i < entries->0@.len() ==> valid_pattern((#[trigger] entries->0@[i]).1@)),
        entries is Some && r is Ok ==> r->Ok_0 is Some && r->Ok_0->0@ == map_of(
            pair_views(entries->0@),
        ) && r->Ok_0->0.wf(),
{
    match entries {
        Some(list) => match decode_map(list) {
            Ok(map) => Ok(Some(map)),
            Err(err) => Err(err),
        },
        None => Ok(None),
    }
}

/// Encode an optional mapping: an absent payload encodes as an absent slot, a
/// present mapping as one entry per distinct key.
pub fn encode_opt_map(map: &Option<PatternMap>) -> (r: Option<Vec<(String, String)>>)
    requires
        map is Some ==> map->0.wf(),
    ensures
        r is Some <==> map is Some,
        map is Some ==> map_of(pair_views(r->0@)) == map->0@ && unique_keys(pair_views(r->0@))
            && r->0@.len() == map->0@.dom().len(),
{
    match map {
        Some(m) => Some(encode_map(m)),
        None => None,
    }
}

} // verus!
