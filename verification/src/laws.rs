//! The round-trip laws of the codec, stated once over the spec functions and
//! views that the decode and encode contracts speak of, so that a reader sees
//! them in one place rather than deriving them from the contracts.

use vstd::prelude::*;

use crate::codec::{pattern_views, string_views};
use crate::pattern::Pattern;
use crate::pattern_map::{lemma_map_of_index, lemma_map_of_keys, map_of, unique_keys};

verus! {

/// Round-trip identity for a single pattern: decoding a valid source string
/// and re-encoding the pattern yields that string. `Pattern::parse` ensures
/// that the decoded pattern's view is the source; `Pattern::source` ensures
/// that the encoded scalar is the pattern's view; together the scalar is the
/// source again.
pub proof fn lemma_pattern_round_trip(source: Seq<char>, decoded: Pattern, encoded: Seq<char>)
    requires
        decoded@ == source,
        encoded == decoded@,
    ensures
        encoded == source,
{
}

/// Order-preserving round trip for a sequence: decoding a list of valid
/// source strings and re-encoding the patterns yields the same strings in the
/// same order. `decode_seq` ensures that the decoded patterns' views are the
/// sources, element by element; `encode_seq` ensures the same of the encoded
/// strings.
pub proof fn lemma_seq_round_trip(sources: Seq<String>, decoded: Seq<Pattern>, encoded: Seq<
    String,
>)
    requires
        pattern_views(decoded) == string_views(sources),
        string_views(encoded) == pattern_views(decoded),
    ensures
        string_views(encoded) == string_views(sources),
        encoded.len() == sources.len(),
        forall|i: int| 0 <= i < sources.len() ==> (#[trigger] encoded[i])@ == sources[i]@,
{
    assert(string_views(encoded).len() == encoded.len());
    assert(string_views(sources).len() == sources.len());
    assert forall|i: int| 0 <= i < sources.len() implies (#[trigger] encoded[i])@
        == sources[i]@ by {
        assert(string_views(encoded)[i] == encoded[i]@);
        assert(string_views(sources)[i] == sources[i]@);
    }
}

/// Completeness of the mapping round trip: for entries with pairwise-distinct
/// keys, decoding and re-encoding yields a mapping with exactly that key set,
/// each key bound to its original pattern's source string; order is not part
/// of the statement. `decode_map` ensures that the decoded mapping denotes
/// `map_of(entries)`; `encode_map` ensures that the encoded entries denote
/// the decoded mapping.
pub proof fn lemma_map_round_trip(
    entries: Seq<(Seq<char>, Seq<char>)>,
    decoded: Map<Seq<char>, Seq<char>>,
    encoded: Seq<(Seq<char>, Seq<char>)>,
)
    requires
        unique_keys(entries),
        decoded == map_of(entries),
        map_of(encoded) == decoded,
    ensures
        map_of(encoded) == map_of(entries),
        forall|i: int|
            0 <= i < entries.len() ==> map_of(encoded).contains_key((#[trigger] entries[i]).0)
                && map_of(encoded)[entries[i].0] == entries[i].1,
        forall|k: Seq<char>|
            #[trigger] map_of(encoded).contains_key(k) ==> exists|i: int|
                0 <= i < entries.len() && (#[trigger] entries[i]).0 == k,
{
    lemma_map_of_index(entries);
    lemma_map_of_keys(entries);
}

} // verus!
