//! The key-to-pattern mapping shape: unique string keys, each bound to a
//! pattern. Entries are kept in a vector with pairwise-distinct keys, and the
//! type's view is the abstract map the entries denote, so contracts speak of
//! keys and source strings alone. Insertion overwrites an existing binding of
//! the same key; the entry count is the number of distinct keys.

use vstd::prelude::*;
use vstd::pervasive::VecAdditionalExecFns;

use crate::pattern::{valid_pattern, Pattern, PatternError};

verus! {

/// The abstract map denoted by a list of key/value entries, later entries
/// overwriting earlier ones of the same key.
pub open spec fn map_of(entries: Seq<(Seq<char>, Seq<char>)>) -> Map<Seq<char>, Seq<char>>
    decreases entries.len(),
{
    if entries.len() == 0 {
        Map::empty()
    } else {
        map_of(entries.drop_last()).insert(entries.last().0, entries.last().1)
    }
}

/// Whether the entries' keys are pairwise distinct.
pub open spec fn unique_keys(entries: Seq<(Seq<char>, Seq<char>)>) -> bool {
    forall|i: int, j: int|
        0 <= i < j < entries.len() ==> (#[trigger] entries[i]).0 != (#[trigger] entries[j]).0
}

/// The views of a list of key/pattern entries: each key's characters paired
/// with the pattern's source string.
pub open spec fn entry_views(entries: Seq<(String, Pattern)>) -> Seq<(Seq<char>, Seq<char>)> {
    entries.map_values(|e: (String, Pattern)| (e.0@, e.1@))
}

/// The views of a list of key/string entries.
pub open spec fn pair_views(entries: Seq<(String, String)>) -> Seq<(Seq<char>, Seq<char>)> {
    entries.map_values(|e: (String, String)| (e.0@, e.1@))
}

/// A key of the denoted map is exactly a key of some entry.
pub proof fn lemma_map_of_keys(entries: Seq<(Seq<char>, Seq<char>)>)
    ensures
        forall|k: Seq<char>|
            #[trigger] map_of(entries).contains_key(k) <==> exists|i: int|
                0 <= i < entries.len() && (#[trigger] entries[i]).0 == k,
    decreases entries.len(),
{
    if entries.len() > 0 {
        let prefix = entries.drop_last();
        let last = entries.last();
        lemma_map_of_keys(prefix);
        assert forall|k: Seq<char>| #[trigger] map_of(entries).contains_key(k) implies exists|
            i: int,
        | 0 <= i < entries.len() && (#[trigger] entries[i]).0 == k by {
            if k == last.0 {
                assert(entries[entries.len() - 1].0 == k);
            } else {
                assert(map_of(prefix).contains_key(k));
                let i = choose|i: int| 0 <= i < prefix.len() && (#[trigger] prefix[i]).0 == k;
                assert(entries[i] == prefix[i]);
            }
        }
        assert forall|k: Seq<char>|
            (exists|i: int|
                0 <= i < entries.len() && (#[trigger] entries[i]).0
                    == k) implies #[trigger] map_of(entries).contains_key(k) by {
            let i = choose|i: int| 0 <= i < entries.len() && (#[trigger] entries[i]).0 == k;
            if i == entries.len() - 1 {
                assert(k == last.0);
            } else {
                assert(prefix[i] == entries[i]);
                assert(prefix[i].0 == k);
                assert(map_of(prefix).contains_key(k));
            }
        }
    }
}

/// Under unique keys, each entry is a binding of the denoted map.
pub proof fn lemma_map_of_index(entries: Seq<(Seq<char>, Seq<char>)>)
    requires
        unique_keys(entries),
    ensures
        forall|i: int|
            0 <= i < entries.len() ==> map_of(entries).contains_key((#[trigger] entries[i]).0)
                && map_of(entries)[entries[i].0] == entries[i].1,
    decreases entries.len(),
{
    if entries.len() > 0 {
        let prefix = entries.drop_last();
        let last = entries.last();
        assert(unique_keys(prefix)) by {
            assert(forall|i: int, j: int|
                0 <= i < j < prefix.len() ==> prefix[i] == entries[i] && prefix[j] == entries[j]);
        }
        lemma_map_of_index(prefix);
        assert forall|i: int| 0 <= i < entries.len() implies map_of(entries).contains_key(
            (#[trigger] entries[i]).0,
        ) && map_of(entries)[entries[i].0] == entries[i].1 by {
            if i < entries.len() - 1 {
                assert(prefix[i] == entries[i]);
                assert(map_of(prefix).contains_key(prefix[i].0));
                assert(entries[i].0 != entries[entries.len() - 1].0);
            } else {
                assert(entries[i] == last);
            }
        }
    }
}

/// Under unique keys, the denoted map has exactly one binding per entry.
pub proof fn lemma_map_of_len(entries: Seq<(Seq<char>, Seq<char>)>)
    requires
        unique_keys(entries),
    ensures
        map_of(entries).dom().len() == entries.len(),
        map_of(entries).dom().finite(),
    decreases entries.len(),
{
    if entries.len() > 0 {
        let prefix = entries.drop_last();
        let last = entries.last();
        assert(unique_keys(prefix)) by {
            assert(forall|i: int, j: int|
                0 <= i < j < prefix.len() ==> prefix[i] == entries[i] && prefix[j] == entries[j]);
        }
        lemma_map_of_len(prefix);
        lemma_map_of_keys(prefix);
        assert(!map_of(prefix).contains_key(last.0)) by {
            if map_of(prefix).contains_key(last.0) {
                let i = choose|i: int| 0 <= i < prefix.len() && (#[trigger] prefix[i]).0 == last.0;
                assert(entries[i] == prefix[i]);
                assert(entries[i].0 == entries[entries.len() - 1].0);
            }
        }
        assert(map_of(entries).dom() =~= map_of(prefix).dom().insert(last.0));
    }
}

/// The entry views of a vector index by index.
proof fn lemma_entry_views_index(entries: Seq<(String, Pattern)>, i: int)
    requires
        0 <= i < entries.len(),
    ensures
        entry_views(entries).len() == entries.len(),
        entry_views(entries)[i] == (entries[i].0@, entries[i].1@),
{
}

/// The pair views of a vector index by index.
proof fn lemma_pair_views_index(entries: Seq<(String, String)>, i: int)
    requires
        0 <= i < entries.len(),
    ensures
        pair_views(entries).len() == entries.len(),
        pair_views(entries)[i] == (entries[i].0@, entries[i].1@),
{
}

/// Overwriting the value of the entry that holds a key denotes the same map
/// as inserting the key afresh.
proof fn lemma_map_of_overwrite(entries: Seq<(Seq<char>, Seq<char>)>, i: int, v: Seq<char>)
    requires
        unique_keys(entries),
        0 <= i < entries.len(),
    ensures
        map_of(entries.update(i, (entries[i].0, v))) == map_of(entries).insert(entries[i].0, v),
    decreases entries.len(),
{
    let updated = entries.update(i, (entries[i].0, v));
    if i == entries.len() - 1 {
        assert(updated.drop_last() =~= entries.drop_last());
        assert(updated.last() == (entries[i].0, v));
        assert(map_of(updated) =~= map_of(entries).insert(entries[i].0, v));
    } else {
        let prefix = entries.drop_last();
        assert(unique_keys(prefix)) by {
            assert(forall|j: int, l: int|
                0 <= j < l < prefix.len() ==> prefix[j] == entries[j] && prefix[l] == entries[l]);
        }
        lemma_map_of_overwrite(prefix, i, v);
        assert(prefix[i] == entries[i]);
        assert(updated.drop_last() =~= prefix.update(i, (entries[i].0, v)));
        assert(updated.last() == entries.last());
        assert(entries[i].0 != entries[entries.len() - 1].0);
        assert(map_of(updated) =~= map_of(entries).insert(entries[i].0, v));
    }
}

/// The key-to-pattern mapping: a payload of unique string keys, each bound to
/// a compiled pattern.
pub struct PatternMap {
    entries: Vec<(String, Pattern)>,
}

impl View for PatternMap {
    type V = Map<Seq<char>, Seq<char>>;

    closed spec fn view(&self) -> Map<Seq<char>, Seq<char>> {
        map_of(entry_views(self.entries@))
    }
}

impl PatternMap {
    /// The entries' keys are pairwise distinct, so the entry list and the
    /// denoted map have the same size.
    pub closed spec fn wf(self) -> bool {
        unique_keys(entry_views(self.entries@))
    }

    /// The entry list the mapping holds, as the view sees it.
    pub closed spec fn entries_view(self) -> Seq<(Seq<char>, Seq<char>)> {
        entry_views(self.entries@)
    }

    /// An empty mapping.
    pub fn new() -> (r: PatternMap)
        ensures
            r@ == Map::<Seq<char>, Seq<char>>::empty(),
            r.wf(),
    {
        PatternMap { entries: Vec::new() }
    }

    /// An empty mapping with room for the given number of entries.
    pub fn with_capacity(capacity: usize) -> (r: PatternMap)
        ensures
            r@ == Map::<Seq<char>, Seq<char>>::empty(),
            r.wf(),
    {
        PatternMap { entries: Vec::with_capacity(capacity) }
    }

    /// The number of distinct keys in the mapping.
    pub fn len(&self) -> (r: usize)
        requires
            self.wf(),
        ensures
            r == self@.dom().len(),
    {
        proof {
            lemma_map_of_len(entry_views(self.entries@));
        }
        self.entries.len()
    }

    /// Bind `key` to `value`, overwriting an existing binding of the same
    /// key; a new key is appended after the existing entries.
    pub fn insert(&mut self, key: String, value: Pattern)
        requires
            old(self).wf(),
        ensures
            final(self)@ == old(self)@.insert(key@, value@),
            final(self).wf(),
    {
        let mut i: usize = 0;
        while i < self.entries.len()
            invariant
                old(self).wf(),
                self.entries@ == old(self).entries@,
                0 <= i <= self.entries@.len(),
                forall|j: int| 0 <= j < i ==> (#[trigger] entry_views(self.entries@)[j]).0 != key@,
            decreases self.entries@.len() - i,
        {
            proof {
                lemma_entry_views_index(self.entries@, i as int);
            }
            if self.entries[i].0 == key {
                let ghost old_views = entry_views(old(self).entries@);
                proof {
                    lemma_entry_views_index(old(self).entries@, i as int);
                    assert(old_views[i as int].0 == key@);
                    lemma_map_of_overwrite(old_views, i as int, value@);
                }
                self.entries.set(i, (key, value));
                proof {
                    assert forall|j: int| 0 <= j < old_views.len() implies entry_views(
                        self.entries@,
                    )[j] == old_views.update(i as int, (old_views[i as int].0, value@))[j] by {
                        lemma_entry_views_index(self.entries@, j);
                        lemma_entry_views_index(old(self).entries@, j);
                    }
                    assert(entry_views(self.entries@) =~= old_views.update(
                        i as int,
                        (old_views[i as int].0, value@),
                    ));
                    assert(unique_keys(entry_views(self.entries@))) by {
                        assert(forall|j: int|
                            0 <= j < old_views.len() ==> (#[trigger] entry_views(
                                self.entries@,
                            )[j]).0 == old_views[j].0);
                    }
                }
                return ;
            }
            i += 1;
        }
        let ghost old_views = entry_views(old(self).entries@);
        self.entries.push((key, value));
        proof {
            assert forall|j: int| 0 <= j <= old_views.len() implies entry_views(self.entries@)[j]
                == old_views.push((key@, value@))[j] by {
                lemma_entry_views_index(self.entries@, j);
                if j < old_views.len() {
                    lemma_entry_views_index(old(self).entries@, j);
                }
            }
            assert(entry_views(self.entries@) =~= old_views.push((key@, value@)));
            assert(entry_views(self.entries@).drop_last() =~= old_views);
            assert(entry_views(self.entries@).last() == (key@, value@));
            assert(unique_keys(entry_views(self.entries@))) by {
                assert(forall|j: int, l: int|
                    0 <= j < l < old_views.len() ==> (#[trigger] old_views[j]).0
                        != (#[trigger] old_views[l]).0);
            }
        }
    }

    /// Look the key up: the bound pattern if the key is present, nothing
    /// otherwise.
    pub fn get(&self, key: &String) -> (r: Option<&Pattern>)
        requires
            self.wf(),
        ensures
            match r {
                Some(p) => self@.contains_key(key@) && p@ == self@[key@],
                None => !self@.contains_key(key@),
            },
    {
        let mut i: usize = 0;
        while i < self.entries.len()
            invariant
                self.wf(),
                0 <= i <= self.entries@.len(),
                forall|j: int| 0 <= j < i ==> (#[trigger] entry_views(self.entries@)[j]).0 != key@,
            decreases self.entries@.len() - i,
        {
            proof {
                lemma_entry_views_index(self.entries@, i as int);
            }
            if self.entries[i].0 == *key {
                proof {
                    lemma_map_of_index(entry_views(self.entries@));
                    assert(entry_views(self.entries@)[i as int].0 == key@);
                }
                return Some(&self.entries[i].1);
            }
            i += 1;
        }
        proof {
            lemma_map_of_keys(entry_views(self.entries@));
            if map_of(entry_views(self.entries@)).contains_key(key@) {
                let j = choose|j: int|
                    0 <= j < entry_views(self.entries@).len() && (#[trigger] entry_views(
                        self.entries@,
                    )[j]).0 == key@;
            }
        }
        None
    }

    /// The entries as a list of key and pattern pairs, one per distinct key;
    /// iterating it visits each binding of the map exactly once.
    pub fn entries(&self) -> (r: &Vec<(String, Pattern)>)
        ensures
            entry_views(r@) == self.entries_view(),
            map_of(entry_views(r@)) == self@,
    {
        &self.entries
    }
}

/// Decode a key-to-pattern mapping from its entries in arrival order: each
/// value is decoded as a single pattern, and a later duplicate key overwrites
/// an earlier one. Succeeds exactly when every value is valid pattern syntax;
/// on failure the error is the engine's message for the first invalid value.
pub fn decode_map(entries: &Vec<(String, String)>) -> (r: Result<PatternMap, PatternError>)
    ensures
        r is Ok <==> forall|i: int|
            0 <= i < entries@.len() ==> valid_pattern((#[trigger] entries@[i]).1@),
        r is Ok ==> r->Ok_0@ == map_of(pair_views(entries@)) && r->Ok_0.wf(),
        r is Ok ==> forall|k: Seq<char>|
            r->Ok_0@.contains_key(k) ==> valid_pattern(#[trigger] r->Ok_0@[k]),
        r is Err ==> exists|i: int|
            0 <= i < entries@.len() && !valid_pattern((#[trigger] entries@[i]).1@) && (forall|
                j: int,
            |
                0 <= j < i ==> valid_pattern((#[trigger] entries@[j]).1@)),
{
    let mut map = PatternMap::with_capacity(entries.len());
    let mut idx: usize = 0;
    while idx < entries.len()
        invariant
            0 <= idx <= entries@.len(),
            map.wf(),
            map@ == map_of(pair_views(entries@).take(idx as int)),
            forall|k: Seq<char>| map@.contains_key(k) ==> valid_pattern(#[trigger] map@[k]),
            forall|i: int| 0 <= i < idx ==> valid_pattern((#[trigger] entries@[i]).1@),
        decreases entries@.len() - idx,
    {
        let (key, source) = &entries[idx];
        match Pattern::parse(source.as_str()) {
            Ok(pattern) => {
                let owned_key = key.clone();
                proof {
                    lemma_pair_views_index(entries@, idx as int);
                    let longer = pair_views(entries@).take(idx as int + 1);
                    assert(longer.drop_last() =~= pair_views(entries@).take(idx as int));
                    assert(longer.last() == (key@, source@));
                }
                map.insert(owned_key, pattern);
            },
            Err(err) => {
                return Err(err);
            },
        }
        idx += 1;
    }
    proof {
        assert(pair_views(entries@).take(entries@.len() as int) =~= pair_views(entries@));
        assert forall|i: int| 0 <= i < entries@.len() implies valid_pattern(
            (#[trigger] entries@[i]).1@,
        ) by {
        }
    }
    Ok(map)
}

/// Encode a key-to-pattern mapping: one entry per distinct key, pairing the
/// key with its pattern's source string. The entries denote exactly the
/// mapping's bindings, in the mapping's own iteration order.
pub fn encode_map(map: &PatternMap) -> (r: Vec<(String, String)>)
    requires
        map.wf(),
    ensures
        map_of(pair_views(r@)) == map@,
        unique_keys(pair_views(r@)),
        r@.len() == map@.dom().len(),
{
    let entries = map.entries();
    let mut out: Vec<(String, String)> = Vec::with_capacity(entries.len());
    let mut idx: usize = 0;
    while idx < entries.len()
        invariant
            entry_views(entries@) == map.entries_view(),
            map_of(entry_views(entries@)) == map@,
            unique_keys(entry_views(entries@)),
            0 <= idx <= entries@.len(),
            out@.len() == idx as int,
            pair_views(out@) =~= entry_views(entries@).take(idx as int),
        decreases entries@.len() - idx,
    {
        let (key, pattern) = &entries[idx];
        out.push((key.clone(), String::from_str(pattern.source())));
        proof {
            lemma_entry_views_index(entries@, idx as int);
            assert forall|j: int| 0 <= j <= idx as int implies pair_views(out@)[j] == entry_views(
                entries@,
            ).take(idx as int + 1)[j] by {
                lemma_pair_views_index(out@, j);
            }
            assert(pair_views(out@) =~= entry_views(entries@).take(idx as int + 1));
        }
        idx += 1;
    }
    proof {
        assert(pair_views(out@) =~= entry_views(entries@));
        lemma_map_of_len(entry_views(entries@));
    }
    out
}

} // verus!
