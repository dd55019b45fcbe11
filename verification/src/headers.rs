//! Case-insensitive, multi-valued header map.
//!
//! Header pairs arrive in order, possibly with repeated names. Aggregation
//! keys them by the explicit ASCII-lowercased form of the name: a repeated
//! name collapses into one key whose values keep their arrival order, and
//! keys themselves stand in order of first arrival, so iterating a map is
//! stable. Lookup lowercases its argument, so it is case-insensitive.

use vstd::prelude::*;

use crate::text::{copy_bytes, lemma_lower_chars_idempotent, lower_chars, lower_string};

verus! {

/// One distinct header key with its arrival-ordered values.
pub struct HeaderEntry {
    /// The lowercased header name.
    pub name: String,
    /// Every value that arrived under this name, oldest first.
    pub values: Vec<Vec<u8>>,
}

/// All headers of one request, keyed by lowercased name, in order of each
/// key's first arrival.
pub struct HeaderMap {
    /// The distinct keys, each with its values.
    pub entries: Vec<HeaderEntry>,
}

/// The byte sequences held by a list of owned values.
pub open spec fn views_of(values: Seq<Vec<u8>>) -> Seq<Seq<u8>> {
    values.map_values(|v: Vec<u8>| v@)
}

/// The names of a list of entries, in order.
pub open spec fn entry_names(entries: Seq<HeaderEntry>) -> Seq<Seq<char>> {
    entries.map_values(|e: HeaderEntry| e.name@)
}

/// The values of every pair whose lowercased name is `key`, in arrival order.
pub open spec fn values_for(pairs: Seq<(String, Vec<u8>)>, key: Seq<char>) -> Seq<Seq<u8>>
    decreases pairs.len(),
{
    if pairs.len() == 0 {
        Seq::empty()
    } else if lower_chars(pairs.last().0@) == key {
        values_for(pairs.drop_last(), key).push(pairs.last().1@)
    } else {
        values_for(pairs.drop_last(), key)
    }
}

/// The distinct lowercased names of the pairs, in order of first arrival.
pub open spec fn arrival_keys(pairs: Seq<(String, Vec<u8>)>) -> Seq<Seq<char>>
    decreases pairs.len(),
{
    if pairs.len() == 0 {
        Seq::empty()
    } else {
        let rest = arrival_keys(pairs.drop_last());
        if rest.contains(lower_chars(pairs.last().0@)) {
            rest
        } else {
            rest.push(lower_chars(pairs.last().0@))
        }
    }
}

/// The values of the first entry named `key`, if any.
pub open spec fn spec_find(entries: Seq<HeaderEntry>, key: Seq<char>) -> Option<Seq<Seq<u8>>>
    decreases entries.len(),
{
    if entries.len() == 0 {
        None
    } else if entries[0].name@ == key {
        Some(views_of(entries[0].values@))
    } else {
        spec_find(entries.drop_first(), key)
    }
}

impl HeaderMap {
    /// The keys of the map, in iteration order.
    pub open spec fn names(self) -> Seq<Seq<char>> {
        entry_names(self.entries@)
    }

    /// Well-formed: every key is in lowercased form and no key repeats.
    pub open spec fn wf(self) -> bool {
        &&& forall|i: int|
            0 <= i < self.entries@.len() ==> #[trigger] self.entries@[i].name@ == lower_chars(
                self.entries@[i].name@,
            )
        &&& forall|i: int, j: int|
            0 <= i < j < self.entries@.len() ==> self.entries@[i].name@ != self.entries@[j].name@
    }

    /// What lookup returns for an already-lowercased key.
    pub open spec fn spec_get(self, key: Seq<char>) -> Option<Seq<Seq<u8>>> {
        spec_find(self.entries@, key)
    }

    /// The map is exactly the aggregation of the given arrival-ordered
    /// pairs: well-formed, keys in order of first arrival, and each key
    /// holding the arrival-ordered values of the pairs that bear it.
    pub open spec fn is_aggregate_of(self, pairs: Seq<(String, Vec<u8>)>) -> bool {
        &&& self.wf()
        &&& self.names() == arrival_keys(pairs)
        &&& forall|i: int|
            0 <= i < self.entries@.len() ==> #[trigger] views_of(self.entries@[i].values@)
                == values_for(pairs, self.entries@[i].name@)
    }

    /// Aggregate arrival-ordered header pairs into a map.
    pub fn from_pairs(pairs: &Vec<(String, Vec<u8>)>) -> (r: HeaderMap)
        ensures
            r.is_aggregate_of(pairs@),
    {
        let mut entries: Vec<HeaderEntry> = Vec::new();
        let mut i: usize = 0;
        while i < pairs.len()
            invariant
                i <= pairs@.len(),
                entry_names(entries@) == arrival_keys(pairs@.take(i as int)),
                forall|k: int|
                    0 <= k < entries@.len() ==> #[trigger] entries@[k].name@ == lower_chars(
                        entries@[k].name@,
                    ),
                forall|k: int, l: int|
                    0 <= k < l < entries@.len() ==> entries@[k].name@ != entries@[l].name@,
                forall|k: int|
                    0 <= k < entries@.len() ==> #[trigger] views_of(entries@[k].values@)
                        == values_for(pairs@, entries@[k].name@),
            decreases pairs@.len() - i,
        {
            let key = lower_string(pairs[i].0.as_str());
            proof {
                assert(pairs@.take(i + 1).drop_last() =~= pairs@.take(i as int));
                assert(pairs@.take(i + 1).last() == pairs@[i as int]);
            }
            if !contains_name(&entries, &key) {
                let values = collect_values(pairs, &key);
                proof {
                    lemma_lower_chars_idempotent(pairs@[i as int].0@);
                }
                let ghost old_entries = entries@;
                entries.push(HeaderEntry { name: key, values });
                proof {
                    assert(forall|k: int|
                        0 <= k < old_entries.len() ==> #[trigger] old_entries[k].name@
                            == entry_names(old_entries)[k]);
                    assert(forall|k: int|
                        0 <= k < old_entries.len() ==> #[trigger] old_entries[k].name@ != key@);
                    assert(entry_names(entries@) =~= entry_names(old_entries).push(
                        arrival_keys(pairs@.take(i + 1)).last(),
                    ));
                    assert(entry_names(entries@) =~= arrival_keys(pairs@.take(i + 1)));
                }
            }
            i = i + 1;
        }
        proof {
            assert(pairs@.take(pairs@.len() as int) =~= pairs@);
        }
        HeaderMap { entries }
    }

    /// Look a header up by name, case-insensitively.
    ///
    /// Returns the arrival-ordered values stored under the lowercased form
    /// of `name`, or `None` when no such key exists.
    pub fn get<'a>(&'a self, name: &str) -> (r: Option<&'a Vec<Vec<u8>>>)
        ensures
            r is Some <==> self.spec_get(lower_chars(name@)) is Some,
            r matches Some(v) ==> self.spec_get(lower_chars(name@)) == Some(views_of(v@)),
    {
        let key = lower_string(name);
        proof {
            assert(self.entries@.skip(0) =~= self.entries@);
        }
        let mut i: usize = 0;
        while i < self.entries.len()
            invariant
                i <= self.entries@.len(),
                key@ == lower_chars(name@),
                spec_find(self.entries@, key@) == spec_find(
                    self.entries@.skip(i as int),
                    key@,
                ),
            decreases self.entries@.len() - i,
        {
            proof {
                assert(self.entries@.skip(i as int)[0] == self.entries@[i as int]);
            }
            if self.entries[i].name == key {
                return Some(&self.entries[i].values);
            }
            proof {
                assert(self.entries@.skip(i as int).drop_first() =~= self.entries@.skip(i + 1));
            }
            i = i + 1;
        }
        proof {
            assert(self.entries@.skip(self.entries@.len() as int) =~= Seq::<HeaderEntry>::empty());
        }
        None
    }
}

/// `spec_find` succeeds exactly on the names that occur among the entries.
proof fn lemma_spec_find_contains(entries: Seq<HeaderEntry>, key: Seq<char>)
    ensures
        spec_find(entries, key) is Some <==> entry_names(entries).contains(key),
    decreases entries.len(),
{
    if entries.len() == 0 {
    } else if entries[0].name@ == key {
        assert(entry_names(entries)[0] == key);
    } else {
        let rest = entries.drop_first();
        lemma_spec_find_contains(rest, key);
        assert(forall|k: int| 0 <= k < rest.len() ==> #[trigger] rest[k] == entries[k + 1]);
        if entry_names(rest).contains(key) {
            let j = choose|j: int| 0 <= j < rest.len() && entry_names(rest)[j] == key;
            assert(entry_names(entries)[j + 1] == key);
        }
        if entry_names(entries).contains(key) {
            let j = choose|j: int| 0 <= j < entries.len() && entry_names(entries)[j] == key;
            assert(j != 0);
            assert(entry_names(rest)[j - 1] == key);
        }
    }
}

/// With unique names, `spec_find` returns the values of the entry that
/// bears the key.
proof fn lemma_spec_find_at(entries: Seq<HeaderEntry>, key: Seq<char>, i: int)
    requires
        0 <= i < entries.len(),
        entries[i].name@ == key,
        forall|k: int, l: int| 0 <= k < l < entries.len() ==> entries[k].name@ != entries[l].name@,
    ensures
        spec_find(entries, key) == Some(views_of(entries[i].values@)),
    decreases entries.len(),
{
    if entries[0].name@ == key {
        assert(i == 0);
    } else {
        let rest = entries.drop_first();
        assert(forall|k: int| 0 <= k < rest.len() ==> #[trigger] rest[k] == entries[k + 1]);
        lemma_spec_find_at(rest, key, i - 1);
    }
}

/// A key occurs among the arrival keys exactly when some pair bears it.
proof fn lemma_arrival_keys_contains(pairs: Seq<(String, Vec<u8>)>, key: Seq<char>)
    ensures
        arrival_keys(pairs).contains(key) <==> exists|i: int|
            0 <= i < pairs.len() && lower_chars(pairs[i].0@) == key,
    decreases pairs.len(),
{
    if pairs.len() == 0 {
    } else {
        let prefix = pairs.drop_last();
        lemma_arrival_keys_contains(prefix, key);
        let rest = arrival_keys(prefix);
        let lastk = lower_chars(pairs.last().0@);
        assert(forall|k: int| 0 <= k < prefix.len() ==> #[trigger] prefix[k] == pairs[k]);
        if lastk == key {
            assert(lower_chars(pairs[pairs.len() - 1].0@) == key);
            if !rest.contains(key) {
                assert(rest.push(key)[rest.len() as int] == key);
            }
        } else {
            if rest.contains(key) {
                let j = choose|j: int| 0 <= j < rest.len() && rest[j] == key;
                assert(rest.push(lastk)[j] == key);
            }
            if arrival_keys(pairs).contains(key) {
                let j = choose|j: int|
                    0 <= j < arrival_keys(pairs).len() && arrival_keys(pairs)[j] == key;
                if !rest.contains(lastk) {
                    assert(j < rest.len());
                    assert(rest[j] == key);
                }
            }
            if exists|i: int| 0 <= i < pairs.len() && lower_chars(pairs[i].0@) == key {
                let i = choose|i: int| 0 <= i < pairs.len() && lower_chars(pairs[i].0@) == key;
                assert(i < prefix.len());
                assert(lower_chars(prefix[i].0@) == key);
            }
        }
    }
}

/// Aggregation law: looking any name up in the aggregation of arrival-
/// ordered header pairs yields exactly the values of the pairs whose names
/// match it case-insensitively, in arrival order — and nothing when no
/// pair's name matches.
pub proof fn lemma_aggregate_get(m: HeaderMap, pairs: Seq<(String, Vec<u8>)>, name: Seq<char>)
    requires
        m.is_aggregate_of(pairs),
    ensures
        (exists|i: int| 0 <= i < pairs.len() && lower_chars(pairs[i].0@) == lower_chars(name))
            ==> m.spec_get(lower_chars(name)) == Some(values_for(pairs, lower_chars(name))),
        !(exists|i: int| 0 <= i < pairs.len() && lower_chars(pairs[i].0@) == lower_chars(name))
            ==> m.spec_get(lower_chars(name)) is None,
{
    let key = lower_chars(name);
    lemma_arrival_keys_contains(pairs, key);
    lemma_spec_find_contains(m.entries@, key);
    if m.names().contains(key) {
        let j = choose|j: int| 0 <= j < m.names().len() && m.names()[j] == key;
        assert(m.entries@[j].name@ == key);
        lemma_spec_find_at(m.entries@, key, j);
        assert(views_of(m.entries@[j].values@) == values_for(pairs, key));
    }
}

/// Case-insensitive lookup law: two names that agree up to ASCII case reach
/// the same entry of any header map.
pub proof fn lemma_get_case_insensitive(m: HeaderMap, a: Seq<char>, b: Seq<char>)
    requires
        lower_chars(a) == lower_chars(b),
    ensures
        m.spec_get(lower_chars(a)) == m.spec_get(lower_chars(b)),
{
}

/// Whether some entry already bears this name.
fn contains_name(entries: &Vec<HeaderEntry>, key: &String) -> (r: bool)
    ensures
        r == entry_names(entries@).contains(key@),
{
    let mut i: usize = 0;
    while i < entries.len()
        invariant
            i <= entries@.len(),
            forall|j: int| 0 <= j < i ==> entry_names(entries@)[j] != key@,
        decreases entries@.len() - i,
    {
        if entries[i].name == *key {
            proof {
                assert(entry_names(entries@)[i as int] == key@);
            }
            return true;
        }
        i = i + 1;
    }
    false
}

/// Collect, in arrival order, the values of every pair whose lowercased
/// name is `key`.
fn collect_values(pairs: &Vec<(String, Vec<u8>)>, key: &String) -> (r: Vec<Vec<u8>>)
    ensures
        views_of(r@) == values_for(pairs@, key@),
{
    let mut r: Vec<Vec<u8>> = Vec::new();
    let mut j: usize = 0;
    while j < pairs.len()
        invariant
            j <= pairs@.len(),
            views_of(r@) == values_for(pairs@.take(j as int), key@),
        decreases pairs@.len() - j,
    {
        proof {
            assert(pairs@.take(j + 1).drop_last() =~= pairs@.take(j as int));
            assert(pairs@.take(j + 1).last() == pairs@[j as int]);
        }
        let low = lower_string(pairs[j].0.as_str());
        if low == *key {
            let ghost old_values = r@;
            let v = copy_bytes(&pairs[j].1);
            r.push(v);
            proof {
                assert(views_of(r@) =~= views_of(old_values).push(pairs@[j as int].1@));
            }
        }
        j = j + 1;
    }
    proof {
        assert(pairs@.take(pairs@.len() as int) =~= pairs@);
    }
    r
}

} // verus!
