//! The result of a batched load: a finite mapping from the keys that were
//! found to their values. A key that was asked for and not found is simply
//! absent.

use vstd::prelude::*;
use crate::keys::VersionedObjectKey;

verus! {

/// Whether some entry of `entries` stands under `key`.
pub open spec fn has_key<V>(entries: Seq<(VersionedObjectKey, V)>, key: VersionedObjectKey) -> bool {
    exists|i: int| 0 <= i < entries.len() && (#[trigger] entries[i]).0 == key
}

/// The position of an entry of `entries` that stands under `key`.
pub open spec fn slot_of<V>(entries: Seq<(VersionedObjectKey, V)>, key: VersionedObjectKey) -> int {
    choose|i: int| 0 <= i < entries.len() && (#[trigger] entries[i]).0 == key
}

/// Whether no two entries of `entries` stand under the same key.
pub open spec fn distinct_keys<V>(entries: Seq<(VersionedObjectKey, V)>) -> bool {
    forall|i: int, j: int|
        0 <= i < j < entries.len() ==> (#[trigger] entries[i]).0 != (#[trigger] entries[j]).0
}

/// The mapping that a list of entries with distinct keys stands for.
pub open spec fn mapping_of<V>(entries: Seq<(VersionedObjectKey, V)>) -> Map<VersionedObjectKey, V> {
    Map::new(
        |key: VersionedObjectKey| has_key(entries, key),
        |key: VersionedObjectKey| entries[slot_of(entries, key)].1,
    )
}

/// The keys of a list of entries, in order.
pub open spec fn keys_of<V>(entries: Seq<(VersionedObjectKey, V)>) -> Seq<VersionedObjectKey> {
    Seq::new(entries.len(), |i: int| entries[i].0)
}

/// A list of entries with distinct keys stands for a finite mapping with as
/// many keys as the list has entries.
pub proof fn lemma_mapping_len<V>(entries: Seq<(VersionedObjectKey, V)>)
    requires
        distinct_keys(entries),
    ensures
        mapping_of(entries).dom().finite(),
        mapping_of(entries).dom().len() == entries.len(),
{
    let keys = keys_of(entries);
    assert(keys.no_duplicates()) by {
        assert forall|i: int, j: int|
            0 <= i < keys.len() && 0 <= j < keys.len() && i != j implies keys[i] != keys[j] by {
            if i < j {
                assert(entries[i].0 != entries[j].0);
            } else {
                assert(entries[j].0 != entries[i].0);
            }
        }
    }
    assert(mapping_of(entries).dom() =~= keys.to_set()) by {
        assert forall|key: VersionedObjectKey|
            mapping_of(entries).dom().contains(key) == keys.to_set().contains(key) by {
            if has_key(entries, key) {
                let i = slot_of(entries, key);
                assert(keys[i] == key);
            }
            if keys.contains(key) {
                let i = choose|i: int| 0 <= i < keys.len() && keys[i] == key;
                assert(entries[i].0 == key);
            }
        }
    }
    vstd::seq_lib::seq_to_set_is_finite(keys);
    keys.unique_seq_to_set();
}

/// A finite mapping from versioned keys to values.
pub struct Loaded<V> {
    entries: Vec<(VersionedObjectKey, V)>,
}

impl<V> View for Loaded<V> {
    type V = Map<VersionedObjectKey, V>;

    closed spec fn view(&self) -> Map<VersionedObjectKey, V> {
        mapping_of(self.entries@)
    }
}

impl<V> Loaded<V> {
    /// Whether the mapping is well formed: no key is held twice. Every
    /// mapping that this module hands out is well formed.
    pub closed spec fn wf(&self) -> bool {
        distinct_keys(self.entries@)
    }

    /// The mapping with no key.
    pub fn new() -> (loaded: Loaded<V>)
        ensures
            loaded.wf(),
            loaded@ == Map::<VersionedObjectKey, V>::empty(),
    {
        let loaded = Loaded { entries: Vec::new() };
        assert(loaded@ =~= Map::<VersionedObjectKey, V>::empty());
        loaded
    }

    /// The number of keys in the mapping.
    pub fn len(&self) -> (n: usize)
        requires
            self.wf(),
        ensures
            self@.dom().finite(),
            n == self@.dom().len(),
    {
        proof {
            lemma_mapping_len(self.entries@);
        }
        self.entries.len()
    }

    /// Whether the mapping has no key.
    pub fn is_empty(&self) -> (empty: bool)
        ensures
            empty == (self@ == Map::<VersionedObjectKey, V>::empty()),
    {
        let empty = self.entries.len() == 0;
        proof {
            if empty {
                assert(self@ =~= Map::<VersionedObjectKey, V>::empty());
            } else {
                assert(has_key(self.entries@, self.entries@[0].0));
                assert(self@.contains_key(self.entries@[0].0));
            }
        }
        empty
    }

    /// The position of the entry under `key`, if there is one.
    fn find(&self, key: &VersionedObjectKey) -> (slot: Option<usize>)
        ensures
            match slot {
                Some(i) => i < self.entries@.len() && self.entries@[i as int].0 == *key,
                None => !has_key(self.entries@, *key),
            },
    {
        let mut i: usize = 0;
        while i < self.entries.len()
            invariant
                i <= self.entries@.len(),
                forall|j: int| 0 <= j < i ==> (#[trigger] self.entries@[j]).0 != *key,
            decreases self.entries@.len() - i,
        {
            if self.entries[i].0 == *key {
                return Some(i);
            }
            i += 1;
        }
        None
    }

    /// Whether the mapping has `key`.
    pub fn contains_key(&self, key: &VersionedObjectKey) -> (found: bool)
        ensures
            found == self@.contains_key(*key),
    {
        self.find(key).is_some()
    }

    /// The value under `key`, or nothing where the mapping has no such key.
    pub fn get(&self, key: &VersionedObjectKey) -> (value: Option<&V>)
        requires
            self.wf(),
        ensures
            match value {
                Some(v) => self@.contains_key(*key) && *v == self@[*key],
                None => !self@.contains_key(*key),
            },
    {
        match self.find(key) {
            Some(i) => {
                proof {
                    lemma_slot(self.entries@, i as int);
                }
                Some(&self.entries[i].1)
            },
            None => None,
        }
    }

    /// Puts `value` under `key`. A value that stood under `key` before is
    /// replaced: the last write wins.
    pub fn insert(&mut self, key: VersionedObjectKey, value: V)
        requires
            old(self).wf(),
        ensures
            final(self).wf(),
            final(self)@ == old(self)@.insert(key, value),
    {
        let ghost before = self.entries@;
        match self.find(&key) {
            Some(i) => {
                self.entries[i] = (key, value);
                proof {
                    lemma_replace(before, i as int, key, value);
                }
            },
            None => {
                self.entries.push((key, value));
                proof {
                    lemma_append(before, key, value);
                }
            },
        }
    }

    /// The entries of the mapping, each key once, in no particular order.
    pub fn into_entries(self) -> (entries: Vec<(VersionedObjectKey, V)>)
        requires
            self.wf(),
        ensures
            distinct_keys(entries@),
            mapping_of(entries@) == self@,
    {
        self.entries
    }
}

/// In a list with distinct keys, the entry under a key is the one at the
/// position where the key stands.
pub proof fn lemma_slot<V>(entries: Seq<(VersionedObjectKey, V)>, i: int)
    requires
        distinct_keys(entries),
        0 <= i < entries.len(),
    ensures
        has_key(entries, entries[i].0),
        slot_of(entries, entries[i].0) == i,
        mapping_of(entries).contains_key(entries[i].0),
        mapping_of(entries)[entries[i].0] == entries[i].1,
{
    let key = entries[i].0;
    assert(has_key(entries, key));
    let s = slot_of(entries, key);
    if s < i {
        assert(entries[s].0 != entries[i].0);
    } else if i < s {
        assert(entries[i].0 != entries[s].0);
    }
}

/// Writing a new value at the position of a key gives the mapping with that
/// key set to the value.
proof fn lemma_replace<V>(before: Seq<(VersionedObjectKey, V)>, i: int, key: VersionedObjectKey, value: V)
    requires
        distinct_keys(before),
        0 <= i < before.len(),
        before[i].0 == key,
    ensures
        distinct_keys(before.update(i, (key, value))),
        mapping_of(before.update(i, (key, value))) == mapping_of(before).insert(key, value),
{
    let after = before.update(i, (key, value));
    assert forall|a: int, b: int| 0 <= a < b < after.len() implies (#[trigger] after[a]).0 != (
    #[trigger] after[b]).0 by {
        assert(after[a].0 == before[a].0);
        assert(after[b].0 == before[b].0);
        assert(before[a].0 != before[b].0);
    }
    assert forall|k: VersionedObjectKey| has_key(after, k) == (has_key(before, k) || k == key) by {
        if has_key(after, k) {
            let s = slot_of(after, k);
            assert(before[s].0 == k);
        }
        if has_key(before, k) {
            let s = slot_of(before, k);
            assert(after[s].0 == k);
        }
        if k == key {
            assert(after[i].0 == k);
        }
    }
    assert forall|k: VersionedObjectKey| has_key(after, k) implies mapping_of(after)[k] == mapping_of(
        before,
    ).insert(key, value)[k] by {
        let s = slot_of(after, k);
        lemma_slot(after, s);
        if k == key {
            lemma_slot(after, i);
        } else {
            assert(s != i);
            assert(before[s].0 == k);
            lemma_slot(before, s);
        }
    }
    assert(mapping_of(after) =~= mapping_of(before).insert(key, value));
}

/// Adding an entry under a key that the list lacks gives the mapping with
/// that key set to the value.
proof fn lemma_append<V>(before: Seq<(VersionedObjectKey, V)>, key: VersionedObjectKey, value: V)
    requires
        distinct_keys(before),
        !has_key(before, key),
    ensures
        distinct_keys(before.push((key, value))),
        mapping_of(before.push((key, value))) == mapping_of(before).insert(key, value),
{
    let after = before.push((key, value));
    let n = before.len() as int;
    assert forall|a: int, b: int| 0 <= a < b < after.len() implies (#[trigger] after[a]).0 != (
    #[trigger] after[b]).0 by {
        assert(after[a].0 == before[a].0);
        if b < n {
            assert(after[b].0 == before[b].0);
            assert(before[a].0 != before[b].0);
        } else {
            assert(after[b].0 == key);
            assert(before[a].0 != key);
        }
    }
    assert forall|k: VersionedObjectKey| has_key(after, k) == (has_key(before, k) || k == key) by {
        if has_key(after, k) {
            let s = slot_of(after, k);
            if s < n {
                assert(before[s].0 == k);
            }
        }
        if has_key(before, k) {
            let s = slot_of(before, k);
            assert(after[s].0 == k);
        }
        if k == key {
            assert(after[n].0 == k);
        }
    }
    assert forall|k: VersionedObjectKey| has_key(after, k) implies mapping_of(after)[k] == mapping_of(
        before,
    ).insert(key, value)[k] by {
        let s = slot_of(after, k);
        lemma_slot(after, s);
        if k == key {
            lemma_slot(after, n);
        } else {
            assert(s < n);
            assert(before[s].0 == k);
            lemma_slot(before, s);
        }
    }
    assert(mapping_of(after) =~= mapping_of(before).insert(key, value));
}

} // verus!

verus! {

/// What a batch loader decides when it is handed its keys: either the load is
/// over without the backend, or one round trip is due.
pub enum LoadStep<Q, V> {
    /// Nothing to ask: the result is at hand.
    Finished(Loaded<V>),
    /// One round trip to the backend, with this request.
    RoundTrip(Q),
}

impl<Q, V> LoadStep<Q, V> {
    /// The number of round trips to the backend that the step calls for.
    pub open spec fn round_trips(&self) -> nat {
        match self {
            LoadStep::Finished(_) => 0,
            LoadStep::RoundTrip(_) => 1,
        }
    }
}

} // verus!
