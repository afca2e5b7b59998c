//! The batch loader of the metadata store: one query for all the keys of a
//! batch, and the rows that come back matched to the keys that asked for
//! them.
//!
//! Rows come back in no promised order, and one identifier may stand in a
//! batch at several versions. So the rows are first indexed by identifier
//! and version, and the keys are then looked up in that index.

use vstd::prelude::*;
use crate::keys::VersionedObjectKey;
use crate::loaded::{Loaded, LoadStep};
use crate::records::StoredObject;

verus! {

/// One alternative of the batch query: the row with these identifier bytes
/// at this version.
#[derive(Clone, Debug, PartialEq, Eq)]
pub struct RowFilter {
    /// The identifier column must equal these bytes.
    pub object_id: Vec<u8>,
    /// The version column must equal this number.
    pub object_version: i64,
}

impl RowFilter {
    /// Whether the filter is the one that asks for `key`: the key's
    /// identifier bytes, and its version as the signed column spells it.
    pub open spec fn asks_for(&self, key: VersionedObjectKey) -> bool {
        self.object_id@ == key.0.bytes() && self.object_version == key.1 as i64
    }

    /// Whether the filter lets `row` through.
    pub open spec fn selects(&self, row: StoredObject) -> bool {
        row.object_id@ == self.object_id@ && row.object_version == self.object_version
    }
}

/// Whether `filters` is the query for `keys`: one alternative per key, in
/// the order of the keys.
pub open spec fn is_query_for(filters: Seq<RowFilter>, keys: Seq<VersionedObjectKey>) -> bool {
    &&& filters.len() == keys.len()
    &&& forall|i: int| 0 <= i < keys.len() ==> (#[trigger] filters[i]).asks_for(keys[i])
}

/// Whether some row of `rows` answers `key`.
pub open spec fn has_answer(rows: Seq<StoredObject>, key: VersionedObjectKey) -> bool {
    exists|i: int| 0 <= i < rows.len() && (#[trigger] rows[i]).answers(key)
}

/// Whether the row at `i` is the last row of `rows` that answers `key`.
pub open spec fn is_last_answer(rows: Seq<StoredObject>, key: VersionedObjectKey, i: int) -> bool {
    &&& 0 <= i < rows.len()
    &&& rows[i].answers(key)
    &&& forall|j: int| i < j < rows.len() ==> !(#[trigger] rows[j]).answers(key)
}

/// Whether `loaded` is what the rows give for the keys: it holds exactly the
/// keys asked for that some row answers, each with the values of the last
/// row that answers it.
pub open spec fn projects(
    keys: Seq<VersionedObjectKey>,
    rows: Seq<StoredObject>,
    loaded: Map<VersionedObjectKey, StoredObject>,
) -> bool {
    &&& forall|key: VersionedObjectKey| #[trigger]
        loaded.contains_key(key) <==> keys.contains(key) && has_answer(rows, key)
    &&& forall|key: VersionedObjectKey| #[trigger]
        loaded.contains_key(key) ==> exists|i: int| #[trigger]
            is_last_answer(rows, key, i) && loaded[key]@ == rows[i]@
}

/// Starts a batched load of `keys`. An empty batch is over at once, with the
/// empty mapping and without the backend. Any other batch calls for exactly
/// one round trip, whose query holds one alternative for each key.
pub fn begin_load(keys: &[VersionedObjectKey]) -> (step: LoadStep<Vec<RowFilter>, StoredObject>)
    ensures
        step.round_trips() == (if keys@.len() == 0 { 0nat } else { 1nat }),
        match step {
            LoadStep::Finished(loaded) => loaded.wf() && loaded@ == Map::<
                VersionedObjectKey,
                StoredObject,
            >::empty(),
            LoadStep::RoundTrip(filters) => is_query_for(filters@, keys@),
        },
{
    if keys.len() == 0 {
        return LoadStep::Finished(Loaded::new());
    }
    let mut filters: Vec<RowFilter> = Vec::new();
    let mut i: usize = 0;
    while i < keys.len()
        invariant
            i <= keys@.len(),
            filters@.len() == i,
            forall|j: int| 0 <= j < i ==> (#[trigger] filters@[j]).asks_for(keys@[j]),
        decreases keys@.len() - i,
    {
        let key = keys[i];
        filters.push(RowFilter { object_id: key.0.into_bytes(), object_version: key.1 as i64 });
        i += 1;
    }
    LoadStep::RoundTrip(filters)
}

/// Whether two byte strings hold the same bytes.
fn same_bytes(a: &[u8], b: &[u8]) -> (same: bool)
    ensures
        same == (a@ == b@),
{
    if a.len() != b.len() {
        return false;
    }
    let mut i: usize = 0;
    while i < a.len()
        invariant
            i <= a@.len(),
            a@.len() == b@.len(),
            forall|j: int| 0 <= j < i ==> a@[j] == b@[j],
        decreases a@.len() - i,
    {
        if a[i] != b[i] {
            return false;
        }
        i += 1;
    }
    assert(a@ =~= b@);
    true
}

/// Whether two rows stand under the same identifier and version.
pub open spec fn same_pair(a: StoredObject, b: StoredObject) -> bool {
    a.object_id@ == b.object_id@ && a.object_version == b.object_version
}

/// The row that slot `s` of an index points at.
pub open spec fn held(rows: Seq<StoredObject>, slots: Seq<usize>, s: int) -> StoredObject {
    rows[slots[s] as int]
}

/// Whether every slot points at one of the first `n` rows.
pub open spec fn slots_in_range(slots: Seq<usize>, n: int) -> bool {
    forall|s: int| 0 <= s < slots.len() ==> 0 <= #[trigger] slots[s] < n
}

/// Whether no two slots point at rows with the same identifier and version.
pub open spec fn slots_distinct(rows: Seq<StoredObject>, slots: Seq<usize>) -> bool {
    forall|s: int, t: int|
        0 <= s < t < slots.len() ==> !same_pair(
            #[trigger] held(rows, slots, s),
            #[trigger] held(rows, slots, t),
        )
}

/// Whether some slot points at a row with the pair of row `j` that stands
/// at `j` or later.
pub open spec fn represented(rows: Seq<StoredObject>, slots: Seq<usize>, j: int) -> bool {
    exists|s: int|
        0 <= s < slots.len() && j <= slots[s] && same_pair(#[trigger] held(rows, slots, s), rows[j])
}

/// Whether `slots` is an index of the first `n` rows of `rows`: each pair
/// among them has one slot, which points at the last of those rows with
/// that pair.
pub open spec fn is_index(rows: Seq<StoredObject>, slots: Seq<usize>, n: int) -> bool {
    &&& 0 <= n <= rows.len()
    &&& slots_in_range(slots, n)
    &&& slots_distinct(rows, slots)
    &&& forall|j: int| 0 <= j < n ==> #[trigger] represented(rows, slots, j)
}

/// Pointing the slot of a pair at a newer row with the same pair keeps the
/// index, now with that row covered.
proof fn lemma_overwrite(rows: Seq<StoredObject>, slots: Seq<usize>, s: int, j: usize)
    requires
        is_index(rows, slots, j as int),
        j < rows.len(),
        0 <= s < slots.len(),
        same_pair(held(rows, slots, s), rows[j as int]),
    ensures
        is_index(rows, slots.update(s, j), j + 1),
{
    let after = slots.update(s, j);
    assert forall|a: int, b: int| 0 <= a < b < after.len() implies !same_pair(
        #[trigger] held(rows, after, a),
        #[trigger] held(rows, after, b),
    ) by {
        assert(!same_pair(held(rows, slots, a), held(rows, slots, b)));
    }
    assert forall|i: int| 0 <= i < j + 1 implies #[trigger] represented(rows, after, i) by {
        if i < j {
            assert(represented(rows, slots, i));
            let t = choose|t: int|
                0 <= t < slots.len() && i <= slots[t] && same_pair(
                    #[trigger] held(rows, slots, t),
                    rows[i],
                );
            assert(same_pair(held(rows, after, t), rows[i]));
        } else {
            assert(same_pair(held(rows, after, s), rows[i]));
        }
    }
}

/// Adding a slot for a row whose pair the index lacks keeps the index, now
/// with that row covered.
proof fn lemma_extend(rows: Seq<StoredObject>, slots: Seq<usize>, j: usize)
    requires
        is_index(rows, slots, j as int),
        j < rows.len(),
        forall|s: int| 0 <= s < slots.len() ==> !same_pair(#[trigger] held(rows, slots, s), rows[j as int]),
    ensures
        is_index(rows, slots.push(j), j + 1),
{
    let after = slots.push(j);
    let last = slots.len() as int;
    assert forall|a: int, b: int| 0 <= a < b < after.len() implies !same_pair(
        #[trigger] held(rows, after, a),
        #[trigger] held(rows, after, b),
    ) by {
        if b < last {
            assert(!same_pair(held(rows, slots, a), held(rows, slots, b)));
        } else {
            assert(!same_pair(held(rows, slots, a), rows[j as int]));
        }
    }
    assert forall|i: int| 0 <= i < j + 1 implies #[trigger] represented(rows, after, i) by {
        if i < j {
            assert(represented(rows, slots, i));
            let t = choose|t: int|
                0 <= t < slots.len() && i <= slots[t] && same_pair(
                    #[trigger] held(rows, slots, t),
                    rows[i],
                );
            assert(same_pair(held(rows, after, t), rows[i]));
        } else {
            assert(same_pair(held(rows, after, last), rows[i]));
        }
    }
}

/// In an index of all rows, a slot that points at a row that answers `key`
/// points at the last row that answers it.
proof fn lemma_hit(rows: Seq<StoredObject>, slots: Seq<usize>, s: int, key: VersionedObjectKey)
    requires
        is_index(rows, slots, rows.len() as int),
        0 <= s < slots.len(),
        held(rows, slots, s).answers(key),
    ensures
        is_last_answer(rows, key, slots[s] as int),
{
    let at = slots[s] as int;
    assert forall|j: int| at < j < rows.len() implies !(#[trigger] rows[j]).answers(key) by {
        if rows[j].answers(key) {
            lemma_answers_same_pair(rows[j], rows[at], key);
            assert(represented(rows, slots, j));
            let t = choose|t: int|
                0 <= t < slots.len() && j <= slots[t] && same_pair(
                    #[trigger] held(rows, slots, t),
                    rows[j],
                );
            if t < s {
                assert(!same_pair(held(rows, slots, t), held(rows, slots, s)));
            } else if s < t {
                assert(!same_pair(held(rows, slots, s), held(rows, slots, t)));
            }
        }
    }
}

/// In an index of all rows, if no slot points at a row that answers `key`,
/// no row answers it.
proof fn lemma_miss(rows: Seq<StoredObject>, slots: Seq<usize>, key: VersionedObjectKey)
    requires
        is_index(rows, slots, rows.len() as int),
        forall|s: int| 0 <= s < slots.len() ==> !(#[trigger] held(rows, slots, s)).answers(key),
    ensures
        !has_answer(rows, key),
{
    assert forall|j: int| 0 <= j < rows.len() implies !(#[trigger] rows[j]).answers(key) by {
        assert(represented(rows, slots, j));
        let t = choose|t: int|
            0 <= t < slots.len() && j <= slots[t] && same_pair(
                #[trigger] held(rows, slots, t),
                rows[j],
            );
        assert(!held(rows, slots, t).answers(key));
    }
}

/// An index of rows by identifier and version. For each pair that occurs
/// among the rows it holds the position of the last row with that pair: of
/// two rows with one pair, the later one wins.
pub struct RowIndex {
    slots: Vec<usize>,
}

impl RowIndex {
    /// Whether the index is an index of all of `rows`.
    pub closed spec fn indexes(&self, rows: Seq<StoredObject>) -> bool {
        is_index(rows, self.slots@, rows.len() as int)
    }

    /// The slot among `slots` that points at a row with the pair of `row`,
    /// if any.
    fn slot_of(slots: &Vec<usize>, rows: &Vec<StoredObject>, row: &StoredObject) -> (slot: Option<usize>)
        requires
            slots_in_range(slots@, rows@.len() as int),
        ensures
            match slot {
                Some(s) => s < slots@.len() && same_pair(held(rows@, slots@, s as int), *row),
                None => forall|s: int|
                    0 <= s < slots@.len() ==> !same_pair(#[trigger] held(rows@, slots@, s), *row),
            },
    {
        let mut s: usize = 0;
        while s < slots.len()
            invariant
                s <= slots@.len(),
                slots_in_range(slots@, rows@.len() as int),
                forall|t: int| 0 <= t < s ==> !same_pair(#[trigger] held(rows@, slots@, t), *row),
            decreases slots@.len() - s,
        {
            let at = slots[s];
            let other = &rows[at];
            if other.object_version == row.object_version && same_bytes(
                other.object_id.as_slice(),
                row.object_id.as_slice(),
            ) {
                return Some(s);
            }
            s += 1;
        }
        None
    }

    /// Builds the index of `rows`.
    pub fn build(rows: &Vec<StoredObject>) -> (index: RowIndex)
        ensures
            index.indexes(rows@),
    {
        let mut slots: Vec<usize> = Vec::new();
        let mut j: usize = 0;
        while j < rows.len()
            invariant
                j <= rows@.len(),
                is_index(rows@, slots@, j as int),
            decreases rows@.len() - j,
        {
            match Self::slot_of(&slots, rows, &rows[j]) {
                Some(s) => {
                    proof {
                        lemma_overwrite(rows@, slots@, s as int, j);
                    }
                    slots[s] = j;
                },
                None => {
                    proof {
                        lemma_extend(rows@, slots@, j);
                    }
                    slots.push(j);
                },
            }
            j += 1;
        }
        RowIndex { slots }
    }

    /// Looks `key` up: the position of the last row that answers it, or
    /// nothing where no row does.
    pub fn lookup(&self, rows: &Vec<StoredObject>, key: &VersionedObjectKey) -> (found: Option<usize>)
        requires
            self.indexes(rows@),
        ensures
            match found {
                Some(i) => is_last_answer(rows@, *key, i as int),
                None => !has_answer(rows@, *key),
            },
    {
        let mut s: usize = 0;
        while s < self.slots.len()
            invariant
                s <= self.slots@.len(),
                is_index(rows@, self.slots@, rows@.len() as int),
                forall|t: int| 0 <= t < s ==> !(#[trigger] held(rows@, self.slots@, t)).answers(*key),
            decreases self.slots@.len() - s,
        {
            let at = self.slots[s];
            let other = &rows[at];
            if other.version() == key.1 && key.0.matches_bytes(other.object_id.as_slice()) {
                proof {
                    assert(held(rows@, self.slots@, s as int).answers(*key));
                    lemma_hit(rows@, self.slots@, s as int, *key);
                }
                return Some(at);
            }
            s += 1;
        }
        proof {
            lemma_miss(rows@, self.slots@, *key);
        }
        None
    }
}

/// Two rows that answer one key stand under the same identifier and version.
pub proof fn lemma_answers_same_pair(a: StoredObject, b: StoredObject, key: VersionedObjectKey)
    requires
        a.answers(key),
        b.answers(key),
    ensures
        same_pair(a, b),
{
    let x = a.object_version;
    let y = b.object_version;
    assert(x as u64 == y as u64 ==> x == y) by (bit_vector);
}

/// The alternative of the query that asks for `key` lets through exactly
/// the rows that answer `key`.
pub proof fn lemma_filter_selects_answers(filter: RowFilter, key: VersionedObjectKey, row: StoredObject)
    requires
        filter.asks_for(key),
    ensures
        filter.selects(row) <==> row.answers(key),
{
    let wanted = key.1;
    let column = row.object_version;
    assert((column == wanted as i64) <==> (column as u64 == wanted)) by (bit_vector);
}

/// Whether the first `n` keys of `keys` hold `key`.
pub open spec fn among_first(keys: Seq<VersionedObjectKey>, n: int, key: VersionedObjectKey) -> bool {
    exists|m: int| 0 <= m < n && #[trigger] keys[m] == key
}

/// Matches the rows that the store returned to the keys that were asked
/// for. The result holds exactly those keys that some row answers, each with
/// a copy of the last row that answers it; a key that no row answers is left
/// out.
pub fn match_rows(keys: &[VersionedObjectKey], rows: &Vec<StoredObject>) -> (loaded: Loaded<
    StoredObject,
>)
    ensures
        loaded.wf(),
        projects(keys@, rows@, loaded@),
{
    let index = RowIndex::build(rows);
    let mut loaded: Loaded<StoredObject> = Loaded::new();
    let mut n: usize = 0;
    while n < keys.len()
        invariant
            n <= keys@.len(),
            index.indexes(rows@),
            loaded.wf(),
            forall|key: VersionedObjectKey| #[trigger]
                loaded@.contains_key(key) <==> among_first(keys@, n as int, key) && has_answer(
                    rows@,
                    key,
                ),
            forall|key: VersionedObjectKey| #[trigger]
                loaded@.contains_key(key) ==> exists|i: int| #[trigger]
                    is_last_answer(rows@, key, i) && loaded@[key]@ == rows@[i]@,
        decreases keys@.len() - n,
    {
        let key = keys[n];
        let ghost before = loaded@;
        match index.lookup(rows, &key) {
            Some(at) => {
                loaded.insert(key, rows[at].duplicate());
                proof {
                    assert(rows@[at as int].answers(key));
                    assert forall|k: VersionedObjectKey| #[trigger]
                        loaded@.contains_key(k) <==> among_first(keys@, n + 1, k) && has_answer(
                            rows@,
                            k,
                        ) by {
                        if among_first(keys@, n + 1, k) {
                            let m = choose|m: int| 0 <= m < n + 1 && #[trigger] keys@[m] == k;
                            if m < n {
                                assert(among_first(keys@, n as int, k));
                            }
                        }
                        if among_first(keys@, n as int, k) {
                            let m = choose|m: int| 0 <= m < n && #[trigger] keys@[m] == k;
                            assert(0 <= m < n + 1 && keys@[m] == k);
                        }
                        if k == key {
                            assert(keys@[n as int] == k);
                        }
                    }
                    assert forall|k: VersionedObjectKey| #[trigger]
                        loaded@.contains_key(k) implies exists|i: int| #[trigger]
                        is_last_answer(rows@, k, i) && loaded@[k]@ == rows@[i]@ by {
                        if k == key {
                            assert(is_last_answer(rows@, k, at as int) && loaded@[k]@ == rows@[at as int]@);
                        } else {
                            assert(before.contains_key(k));
                        }
                    }
                }
            },
            None => {
                proof {
                    assert forall|k: VersionedObjectKey| #[trigger]
                        loaded@.contains_key(k) <==> among_first(keys@, n + 1, k) && has_answer(
                            rows@,
                            k,
                        ) by {
                        if among_first(keys@, n + 1, k) {
                            let m = choose|m: int| 0 <= m < n + 1 && #[trigger] keys@[m] == k;
                            if m < n {
                                assert(among_first(keys@, n as int, k));
                            }
                        }
                        if among_first(keys@, n as int, k) {
                            let m = choose|m: int| 0 <= m < n && #[trigger] keys@[m] == k;
                            assert(0 <= m < n + 1 && keys@[m] == k);
                        }
                    }
                }
            },
        }
        n += 1;
    }
    proof {
        assert forall|key: VersionedObjectKey| #[trigger]
            loaded@.contains_key(key) <==> keys@.contains(key) && has_answer(rows@, key) by {
            if keys@.contains(key) {
                let m = choose|m: int| 0 <= m < keys@.len() && keys@[m] == key;
                assert(among_first(keys@, n as int, key));
            }
            if among_first(keys@, n as int, key) {
                let m = choose|m: int| 0 <= m < n && #[trigger] keys@[m] == key;
                assert(keys@.contains(key));
            }
        }
    }
    loaded
}

/// Ends a batched load with what the round trip gave. A failure of the
/// backend is handed on as it is. Rows are matched to the keys as
/// `match_rows` says: a key without a row is no failure, only absent.
pub fn finish_load<E>(keys: &[VersionedObjectKey], response: Result<Vec<StoredObject>, E>) -> (result:
    Result<Loaded<StoredObject>, E>)
    ensures
        match response {
            Ok(rows) => result is Ok && result->Ok_0.wf() && projects(keys@, rows@, result->Ok_0@),
            Err(failure) => result is Err && result->Err_0 == failure,
        },
{
    match response {
        Ok(rows) => Ok(match_rows(keys, &rows)),
        Err(failure) => Err(failure),
    }
}

/// At most one row is the last that answers a key.
pub proof fn lemma_last_answer_unique(rows: Seq<StoredObject>, key: VersionedObjectKey, i: int, j: int)
    requires
        is_last_answer(rows, key, i),
        is_last_answer(rows, key, j),
    ensures
        i == j,
{
    if i < j {
        assert(!rows[j].answers(key));
    } else if j < i {
        assert(!rows[i].answers(key));
    }
}

/// A key that no returned row answers is left out of the result: a miss is
/// an absence, never a failure.
pub proof fn lemma_unanswered_key_is_absent(
    keys: Seq<VersionedObjectKey>,
    rows: Seq<StoredObject>,
    loaded: Map<VersionedObjectKey, StoredObject>,
    key: VersionedObjectKey,
)
    requires
        projects(keys, rows, loaded),
        !has_answer(rows, key),
    ensures
        !loaded.contains_key(key),
{
}

/// The result holds only keys that were asked for, and each under a row
/// with the identifier and the version of the key.
pub proof fn lemma_loaded_within_keys(
    keys: Seq<VersionedObjectKey>,
    rows: Seq<StoredObject>,
    loaded: Map<VersionedObjectKey, StoredObject>,
)
    requires
        projects(keys, rows, loaded),
    ensures
        loaded.dom().subset_of(keys.to_set()),
        forall|key: VersionedObjectKey| #[trigger]
            loaded.contains_key(key) ==> loaded[key].answers(key),
{
    assert forall|key: VersionedObjectKey| #[trigger] loaded.contains_key(key) implies loaded[key].answers(
        key,
    ) by {
        let i = choose|i: int| #[trigger] is_last_answer(rows, key, i) && loaded[key]@ == rows[i]@;
        assert(loaded[key]@.object_id == rows[i]@.object_id);
        assert(loaded[key]@.object_version == rows[i]@.object_version);
    }
}

/// The rows decide the result: two results for the same keys and rows hold
/// the same keys, each with the same values.
pub proof fn lemma_projection_is_determined(
    keys: Seq<VersionedObjectKey>,
    rows: Seq<StoredObject>,
    one: Map<VersionedObjectKey, StoredObject>,
    other: Map<VersionedObjectKey, StoredObject>,
)
    requires
        projects(keys, rows, one),
        projects(keys, rows, other),
    ensures
        one.dom() == other.dom(),
        forall|key: VersionedObjectKey| #[trigger] one.contains_key(key) ==> one[key]@ == other[key]@,
{
    assert(one.dom() =~= other.dom());
    assert forall|key: VersionedObjectKey| #[trigger] one.contains_key(key) implies one[key]@
        == other[key]@ by {
        assert(other.contains_key(key));
        let i = choose|i: int| #[trigger] is_last_answer(rows, key, i) && one[key]@ == rows[i]@;
        let j = choose|j: int| #[trigger] is_last_answer(rows, key, j) && other[key]@ == rows[j]@;
        lemma_last_answer_unique(rows, key, i, j);
    }
}

} // verus!
