//! The batch loader of the content store: one batched point lookup for all
//! the keys of a batch, and the decoded objects that come back filed under
//! the identity and version that each object carries itself.
//!
//! The store may reorder its answers and drop some, so no object is matched
//! to a key by its position.

use vstd::prelude::*;
use crate::keys::{ObjectKey, VersionedObjectKey};
use crate::loaded::{Loaded, LoadStep};
use crate::records::Object;

verus! {

/// The content store's key for `key`: the same identifier and version.
pub open spec fn spec_object_key(key: VersionedObjectKey) -> ObjectKey {
    ObjectKey(key.0, key.1)
}

/// Whether `lookups` is the batched lookup for `keys`: the store's key for
/// each, in the order of the keys.
pub open spec fn is_lookup_for(lookups: Seq<ObjectKey>, keys: Seq<VersionedObjectKey>) -> bool {
    &&& lookups.len() == keys.len()
    &&& forall|i: int| 0 <= i < keys.len() ==> #[trigger] lookups[i] == spec_object_key(keys[i])
}

/// Whether some object among `objects` carries the identity and version of
/// `key`.
pub open spec fn holds(objects: Seq<Object>, key: VersionedObjectKey) -> bool {
    exists|i: int| 0 <= i < objects.len() && (#[trigger] objects[i]).spec_key() == key
}

/// Whether the object at `i` is the last among `objects` that carries the
/// identity and version of `key`.
pub open spec fn is_last_under(objects: Seq<Object>, key: VersionedObjectKey, i: int) -> bool {
    &&& 0 <= i < objects.len()
    &&& objects[i].spec_key() == key
    &&& forall|j: int| i < j < objects.len() ==> (#[trigger] objects[j]).spec_key() != key
}

/// Whether `loaded` is what the objects give for the keys: it holds exactly
/// the keys asked for whose identity and version some object carries, each
/// with the last such object.
pub open spec fn files(
    keys: Seq<VersionedObjectKey>,
    objects: Seq<Object>,
    loaded: Map<VersionedObjectKey, Object>,
) -> bool {
    &&& forall|key: VersionedObjectKey| #[trigger]
        loaded.contains_key(key) <==> keys.contains(key) && holds(objects, key)
    &&& forall|key: VersionedObjectKey| #[trigger]
        loaded.contains_key(key) ==> exists|i: int| #[trigger]
            is_last_under(objects, key, i) && loaded[key] == objects[i]
}

/// Starts a batched load of `keys`. An empty batch is over at once, with the
/// empty mapping and without the backend. Any other batch calls for exactly
/// one round trip: a lookup of the store's key for each key.
pub fn begin_load(keys: &[VersionedObjectKey]) -> (step: LoadStep<Vec<ObjectKey>, Object>)
    ensures
        step.round_trips() == (if keys@.len() == 0 { 0nat } else { 1nat }),
        match step {
            LoadStep::Finished(loaded) => loaded.wf() && loaded@ == Map::<
                VersionedObjectKey,
                Object,
            >::empty(),
            LoadStep::RoundTrip(lookups) => is_lookup_for(lookups@, keys@),
        },
{
    if keys.len() == 0 {
        return LoadStep::Finished(Loaded::new());
    }
    let mut lookups: Vec<ObjectKey> = Vec::new();
    let mut i: usize = 0;
    while i < keys.len()
        invariant
            i <= keys@.len(),
            lookups@.len() == i,
            forall|j: int| 0 <= j < i ==> #[trigger] lookups@[j] == spec_object_key(keys@[j]),
        decreases keys@.len() - i,
    {
        let key = keys[i];
        lookups.push(ObjectKey(key.0, key.1));
        i += 1;
    }
    LoadStep::RoundTrip(lookups)
}

/// Whether `key` is among `keys`.
fn asked_for(keys: &[VersionedObjectKey], key: &VersionedObjectKey) -> (asked: bool)
    ensures
        asked == keys@.contains(*key),
{
    let mut i: usize = 0;
    while i < keys.len()
        invariant
            i <= keys@.len(),
            forall|j: int| 0 <= j < i ==> keys@[j] != *key,
        decreases keys@.len() - i,
    {
        if keys[i] == *key {
            return true;
        }
        i += 1;
    }
    false
}

/// Whether some object of `objects` at position `from` or later carries the
/// identity and version of `key`.
pub open spec fn holds_from(objects: Seq<Object>, from: int, key: VersionedObjectKey) -> bool {
    exists|i: int| from <= i < objects.len() && (#[trigger] objects[i]).spec_key() == key
}

/// Files the objects that the store returned under the keys that were asked
/// for. Each object is filed under the identity and version that it carries
/// itself. The result holds exactly those keys asked for that some object
/// carries, each with the last such object; a key without an object is left
/// out.
pub fn file_objects(keys: &[VersionedObjectKey], objects: Vec<Object>) -> (loaded: Loaded<Object>)
    ensures
        loaded.wf(),
        files(keys@, objects@, loaded@),
{
    let ghost all = objects@;
    let mut rest = objects;
    let mut loaded: Loaded<Object> = Loaded::new();
    while rest.len() > 0
        invariant
            rest@.len() <= all.len(),
            rest@ == all.subrange(0, rest@.len() as int),
            loaded.wf(),
            forall|key: VersionedObjectKey| #[trigger]
                loaded@.contains_key(key) <==> keys@.contains(key) && holds_from(
                    all,
                    rest@.len() as int,
                    key,
                ),
            forall|key: VersionedObjectKey| #[trigger]
                loaded@.contains_key(key) ==> exists|i: int| #[trigger]
                    is_last_under(all, key, i) && loaded@[key] == all[i],
        decreases rest@.len(),
    {
        let ghost m = rest@.len() - 1;
        let ghost before = loaded@;
        let popped = rest.pop();
        let object = popped.unwrap();
        assert(object == all[m]);
        let key = object.key();
        let fresh = asked_for(keys, &key) && !loaded.contains_key(&key);
        proof {
            assert forall|k: VersionedObjectKey| holds_from(all, m, k) <==> (holds_from(all, m + 1, k)
                || all[m].spec_key() == k) by {
                if holds_from(all, m, k) {
                    let i = choose|i: int| m <= i < all.len() && (#[trigger] all[i]).spec_key() == k;
                    if i > m {
                        assert(holds_from(all, m + 1, k));
                    }
                }
                if holds_from(all, m + 1, k) {
                    let i = choose|i: int|
                        m + 1 <= i < all.len() && (#[trigger] all[i]).spec_key() == k;
                    assert(m <= i < all.len() && all[i].spec_key() == k);
                }
                if all[m].spec_key() == k {
                    assert(m <= m < all.len() && all[m].spec_key() == k);
                }
            }
        }
        if fresh {
            proof {
                assert(!holds_from(all, m + 1, key));
                assert forall|j: int| m < j < all.len() implies (#[trigger] all[j]).spec_key() != key by {
                    if all[j].spec_key() == key {
                        assert(m + 1 <= j < all.len() && all[j].spec_key() == key);
                    }
                }
                assert(is_last_under(all, key, m));
            }
            loaded.insert(key, object);
            proof {
                assert forall|k: VersionedObjectKey| #[trigger]
                    loaded@.contains_key(k) implies exists|i: int| #[trigger]
                    is_last_under(all, k, i) && loaded@[k] == all[i] by {
                    if k == key {
                        assert(is_last_under(all, k, m) && loaded@[k] == all[m]);
                    } else {
                        assert(before.contains_key(k));
                    }
                }
            }
        }
    }
    proof {
        assert forall|key: VersionedObjectKey| holds_from(all, 0, key) <==> holds(all, key) by {
            if holds_from(all, 0, key) {
                let i = choose|i: int| 0 <= i < all.len() && (#[trigger] all[i]).spec_key() == key;
                assert(holds(all, key));
            }
            if holds(all, key) {
                let i = choose|i: int| 0 <= i < all.len() && (#[trigger] all[i]).spec_key() == key;
                assert(holds_from(all, 0, key));
            }
        }
    }
    loaded
}

/// Ends a batched load with what the round trip gave. A failure of the
/// backend is handed on as it is. Objects are filed as `file_objects` says: a
/// key without an object is no failure, only absent.
pub fn finish_load<E>(keys: &[VersionedObjectKey], response: Result<Vec<Object>, E>) -> (result: Result<
    Loaded<Object>,
    E,
>)
    ensures
        match response {
            Ok(objects) => result is Ok && result->Ok_0.wf() && files(
                keys@,
                objects@,
                result->Ok_0@,
            ),
            Err(failure) => result is Err && result->Err_0 == failure,
        },
{
    match response {
        Ok(objects) => Ok(file_objects(keys, objects)),
        Err(failure) => Err(failure),
    }
}

/// At most one object is the last that carries a key.
pub proof fn lemma_last_under_unique(objects: Seq<Object>, key: VersionedObjectKey, i: int, j: int)
    requires
        is_last_under(objects, key, i),
        is_last_under(objects, key, j),
    ensures
        i == j,
{
    if i < j {
        assert(objects[j].spec_key() != key);
    } else if j < i {
        assert(objects[i].spec_key() != key);
    }
}

/// A key whose identity and version no returned object carries is left out
/// of the result: a miss is an absence, never a failure.
pub proof fn lemma_unheld_key_is_absent(
    keys: Seq<VersionedObjectKey>,
    objects: Seq<Object>,
    loaded: Map<VersionedObjectKey, Object>,
    key: VersionedObjectKey,
)
    requires
        files(keys, objects, loaded),
        !holds(objects, key),
    ensures
        !loaded.contains_key(key),
{
}

/// The result holds only keys that were asked for, and each object stands
/// under the identity and version that it carries itself.
pub proof fn lemma_loaded_within_keys(
    keys: Seq<VersionedObjectKey>,
    objects: Seq<Object>,
    loaded: Map<VersionedObjectKey, Object>,
)
    requires
        files(keys, objects, loaded),
    ensures
        loaded.dom().subset_of(keys.to_set()),
        forall|key: VersionedObjectKey| #[trigger]
            loaded.contains_key(key) ==> loaded[key].spec_key() == key,
{
    assert forall|key: VersionedObjectKey| #[trigger] loaded.contains_key(key) implies loaded[key].spec_key()
        == key by {
        let i = choose|i: int| #[trigger] is_last_under(objects, key, i) && loaded[key] == objects[i];
    }
}

/// The objects decide the result: two results for the same keys and objects
/// are the same mapping.
pub proof fn lemma_filing_is_determined(
    keys: Seq<VersionedObjectKey>,
    objects: Seq<Object>,
    one: Map<VersionedObjectKey, Object>,
    other: Map<VersionedObjectKey, Object>,
)
    requires
        files(keys, objects, one),
        files(keys, objects, other),
    ensures
        one == other,
{
    assert forall|key: VersionedObjectKey| #[trigger] one.contains_key(key) implies one[key] == other[key] by {
        assert(other.contains_key(key));
        let i = choose|i: int| #[trigger] is_last_under(objects, key, i) && one[key] == objects[i];
        let j = choose|j: int| #[trigger] is_last_under(objects, key, j) && other[key] == objects[j];
        lemma_last_under_unique(objects, key, i, j);
    }
    assert(one =~= other);
}

} // verus!
