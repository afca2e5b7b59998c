//! A model of the stores at one moment, and what the resolvers give when
//! every lookup is answered from it. The model exists in proofs only: it
//! states what the resolvers promise about whatever the stores hold.

use vstd::prelude::*;
use crate::error::ResolveError;
use crate::keys::{ObjectId, VersionedObjectKey};
use crate::records::{Object, StoredObjInfo, StoredObjVersion};
use crate::resolve::{
    after_content, after_info, after_latest, after_version, latest_key, select_contents, LatestStep,
    LiveStep, MoveContents, Resolved,
};

verus! {

/// What the stores hold at one moment.
pub struct Snapshot {
    /// The record of the newest version, for each identifier that the
    /// metadata store knows.
    pub versions: Map<ObjectId, StoredObjVersion>,
    /// The liveness record, for each identifier that has one.
    pub infos: Map<ObjectId, StoredObjInfo>,
    /// The content, for each identifier and version that the content store
    /// still holds.
    pub contents: Map<VersionedObjectKey, Object>,
}

impl Snapshot {
    /// The answer to a lookup of the newest version of `object_id`.
    pub open spec fn version_of(self, object_id: ObjectId) -> Option<StoredObjVersion> {
        if self.versions.contains_key(object_id) {
            Some(self.versions[object_id])
        } else {
            None
        }
    }

    /// The answer to a lookup of the liveness record of `object_id`.
    pub open spec fn info_of(self, object_id: ObjectId) -> Option<StoredObjInfo> {
        if self.infos.contains_key(object_id) {
            Some(self.infos[object_id])
        } else {
            None
        }
    }

    /// The answer to a fetch of the content under `key`.
    pub open spec fn content_of(self, key: VersionedObjectKey) -> Option<Object> {
        if self.contents.contains_key(key) {
            Some(self.contents[key])
        } else {
            None
        }
    }

    /// Whether the object is live: it has a liveness record, and the record
    /// names an owner. An object that is deleted or wrapped is not live.
    pub open spec fn is_live(self, object_id: ObjectId) -> bool {
        self.infos.contains_key(object_id) && self.infos[object_id].spec_is_live()
    }

    /// The outcome of resolving the newest contents of `object_id` when
    /// every lookup is answered from this snapshot without failure.
    pub open spec fn load_latest<E>(self, object_id: ObjectId) -> Resolved<E> {
        match after_version::<E>(object_id, Ok(self.version_of(object_id))) {
            LatestStep::Done(outcome) => outcome,
            LatestStep::Fetch(pending) => after_content(pending.key, Ok(self.content_of(pending.key))),
        }
    }

    /// The outcome of resolving `object_id` as a live object when every
    /// lookup is answered from this snapshot without failure.
    pub open spec fn load_live<E>(self, object_id: ObjectId) -> Resolved<E> {
        match after_info::<E>(object_id, Ok(self.info_of(object_id))) {
            LiveStep::Done(outcome) => outcome,
            LiveStep::Latest(pending) => after_latest(
                pending.object_id,
                self.load_latest(pending.object_id),
            ),
        }
    }
}

/// The replies that one resolution of the newest contents was handed: the
/// reply to the lookup of the version number and, where content was fetched,
/// the reply to that fetch.
pub struct LatestRun<E> {
    pub version_reply: Result<Option<StoredObjVersion>, E>,
    pub content_reply: Option<Result<Option<Object>, E>>,
}

impl<E> LatestRun<E> {
    /// The key of the content that the run fetched, if it fetched any.
    pub open spec fn fetched(self, object_id: ObjectId) -> Option<VersionedObjectKey> {
        match after_version(object_id, self.version_reply) {
            LatestStep::Fetch(pending) => Some(pending.key),
            LatestStep::Done(_) => None,
        }
    }

    /// Whether the run is complete: it holds a reply to the fetch of the
    /// content exactly when content was fetched.
    pub open spec fn complete(self, object_id: ObjectId) -> bool {
        self.fetched(object_id) is Some <==> self.content_reply is Some
    }

    /// The outcome of the run.
    pub open spec fn outcome(self, object_id: ObjectId) -> Resolved<E> {
        match after_version(object_id, self.version_reply) {
            LatestStep::Done(outcome) => outcome,
            LatestStep::Fetch(pending) => after_content(pending.key, self.content_reply.unwrap()),
        }
    }

    /// Whether every reply of the run is what `snapshot` holds.
    pub open spec fn served_by(self, snapshot: Snapshot, object_id: ObjectId) -> bool {
        &&& self.complete(object_id)
        &&& self.version_reply == Ok::<Option<StoredObjVersion>, E>(snapshot.version_of(object_id))
        &&& match self.fetched(object_id) {
            Some(key) => self.content_reply == Some(
                Ok::<Option<Object>, E>(snapshot.content_of(key)),
            ),
            None => true,
        }
    }
}

/// A resolution of the newest contents that is answered from a snapshot
/// fetches the content at the version that the snapshot names as the
/// newest, and gives what the snapshot holds there.
pub proof fn lemma_run_follows_snapshot<E>(snapshot: Snapshot, object_id: ObjectId, run: LatestRun<E>)
    requires
        run.served_by(snapshot, object_id),
    ensures
        run.outcome(object_id) == snapshot.load_latest::<E>(object_id),
        run.fetched(object_id) == match snapshot.version_of(object_id) {
            Some(record) => Some(latest_key(object_id, record)),
            None => None,
        },
{
}

/// Resolving the newest contents twice while the stores do not change gives
/// the same version and the same content both times.
pub proof fn lemma_load_latest_idempotent<E>(
    snapshot: Snapshot,
    object_id: ObjectId,
    first: LatestRun<E>,
    second: LatestRun<E>,
)
    requires
        first.served_by(snapshot, object_id),
        second.served_by(snapshot, object_id),
    ensures
        first.fetched(object_id) == second.fetched(object_id),
        first.outcome(object_id) == second.outcome(object_id),
{
    lemma_run_follows_snapshot(snapshot, object_id, first);
    lemma_run_follows_snapshot(snapshot, object_id, second);
}

/// What resolving the newest contents gives, by what the stores hold. It
/// never fails while the backends answer. For an identifier that the
/// metadata store does not know, nothing is found. Otherwise it is what the
/// content store holds at the newest version: the content, or nothing where
/// that has been pruned.
pub proof fn lemma_load_latest_outcome<E>(snapshot: Snapshot, object_id: ObjectId)
    ensures
        snapshot.load_latest::<E>(object_id) == Ok::<Option<Object>, ResolveError<E>>(
            match snapshot.version_of(object_id) {
                None => None,
                Some(record) => snapshot.content_of(latest_key(object_id, record)),
            },
        ),
{
}

/// Resolving the newest contents does not look at liveness: two snapshots
/// that agree on versions and contents give the same outcome, whatever their
/// liveness records say. So a deleted object and a wrapped one fare alike:
/// each gives the contents from before, or nothing once those are pruned.
pub proof fn lemma_load_latest_ignores_liveness<E>(one: Snapshot, other: Snapshot, object_id: ObjectId)
    requires
        one.versions == other.versions,
        one.contents == other.contents,
    ensures
        one.load_latest::<E>(object_id) == other.load_latest::<E>(object_id),
{
}

/// For an object that is not live, because it has no liveness record or
/// because its record names no owner, resolving it as a live object finds
/// nothing, whatever contents the stores still hold.
pub proof fn lemma_load_live_not_live<E>(snapshot: Snapshot, object_id: ObjectId)
    requires
        !snapshot.is_live(object_id),
    ensures
        snapshot.load_live::<E>(object_id) == Ok::<Option<Object>, ResolveError<E>>(None),
{
}

/// For a live object, resolving it as a live object gives exactly what
/// resolving its newest contents gives, where that finds an object; where it
/// finds none, the stores contradict each other and the resolution fails.
pub proof fn lemma_load_live_live<E>(snapshot: Snapshot, object_id: ObjectId)
    requires
        snapshot.is_live(object_id),
    ensures
        match snapshot.load_latest::<E>(object_id) {
            Ok(Some(object)) => snapshot.load_live::<E>(object_id) == Ok::<
                Option<Object>,
                ResolveError<E>,
            >(Some(object)),
            Ok(None) => snapshot.load_live::<E>(object_id) == Err::<Option<Object>, ResolveError<E>>(
                ResolveError::MissingLiveContent { object_id },
            ),
            Err(_) => false,
        },
{
}

/// An object that is a package never reaches the decoder: a typed
/// resolution fails on it as "not a Move object", and so never with a
/// failure to decode.
pub proof fn lemma_package_is_not_decoded<E>(object_id: ObjectId, object: Object)
    requires
        !object.is_move(),
    ensures
        select_contents::<E>(object_id, Ok(Some(object))) == Err::<MoveContents, ResolveError<E>>(
            ResolveError::NotMoveObject { key: object.spec_key() },
        ),
        !(select_contents::<E>(object_id, Ok(Some(object)))->Err_0 is Deserialize),
{
}

} // verus!
