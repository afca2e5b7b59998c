//! The single-key resolvers, each as a small machine that is driven from
//! outside: it names the lookup that is due, is handed the reply, and says
//! what comes next. The caller performs the lookups, through the batch
//! loaders; nothing here waits or talks to a store.
//!
//! "Latest" is an indirection in two steps, the version number first and
//! the content at that version second. The second step's request exists
//! only as the outcome of the first, so the two cannot be taken out of
//! order, and a version number is never handed out without its content
//! being asked for.

use vstd::prelude::*;
use crate::error::ResolveError;
use crate::keys::{LatestObjectInfoKey, LatestObjectVersionKey, ObjectId, VersionedObjectKey};
use crate::records::{Data, Object, StoredObjInfo, StoredObjVersion};

verus! {

/// What a resolver ends with: the object, or nothing where none is found,
/// or a failure.
pub type Resolved<E> = Result<Option<Object>, ResolveError<E>>;

/// A resolution of the latest version that waits for the version number.
#[derive(Clone, Copy, Debug)]
pub struct LatestVersionPending {
    pub object_id: ObjectId,
}

/// A resolution of the latest version that waits for the content at the
/// version it was told.
#[derive(Clone, Copy, Debug)]
pub struct LatestContentPending {
    pub key: VersionedObjectKey,
}

/// What a resolution of the latest version does once the version number has
/// been looked up.
#[derive(Debug)]
pub enum LatestStep<E> {
    /// The content at this key is to be fetched from the content store.
    Fetch(LatestContentPending),
    /// The resolution is over.
    Done(Resolved<E>),
}

/// The lookup key that stands for the newest version of `object_id`, as
/// `version` spells it in the store's signed column.
pub open spec fn latest_key(object_id: ObjectId, record: StoredObjVersion) -> VersionedObjectKey {
    VersionedObjectKey(object_id, record.object_version as u64)
}

/// What follows the lookup of the version number. A failure of the backend
/// ends the resolution with that failure. An identifier that the store does
/// not know ends it with nothing found. A version number leads on to the
/// fetch of the content at exactly that version.
pub open spec fn after_version<E>(
    object_id: ObjectId,
    reply: Result<Option<StoredObjVersion>, E>,
) -> LatestStep<E> {
    match reply {
        Err(source) => LatestStep::Done(Err(ResolveError::LatestVersion { object_id, source })),
        Ok(None) => LatestStep::Done(Ok(None)),
        Ok(Some(record)) => LatestStep::Fetch(
            LatestContentPending { key: latest_key(object_id, record) },
        ),
    }
}

/// What follows the fetch of the content. A failure of the backend is a
/// failure; otherwise the resolution gives what the store holds under the
/// key, the object or nothing.
pub open spec fn after_content<E>(key: VersionedObjectKey, reply: Result<Option<Object>, E>) -> Resolved<
    E,
> {
    match reply {
        Err(source) => Err(ResolveError::LatestObject { key, source }),
        Ok(found) => Ok(found),
    }
}

/// Starts to resolve the newest contents of the object `object_id`.
///
/// Deletion and wrapping are not looked at: for an object that is deleted
/// or wrapped this resolution gives the contents from before, or nothing if
/// they have been pruned.
pub fn load_latest(object_id: ObjectId) -> (pending: LatestVersionPending)
    ensures
        pending.object_id == object_id,
{
    LatestVersionPending { object_id }
}

impl LatestVersionPending {
    /// The lookup that is due: the latest version number of the object.
    pub fn request(&self) -> (key: LatestObjectVersionKey)
        ensures
            key == LatestObjectVersionKey(self.object_id),
    {
        LatestObjectVersionKey(self.object_id)
    }

    /// Goes on with the reply to the lookup of the version number.
    pub fn resume<E>(self, reply: Result<Option<StoredObjVersion>, E>) -> (step: LatestStep<E>)
        ensures
            step == after_version(self.object_id, reply),
    {
        match reply {
            Err(source) => LatestStep::Done(
                Err(ResolveError::LatestVersion { object_id: self.object_id, source }),
            ),
            Ok(None) => LatestStep::Done(Ok(None)),
            Ok(Some(record)) => LatestStep::Fetch(
                LatestContentPending {
                    key: VersionedObjectKey(self.object_id, record.object_version as u64),
                },
            ),
        }
    }
}

impl LatestContentPending {
    /// The lookup that is due: the content at the version that was
    /// resolved.
    pub fn request(&self) -> (key: VersionedObjectKey)
        ensures
            key == self.key,
    {
        self.key
    }

    /// Ends the resolution with the reply to the fetch of the content.
    pub fn resume<E>(self, reply: Result<Option<Object>, E>) -> (outcome: Resolved<E>)
        ensures
            outcome == after_content(self.key, reply),
    {
        match reply {
            Err(source) => Err(ResolveError::LatestObject { key: self.key, source }),
            Ok(found) => Ok(found),
        }
    }
}

/// A resolution of a live object that waits for the liveness record.
#[derive(Clone, Copy, Debug)]
pub struct LiveInfoPending {
    pub object_id: ObjectId,
}

/// A resolution of a live object that waits for the newest contents of the
/// object, which it has found to be live.
#[derive(Clone, Copy, Debug)]
pub struct LiveContentPending {
    pub object_id: ObjectId,
}

/// What a resolution of a live object does once the liveness record has been
/// looked up.
#[derive(Debug)]
pub enum LiveStep<E> {
    /// The object is live: its newest contents are to be resolved.
    Latest(LiveContentPending),
    /// The resolution is over.
    Done(Resolved<E>),
}

/// What follows the lookup of the liveness record. A failure of the backend
/// ends the resolution with that failure. Without a record, and with a
/// record that names no owner (the object is deleted or wrapped), nothing is
/// found. Only a record with an owner leads on to the contents. Liveness is
/// read from the record alone, never from the contents.
pub open spec fn after_info<E>(object_id: ObjectId, reply: Result<Option<StoredObjInfo>, E>) -> LiveStep<
    E,
> {
    match reply {
        Err(source) => LiveStep::Done(Err(ResolveError::ObjectInfo { object_id, source })),
        Ok(None) => LiveStep::Done(Ok(None)),
        Ok(Some(info)) => if info.spec_is_live() {
            LiveStep::Latest(LiveContentPending { object_id })
        } else {
            LiveStep::Done(Ok(None))
        },
    }
}

/// What a live object's resolution makes of the newest contents. A failure
/// stays what it is. Contents that are missing although the object is live
/// are no ordinary miss: the stores contradict each other, and that is a
/// failure of its own.
pub open spec fn after_latest<E>(object_id: ObjectId, latest: Resolved<E>) -> Resolved<E> {
    match latest {
        Err(failure) => Err(failure),
        Ok(None) => Err(ResolveError::MissingLiveContent { object_id }),
        Ok(Some(object)) => Ok(Some(object)),
    }
}

/// Starts to resolve the newest contents of the object `object_id`, as long
/// as the object is live: neither deleted nor wrapped.
pub fn load_live(object_id: ObjectId) -> (pending: LiveInfoPending)
    ensures
        pending.object_id == object_id,
{
    LiveInfoPending { object_id }
}

impl LiveInfoPending {
    /// The lookup that is due: the liveness record of the object.
    pub fn request(&self) -> (key: LatestObjectInfoKey)
        ensures
            key == LatestObjectInfoKey(self.object_id),
    {
        LatestObjectInfoKey(self.object_id)
    }

    /// Goes on with the reply to the lookup of the liveness record.
    pub fn resume<E>(self, reply: Result<Option<StoredObjInfo>, E>) -> (step: LiveStep<E>)
        ensures
            step == after_info(self.object_id, reply),
    {
        match reply {
            Err(source) => LiveStep::Done(
                Err(ResolveError::ObjectInfo { object_id: self.object_id, source }),
            ),
            Ok(None) => LiveStep::Done(Ok(None)),
            Ok(Some(info)) => {
                if info.is_live() {
                    LiveStep::Latest(LiveContentPending { object_id: self.object_id })
                } else {
                    LiveStep::Done(Ok(None))
                }
            },
        }
    }
}

impl LiveContentPending {
    /// The resolution that is due: the newest contents of the object.
    pub fn request(&self) -> (pending: LatestVersionPending)
        ensures
            pending.object_id == self.object_id,
    {
        load_latest(self.object_id)
    }

    /// Ends the resolution with the outcome of the resolution of the newest
    /// contents.
    pub fn resume<E>(self, latest: Resolved<E>) -> (outcome: Resolved<E>)
        ensures
            outcome == after_latest(self.object_id, latest),
    {
        match latest {
            Err(failure) => Err(failure),
            Ok(None) => Err(ResolveError::MissingLiveContent { object_id: self.object_id }),
            Ok(Some(object)) => Ok(Some(object)),
        }
    }
}

/// A resolution of a typed value that waits for the newest contents of the
/// object.
#[derive(Clone, Copy, Debug)]
pub struct DeserializePending {
    pub object_id: ObjectId,
}

/// The encoded value of a Move object, picked out to be decoded, with the
/// identity and version of the object it came from.
#[derive(Debug)]
pub struct MoveContents {
    pub key: VersionedObjectKey,
    pub contents: Vec<u8>,
}

/// What a typed resolution picks out of the newest contents. A failure
/// stays what it is. Nothing found is a failure here, and so is an object
/// that holds no Move value, such as a package; each is a failure of its own
/// kind, and neither is a failure to decode. Only the contents of a Move
/// object are handed to the decoder.
pub open spec fn select_contents<E>(object_id: ObjectId, latest: Resolved<E>) -> Result<
    MoveContents,
    ResolveError<E>,
> {
    match latest {
        Err(failure) => Err(failure),
        Ok(None) => Err(ResolveError::NoData { object_id }),
        Ok(Some(object)) => match object.data {
            Data::Move(value) => Ok(MoveContents { key: object.spec_key(), contents: value.contents }),
            Data::Package(_) => Err(ResolveError::NotMoveObject { key: object.spec_key() }),
        },
    }
}

/// What a typed resolution makes of the decoder's result: the value, or a
/// failure to decode that keeps the decoder's own error.
pub open spec fn after_decode<T, E>(key: VersionedObjectKey, decoded: Result<T, bcs::Error>) -> Result<
    T,
    ResolveError<E>,
> {
    match decoded {
        Ok(value) => Ok(value),
        Err(cause) => Err(ResolveError::Deserialize { key, cause }),
    }
}

/// Starts to resolve the newest contents of the object `object_id` as a
/// typed value, on the assumption that the object is a Move object. Deletion
/// and wrapping are not looked at, as in `load_latest`.
pub fn load_latest_deserialized(object_id: ObjectId) -> (pending: DeserializePending)
    ensures
        pending.object_id == object_id,
{
    DeserializePending { object_id }
}

impl DeserializePending {
    /// The resolution that is due: the newest contents of the object.
    pub fn request(&self) -> (pending: LatestVersionPending)
        ensures
            pending.object_id == self.object_id,
    {
        load_latest(self.object_id)
    }

    /// Goes on with the outcome of the resolution of the newest contents:
    /// picks out the bytes to decode, or fails.
    pub fn resume<E>(self, latest: Resolved<E>) -> (picked: Result<MoveContents, ResolveError<E>>)
        ensures
            picked == select_contents(self.object_id, latest),
    {
        match latest {
            Err(failure) => Err(failure),
            Ok(None) => Err(ResolveError::NoData { object_id: self.object_id }),
            Ok(Some(object)) => {
                let key = object.key();
                match object.data {
                    Data::Move(value) => Ok(MoveContents { key, contents: value.contents }),
                    Data::Package(_) => Err(ResolveError::NotMoveObject { key }),
                }
            },
        }
    }
}

impl MoveContents {
    /// The bytes that are to be decoded.
    pub fn bytes(&self) -> (bytes: &[u8])
        ensures
            bytes@ == self.contents@,
    {
        self.contents.as_slice()
    }

    /// Ends the resolution with the decoder's result for the bytes.
    pub fn resume<T, E>(self, decoded: Result<T, bcs::Error>) -> (outcome: Result<T, ResolveError<E>>)
        ensures
            outcome == after_decode::<T, E>(self.key, decoded),
    {
        match decoded {
            Ok(value) => Ok(value),
            Err(cause) => Err(ResolveError::Deserialize { key: self.key, cause }),
        }
    }
}

} // verus!
