//! What can go wrong while an object is resolved.
//!
//! Absence is no failure: an unknown identifier, a pruned version and an
//! object that is not live are all reported as "not found" by the
//! resolvers. The failures below are the hard errors.

use vstd::prelude::*;
use crate::keys::{ObjectId, VersionedObjectKey};

verus! {

/// `bcs::Error`, the error that the canonical binary decoder `bcs::from_bytes`
/// returns. It is declared as an opaque type: a value of it is carried
/// through as it came, and nothing is claimed of what it holds.
#[verifier::external_type_specification]
#[verifier::external_body]
pub struct ExDecodeError(bcs::Error);

/// A failure to resolve an object. Each failure names the object it is
/// about and the stage at which it arose; `E` is the failure of a backend,
/// carried on as it was handed in.
#[derive(Debug, PartialEq, Eq)]
pub enum ResolveError<E> {
    /// The lookup of the latest version number failed in the backend.
    LatestVersion { object_id: ObjectId, source: E },
    /// The fetch of the content at the latest version failed in the backend.
    LatestObject { key: VersionedObjectKey, source: E },
    /// The lookup of the liveness record failed in the backend.
    ObjectInfo { object_id: ObjectId, source: E },
    /// The object is live, yet the content of its latest version is
    /// missing: the stores contradict each other.
    MissingLiveContent { object_id: ObjectId },
    /// A typed value was asked for and no object was found.
    NoData { object_id: ObjectId },
    /// A typed value was asked for and the object is no Move object.
    NotMoveObject { key: VersionedObjectKey },
    /// The contents of the Move object do not decode as the type asked for.
    Deserialize { key: VersionedObjectKey, cause: bcs::Error },
}

impl<E> ResolveError<E> {
    /// The identifier of the object that the failure is about.
    pub open spec fn spec_object_id(&self) -> ObjectId {
        match self {
            ResolveError::LatestVersion { object_id, .. } => *object_id,
            ResolveError::LatestObject { key, .. } => key.0,
            ResolveError::ObjectInfo { object_id, .. } => *object_id,
            ResolveError::MissingLiveContent { object_id } => *object_id,
            ResolveError::NoData { object_id } => *object_id,
            ResolveError::NotMoveObject { key } => key.0,
            ResolveError::Deserialize { key, .. } => key.0,
        }
    }

    /// The identifier of the object that the failure is about.
    pub fn object_id(&self) -> (id: ObjectId)
        ensures
            id == self.spec_object_id(),
    {
        match self {
            ResolveError::LatestVersion { object_id, .. } => *object_id,
            ResolveError::LatestObject { key, .. } => key.0,
            ResolveError::ObjectInfo { object_id, .. } => *object_id,
            ResolveError::MissingLiveContent { object_id } => *object_id,
            ResolveError::NoData { object_id } => *object_id,
            ResolveError::NotMoveObject { key } => key.0,
            ResolveError::Deserialize { key, .. } => key.0,
        }
    }

    /// The version that the failure is about, where one was known when it
    /// arose.
    pub open spec fn spec_version(&self) -> Option<u64> {
        match self {
            ResolveError::LatestObject { key, .. } => Some(key.1),
            ResolveError::NotMoveObject { key } => Some(key.1),
            ResolveError::Deserialize { key, .. } => Some(key.1),
            _ => None,
        }
    }

    /// The version that the failure is about, where one was known when it
    /// arose.
    pub fn version(&self) -> (version: Option<u64>)
        ensures
            version == self.spec_version(),
    {
        match self {
            ResolveError::LatestObject { key, .. } => Some(key.1),
            ResolveError::NotMoveObject { key } => Some(key.1),
            ResolveError::Deserialize { key, .. } => Some(key.1),
            _ => None,
        }
    }

    /// The description of the stage at which the failure arose.
    pub open spec fn spec_context(&self) -> Seq<char> {
        match self {
            ResolveError::LatestVersion { .. } => "Failed to load latest version"@,
            ResolveError::LatestObject { .. } => "Failed to load latest object"@,
            ResolveError::ObjectInfo { .. } => "Failed to fetch object info"@,
            ResolveError::MissingLiveContent { .. } =>
                "Failed to find content for latest version of live object"@,
            ResolveError::NoData { .. } => "No data found"@,
            ResolveError::NotMoveObject { .. } => "Not a Move object"@,
            ResolveError::Deserialize { .. } => "Failed to deserialize Move value"@,
        }
    }

    /// The description of the stage at which the failure arose.
    pub fn context(&self) -> (text: &'static str)
        ensures
            text@ == self.spec_context(),
    {
        match self {
            ResolveError::LatestVersion { .. } => "Failed to load latest version",
            ResolveError::LatestObject { .. } => "Failed to load latest object",
            ResolveError::ObjectInfo { .. } => "Failed to fetch object info",
            ResolveError::MissingLiveContent { .. } =>
                "Failed to find content for latest version of live object",
            ResolveError::NoData { .. } => "No data found",
            ResolveError::NotMoveObject { .. } => "Not a Move object",
            ResolveError::Deserialize { .. } => "Failed to deserialize Move value",
        }
    }

    /// Whether the failure came from a backend, as opposed to what the
    /// stores hold.
    pub open spec fn spec_is_backend_failure(&self) -> bool {
        self is LatestVersion || self is LatestObject || self is ObjectInfo
    }

    /// Whether the failure came from a backend, as opposed to what the
    /// stores hold.
    pub fn is_backend_failure(&self) -> (backend: bool)
        ensures
            backend == self.spec_is_backend_failure(),
    {
        match self {
            ResolveError::LatestVersion { .. } => true,
            ResolveError::LatestObject { .. } => true,
            ResolveError::ObjectInfo { .. } => true,
            _ => false,
        }
    }
}

} // verus!
