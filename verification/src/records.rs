//! The values that the stores hand back: rows of the metadata store and
//! decoded objects of the content store.

use vstd::prelude::*;
use crate::keys::ObjectId;
use crate::keys::VersionedObjectKey;

verus! {

/// A row of the metadata store's table of objects, keyed by identifier and
/// version.
#[derive(Clone, Debug, PartialEq, Eq)]
pub struct StoredObject {
    /// Raw bytes of the object's identifier.
    pub object_id: Vec<u8>,
    /// The object's version, as the store's signed column holds it.
    pub object_version: i64,
    /// What the store keeps beside the key to lead on to the content.
    pub content_locator: Option<Vec<u8>>,
}

/// What a stored row holds, as mathematical values.
pub struct StoredObjectView {
    pub object_id: Seq<u8>,
    pub object_version: i64,
    pub content_locator: Option<Seq<u8>>,
}

impl View for StoredObject {
    type V = StoredObjectView;

    open spec fn view(&self) -> StoredObjectView {
        StoredObjectView {
            object_id: self.object_id@,
            object_version: self.object_version,
            content_locator: match self.content_locator {
                Some(bytes) => Some(bytes@),
                None => None,
            },
        }
    }
}

impl StoredObject {
    /// The version of the row as an unsigned counter: the signed column
    /// reinterpreted, bit for bit.
    pub open spec fn spec_version(&self) -> u64 {
        self.object_version as u64
    }

    /// Whether this row is the one that `key` asks for: the same identifier
    /// bytes and the same version.
    pub open spec fn answers(&self, key: VersionedObjectKey) -> bool {
        self.object_id@ == key.0.bytes() && self.spec_version() == key.1
    }

    /// The version of the row as an unsigned counter.
    pub fn version(&self) -> (v: u64)
        ensures
            v == self.spec_version(),
    {
        self.object_version as u64
    }

    /// A copy of the row that holds the same values.
    pub fn duplicate(&self) -> (copy: StoredObject)
        ensures
            copy@ == self@,
    {
        let object_id = self.object_id.clone();
        let content_locator = match &self.content_locator {
            Some(bytes) => Some(bytes.clone()),
            None => None,
        };
        StoredObject { object_id, object_version: self.object_version, content_locator }
    }
}

/// The metadata store's record of the newest version of an object.
#[derive(Clone, Debug, PartialEq, Eq)]
pub struct StoredObjVersion {
    /// Raw bytes of the object's identifier.
    pub object_id: Vec<u8>,
    /// The newest version, as the store's signed column holds it.
    pub object_version: i64,
}

/// Who owns a live object.
#[derive(Clone, Copy, Debug, PartialEq, Eq, Structural)]
pub enum OwnerKind {
    Immutable,
    Address,
    Object,
    Shared,
}

/// The metadata store's record of an object's current standing. The object
/// is live exactly when the record names an owner kind; without one the object
/// is deleted or wrapped.
#[derive(Clone, Debug, PartialEq, Eq)]
pub struct StoredObjInfo {
    /// Raw bytes of the object's identifier.
    pub object_id: Vec<u8>,
    /// The kind of the current owner, if the object has one.
    pub owner_kind: Option<OwnerKind>,
}

impl StoredObjInfo {
    /// Whether the record describes a live object.
    pub open spec fn spec_is_live(&self) -> bool {
        self.owner_kind is Some
    }

    /// Whether the record describes a live object.
    pub fn is_live(&self) -> (live: bool)
        ensures
            live == self.spec_is_live(),
    {
        self.owner_kind.is_some()
    }
}

/// The payload of a Move object: its type and its encoded value.
#[derive(Clone, Debug, PartialEq, Eq)]
pub struct MoveObject {
    /// The tag of the value's type.
    pub type_tag: String,
    /// The value in the canonical binary encoding.
    pub contents: Vec<u8>,
}

/// What an object holds: a Move value or a code package.
#[derive(Clone, Debug, PartialEq, Eq)]
pub enum Data {
    Move(MoveObject),
    Package(Vec<u8>),
}

/// A decoded on-chain object, which carries its own identity and version.
#[derive(Clone, Debug, PartialEq, Eq)]
pub struct Object {
    pub id: ObjectId,
    pub version: u64,
    pub owner: Option<OwnerKind>,
    pub data: Data,
}

impl Object {
    /// The key under which the content store holds this object.
    pub open spec fn spec_key(&self) -> VersionedObjectKey {
        VersionedObjectKey(self.id, self.version)
    }

    /// The key under which the content store holds this object, read from
    /// the object itself.
    pub fn key(&self) -> (key: VersionedObjectKey)
        ensures
            key == self.spec_key(),
    {
        VersionedObjectKey(self.id, self.version)
    }

    /// Whether the object holds a Move value.
    pub open spec fn is_move(&self) -> bool {
        self.data is Move
    }
}

} // verus!
