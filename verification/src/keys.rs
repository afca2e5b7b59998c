//! Lookup tokens: immutable values that say what a caller asks for.
//!
//! A key is built once per request and never changed afterwards. Two keys are
//! equal exactly when all their fields are equal.

use vstd::prelude::*;

verus! {

/// Number of bytes in an object identifier.
pub const OBJECT_ID_LENGTH: usize = 32;

/// Opaque fixed-size identifier of an on-chain object.
#[derive(Clone, Copy, Debug, Eq, Hash)]
pub struct ObjectId(pub [u8; 32]);

impl ObjectId {
    /// The identifier as a sequence of bytes.
    pub open spec fn bytes(&self) -> Seq<u8> {
        self.0@
    }

    /// The identifier over the given bytes.
    pub fn new(bytes: [u8; 32]) -> (id: ObjectId)
        ensures
            id.0 == bytes,
            id.bytes() == bytes@,
    {
        ObjectId(bytes)
    }

    /// A copy of the identifier's bytes, in the shape in which stored rows
    /// carry them.
    pub fn into_bytes(&self) -> (out: Vec<u8>)
        ensures
            out@ == self.bytes(),
    {
        let mut out: Vec<u8> = Vec::new();
        let mut i: usize = 0;
        while i < 32
            invariant
                i <= 32,
                out@ == self.bytes().subrange(0, i as int),
            decreases 32 - i,
        {
            out.push(self.0[i]);
            assert(out@ =~= self.bytes().subrange(0, i + 1));
            i += 1;
        }
        assert(out@ =~= self.bytes());
        out
    }

    /// Whether the raw bytes of a stored row spell this identifier.
    pub fn matches_bytes(&self, raw: &[u8]) -> (r: bool)
        ensures
            r == (raw@ == self.bytes()),
    {
        if raw.len() != 32 {
            return false;
        }
        let mut i: usize = 0;
        while i < 32
            invariant
                i <= 32,
                raw@.len() == 32,
                forall|j: int| 0 <= j < i ==> raw@[j] == self.bytes()[j],
            decreases 32 - i,
        {
            if raw[i] != self.0[i] {
                return false;
            }
            i += 1;
        }
        assert(raw@ =~= self.bytes());
        true
    }
}

/// Two identifiers with the same bytes are the same identifier.
pub proof fn lemma_object_id_by_bytes(a: ObjectId, b: ObjectId)
    ensures
        a.bytes() == b.bytes() <==> a == b,
{
    if a.bytes() == b.bytes() {
        assert(a.0 =~= b.0);
    }
}

impl PartialEq for ObjectId {
    fn eq(&self, other: &Self) -> (r: bool) {
        let mut i: usize = 0;
        while i < 32
            invariant
                i <= 32,
                forall|j: int| 0 <= j < i ==> self.0[j] == other.0[j],
            decreases 32 - i,
        {
            if self.0[i] != other.0[i] {
                return false;
            }
            i += 1;
        }
        assert(self.0 =~= other.0);
        true
    }
}

impl vstd::std_specs::cmp::PartialEqSpecImpl for ObjectId {
    open spec fn obeys_eq_spec() -> bool {
        true
    }

    open spec fn eq_spec(&self, other: &Self) -> bool {
        *self == *other
    }
}

/// Key for fetching the contents of a particular version of an object.
#[derive(Clone, Copy, Debug, Eq, Hash)]
pub struct VersionedObjectKey(pub ObjectId, pub u64);

impl PartialEq for VersionedObjectKey {
    fn eq(&self, other: &Self) -> (r: bool) {
        self.1 == other.1 && self.0 == other.0
    }
}

impl vstd::std_specs::cmp::PartialEqSpecImpl for VersionedObjectKey {
    open spec fn obeys_eq_spec() -> bool {
        true
    }

    open spec fn eq_spec(&self, other: &Self) -> bool {
        *self == *other
    }
}

/// Key for fetching the current version number of an object.
#[derive(Clone, Copy, Debug, Eq, Hash)]
pub struct LatestObjectVersionKey(pub ObjectId);

impl PartialEq for LatestObjectVersionKey {
    fn eq(&self, other: &Self) -> (r: bool) {
        self.0 == other.0
    }
}

impl vstd::std_specs::cmp::PartialEqSpecImpl for LatestObjectVersionKey {
    open spec fn obeys_eq_spec() -> bool {
        true
    }

    open spec fn eq_spec(&self, other: &Self) -> bool {
        *self == *other
    }
}

/// Key for fetching the record that tells whether an object is live.
#[derive(Clone, Copy, Debug, Eq, Hash)]
pub struct LatestObjectInfoKey(pub ObjectId);

impl PartialEq for LatestObjectInfoKey {
    fn eq(&self, other: &Self) -> (r: bool) {
        self.0 == other.0
    }
}

impl vstd::std_specs::cmp::PartialEqSpecImpl for LatestObjectInfoKey {
    open spec fn obeys_eq_spec() -> bool {
        true
    }

    open spec fn eq_spec(&self, other: &Self) -> bool {
        *self == *other
    }
}

/// The content store's own key shape: an identifier and a version.
#[derive(Clone, Copy, Debug, Eq, Hash)]
pub struct ObjectKey(pub ObjectId, pub u64);

impl PartialEq for ObjectKey {
    fn eq(&self, other: &Self) -> (r: bool) {
        self.1 == other.1 && self.0 == other.0
    }
}

impl vstd::std_specs::cmp::PartialEqSpecImpl for ObjectKey {
    open spec fn obeys_eq_spec() -> bool {
        true
    }

    open spec fn eq_spec(&self, other: &Self) -> bool {
        *self == *other
    }
}

} // verus!
