//! The persistence capabilities every durable entity offers: a category tag,
//! a key derived from the entity's identity, and a deterministic byte
//! encoding whose decoder accepts exactly the encoder's output.

use vstd::prelude::*;

verus! {

/// Category tag namespacing keys of different entity kinds that share one
/// storage backend.
#[derive(Clone, Copy, Debug, PartialEq, Eq, Structural)]
pub enum StorableObjectType {
    NodeSpec,
    PoolSpec,
    VolumeSpec,
}

/// Decoding stored bytes failed: the record is corrupt or incompatible.
///
/// Distinct from a missing record, which the storage backend reports itself;
/// this error only ever means the bytes under a live key do not decode.
#[derive(Clone, Copy, Debug, PartialEq, Eq, Structural)]
pub enum DecodeError {
    /// The bytes are not a well-formed encoding of the entity.
    Corrupt,
}

/// A fully-qualified storage address: a category tag plus a stable identity
/// string, unique per live entity within the category.
pub trait ObjectKey: Sized {
    /// The category this key addresses.
    spec fn spec_key_type(&self) -> StorableObjectType;

    /// The identity string this key addresses within the category.
    spec fn spec_key_uuid(&self) -> Seq<char>;

    /// The category tag of the addressed entity kind.
    fn key_type(&self) -> (t: StorableObjectType)
        ensures
            t == self.spec_key_type(),
    ;

    /// The stable identity of the addressed entity within its category.
    fn key_uuid(&self) -> (s: String)
        ensures
            s@ == self.spec_key_uuid(),
    ;
}

/// An entity type whose values can report their identity as a string.
pub trait UuidString: Sized {
    /// The identity string of this value.
    spec fn spec_uuid(&self) -> Seq<char>;

    /// The identity string of this value, as owned text.
    fn uuid_as_string(&self) -> (s: String)
        ensures
            s@ == self.spec_uuid(),
    ;
}

/// A persistable entity: it derives its own key from its identity fields and
/// encodes itself to bytes that decode back to an equal value.
pub trait StorableObject: View + Sized {
    /// The key type addressing this entity kind.
    type Key: ObjectKey;

    /// What a byte string decodes to: `Some` exactly on the well-formed
    /// encodings, `None` on every corrupt or incompatible byte string.
    spec fn spec_decoded(bytes: Seq<u8>) -> Option<Self::V>;

    /// The category tag of this entity kind.
    spec fn spec_key_type(&self) -> StorableObjectType;

    /// The identity string the entity's key must carry.
    spec fn spec_key_uuid(&self) -> Seq<char>;

    /// Derive the fully-qualified key from the entity's identity fields.
    fn key(&self) -> (k: Self::Key)
        ensures
            k.spec_key_type() == self.spec_key_type(),
            k.spec_key_uuid() == self.spec_key_uuid(),
    ;

    /// Encode the entity for durable storage.  The encoding decodes back to
    /// the entity itself, so storing and re-reading loses nothing.
    fn serialize(&self) -> (bytes: Vec<u8>)
        ensures
            Self::spec_decoded(bytes@) == Some(self@),
    ;

    /// Decode a stored record.  Succeeds exactly on well-formed encodings;
    /// anything else is reported as a corrupt record, never silently
    /// defaulted.
    fn deserialize(bytes: &[u8]) -> (r: Result<Self, DecodeError>)
        ensures
            match r {
                Ok(v) => Self::spec_decoded(bytes@) == Some(v@),
                Err(e) => Self::spec_decoded(bytes@) is None && e == DecodeError::Corrupt,
            },
    ;
}

} // verus!
