//! Identifiers of nominal types.

use vstd::prelude::*;
use crate::bigend::{be_bytes, be_value, u16_from_bytes, u16_to_bytes, u64_to_bytes};

verus! {

/// The leading byte that stands for the anonymous identifier.
pub const SCHEMA_ANONYMOUS: u8 = 0x00;

/// The leading byte that announces a hash identifier.
pub const SCHEMA_HASH: u8 = 0xff;

/// What a type identifier is, mathematically.
pub enum TypeIdView {
    Anonymous,
    Std { schema: u8, id: u16 },
    Hash { hash: Seq<u8> },
}

impl TypeIdView {
    /// A standard identifier keeps clear of the two reserved schemas, and a
    /// hash has seven bytes.
    pub open spec fn wf(self) -> bool {
        match self {
            TypeIdView::Anonymous => true,
            TypeIdView::Std { schema, id } => schema != SCHEMA_ANONYMOUS && schema != SCHEMA_HASH,
            TypeIdView::Hash { hash } => hash.len() == 7,
        }
    }

    /// The leading byte of the identifier on the wire.
    pub open spec fn h8(self) -> u8 {
        match self {
            TypeIdView::Anonymous => SCHEMA_ANONYMOUS,
            TypeIdView::Std { schema, id } => schema,
            TypeIdView::Hash { hash } => SCHEMA_HASH,
        }
    }

    /// The identifier as eight bytes: the leading byte, then the hash, or
    /// zeros with the standard id in the last two bytes.
    pub open spec fn fixed_bytes(self) -> Seq<u8> {
        match self {
            TypeIdView::Anonymous => seq![0u8, 0u8, 0u8, 0u8, 0u8, 0u8, 0u8, 0u8],
            TypeIdView::Std { schema, id } => seq![schema, 0u8, 0u8, 0u8, 0u8, 0u8] + be_bytes(
                id as nat,
                2,
            ),
            TypeIdView::Hash { hash } => seq![SCHEMA_HASH] + hash,
        }
    }

    /// The identifier that eight bytes stand for.
    pub open spec fn of_fixed_bytes(bytes: Seq<u8>) -> TypeIdView
        recommends
            bytes.len() == 8,
    {
        if bytes[0] == SCHEMA_HASH {
            TypeIdView::Hash { hash: bytes.subrange(1, 8) }
        } else if bytes[0] == SCHEMA_ANONYMOUS {
            TypeIdView::Anonymous
        } else {
            TypeIdView::Std { schema: bytes[0], id: be_value(bytes.subrange(6, 8)) as u16 }
        }
    }
}

/// The identifier of a nominal type.
#[derive(Debug, Clone, Copy, PartialEq, Eq, PartialOrd, Ord, Hash)]
pub enum TypeId {
    Anonymous,
    Std(StdId),
    Hash(HashId),
}

/// An identifier assigned within a schema.
#[derive(Debug, Clone, Copy, PartialEq, Eq, PartialOrd, Ord, Hash)]
pub struct StdId {
    schema: u8,
    id: u16,
}

/// An identifier derived from a hash.
#[derive(Debug, Clone, Copy, PartialEq, Eq, PartialOrd, Ord, Hash)]
pub struct HashId {
    hash: [u8; 7],
}

impl View for StdId {
    type V = TypeIdView;

    closed spec fn view(&self) -> TypeIdView {
        TypeIdView::Std { schema: self.schema, id: self.id }
    }
}

impl View for HashId {
    type V = TypeIdView;

    closed spec fn view(&self) -> TypeIdView {
        TypeIdView::Hash { hash: self.hash@ }
    }
}

impl View for TypeId {
    type V = TypeIdView;

    closed spec fn view(&self) -> TypeIdView {
        match self {
            TypeId::Anonymous => TypeIdView::Anonymous,
            TypeId::Std(std_id) => std_id@,
            TypeId::Hash(hash_id) => hash_id@,
        }
    }
}

impl StdId {
    /// The schema is none of the reserved ones.
    pub open spec fn wf(&self) -> bool {
        self@.wf()
    }

    pub fn schema(&self) -> (r: u8)
        ensures
            self@ matches TypeIdView::Std { schema, id } && r == schema,
    {
        self.schema
    }

    pub fn id(&self) -> (r: u16)
        ensures
            self@ matches TypeIdView::Std { schema, id } && r == id,
    {
        self.id
    }

    /// The identifier `id` of a schema that is known not to be reserved.
    pub(crate) fn from_parts(schema: u8, id: u16) -> (r: StdId)
        requires
            schema != SCHEMA_ANONYMOUS,
            schema != SCHEMA_HASH,
        ensures
            r@ == (TypeIdView::Std { schema, id }),
            r.wf(),
    {
        StdId { schema, id }
    }

    /// The identifier `id` of `schema`, unless the schema is reserved.
    pub fn from_inner(schema: u8, id: u16) -> (r: Option<StdId>)
        ensures
            schema == SCHEMA_ANONYMOUS || schema == SCHEMA_HASH ==> r is None,
            schema != SCHEMA_ANONYMOUS && schema != SCHEMA_HASH ==> (r matches Some(s) && s@ == (
            TypeIdView::Std { schema, id }) && s.wf()),
    {
        if schema == SCHEMA_ANONYMOUS || schema == SCHEMA_HASH {
            None
        } else {
            Some(StdId { schema, id })
        }
    }
}

/// The 64-bit SipHash (keys zero) of a string, as the standard library's
/// `Hash` impl for `str` feeds it.
pub uninterp spec fn sip_hash_of_str(path: Seq<char>) -> u64;

/// Hashes `path` with `core::hash::SipHasher::new()`: `str::hash` feeds the
/// hasher and `Hasher::finish` reads the result. The keys are fixed, so the
/// result depends on the text alone.
#[verifier::external_body]
#[allow(deprecated)]
fn sip_hash_str(path: &str) -> (r: u64)
    ensures
        r == sip_hash_of_str(path@),
{
    let mut hasher = core::hash::SipHasher::new();
    core::hash::Hash::hash(path, &mut hasher);
    core::hash::Hasher::finish(&hasher)
}

impl HashId {
    /// Always holds: a hash identifier has seven bytes.
    pub open spec fn wf(&self) -> bool {
        self@.wf()
    }

    pub fn hash(&self) -> (r: [u8; 7])
        ensures
            self@ == (TypeIdView::Hash { hash: r@ }),
    {
        self.hash
    }

    pub fn from_hash(hash: [u8; 7]) -> (r: HashId)
        ensures
            r@ == (TypeIdView::Hash { hash: hash@ }),
    {
        HashId { hash }
    }

    /// The identifier made of the low seven bytes of a 64-bit hash.
    pub fn from_hash64(hash: u64) -> (r: HashId)
        ensures
            r@ == (TypeIdView::Hash { hash: be_bytes(hash as nat, 8).subrange(1, 8) }),
    {
        let bytes = u64_to_bytes(hash);
        let hash = [bytes[1], bytes[2], bytes[3], bytes[4], bytes[5], bytes[6], bytes[7]];
        assert(hash@ =~= bytes@.subrange(1, 8));
        HashId { hash }
    }

    /// The identifier of the type named `path`: the low seven bytes of the
    /// path's hash.
    pub fn from_path(path: &str) -> (r: HashId)
        ensures
            r@ == (TypeIdView::Hash {
                hash: be_bytes(sip_hash_of_str(path@) as nat, 8).subrange(1, 8),
            }),
    {
        HashId::from_hash64(sip_hash_str(path))
    }
}

impl TypeId {
    /// A standard identifier inside keeps clear of the reserved schemas.
    pub open spec fn wf(&self) -> bool {
        self@.wf()
    }

    /// How the view follows the variant.
    pub proof fn lemma_view(&self)
        ensures
            match *self {
                TypeId::Anonymous => self@ is Anonymous,
                TypeId::Std(std_id) => self@ == std_id@ && self@ is Std,
                TypeId::Hash(hash_id) => self@ == hash_id@ && self@ is Hash && self@.wf(),
            },
    {
    }

    /// The leading byte of the identifier on the wire.
    pub fn as_h8(&self) -> (r: u8)
        ensures
            r == self@.h8(),
    {
        match self {
            TypeId::Anonymous => SCHEMA_ANONYMOUS,
            TypeId::Std(std_id) => std_id.schema,
            TypeId::Hash(_) => SCHEMA_HASH,
        }
    }

    /// The identifier that eight bytes stand for.
    pub fn from_bytes(bytes: [u8; 8]) -> (r: TypeId)
        ensures
            r@ == TypeIdView::of_fixed_bytes(bytes@),
            r.wf(),
    {
        let h8 = bytes[0];
        if h8 == SCHEMA_HASH {
            let hash = [bytes[1], bytes[2], bytes[3], bytes[4], bytes[5], bytes[6], bytes[7]];
            assert(hash@ =~= bytes@.subrange(1, 8));
            TypeId::Hash(HashId { hash })
        } else if h8 == SCHEMA_ANONYMOUS {
            TypeId::Anonymous
        } else {
            let id_bytes = [bytes[6], bytes[7]];
            assert(id_bytes@ =~= bytes@.subrange(6, 8));
            let id = u16_from_bytes(id_bytes);
            TypeId::Std(StdId { schema: h8, id })
        }
    }

    /// The identifier as eight bytes.
    pub fn to_bytes(&self) -> (r: [u8; 8])
        ensures
            r@ == self@.fixed_bytes(),
    {
        let mut bytes = [0u8;8];
        bytes[0] = self.as_h8();
        match self {
            TypeId::Std(std_id) => {
                let id = u16_to_bytes(std_id.id);
                bytes[6] = id[0];
                bytes[7] = id[1];
            },
            TypeId::Hash(hash_id) => {
                let mut i: usize = 0;
                while i < 7
                    invariant
                        i <= 7,
                        bytes@[0] == SCHEMA_HASH,
                        forall|j: int| 0 <= j < i ==> bytes@[j + 1] == hash_id.hash@[j],
                    decreases 7 - i,
                {
                    bytes[i + 1] = hash_id.hash[i];
                    i += 1;
                }
            },
            TypeId::Anonymous => {},
        }
        bytes
    }
}

} // verus!
