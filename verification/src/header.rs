//! The one-byte codes of the format: type tags, and the two nibbles of a
//! value header.

use vstd::prelude::*;
use crate::error::{Error, Fatal};

verus! {

/// The tag byte that opens an encoded type.
#[derive(Clone, Copy, Debug, PartialEq, Eq, Structural)]
pub enum Tag {
    Unknown,
    Unit,
    Bool,
    U8,
    U16,
    U32,
    U64,
    I8,
    I16,
    I32,
    I64,
    F16,
    F32,
    F64,
    String,
    Bytes,
    Option,
    List,
    Dict,
    Tuple,
    Alias,
    CEnum,
    Enum,
    Struct,
    Type,
    TypeId,
}

/// The high nibble of a header: the family of the value.
#[derive(Clone, Copy, Debug, PartialEq, Eq, Structural)]
pub enum H4 {
    N1,
    N2,
    N3,
    N4,
    N5,
    N6,
    N7,
    N8,
    String,
    Bytes,
    List,
    Dict,
    Tuple,
    CEnum,
    Enum,
    Struct,
}

/// The low nibble of a header: the scalar kind under a numeric family, the
/// length class under any other.
#[derive(Clone, Copy, Debug, PartialEq, Eq, Structural)]
pub enum L4 {
    U8,
    U16,
    U32,
    U64,
    I8,
    P16,
    P32,
    P64,
    N16,
    N32,
    N64,
    F16,
    F32,
    F64,
    EXT1,
    EXT2,
}

/// The symbols that a numeric family stands for under `L4::EXT1`.
#[derive(Clone, Copy, Debug, PartialEq, Eq, Structural)]
pub enum Ext1 {
    Unit,
    False,
    True,
    OptNone,
    OptSome,
    Alias,
    Type,
    TypeId,
}

/// Length class: the quantity follows in one byte.
pub const EXT8: L4 = L4::F32;

/// Length class: the quantity follows in two bytes.
pub const EXT16: L4 = L4::F64;

/// Length class: the quantity follows in four bytes.
pub const EXT32: L4 = L4::EXT1;

/// Length class: the quantity follows in eight bytes.
pub const EXT64: L4 = L4::EXT2;

impl Tag {
    /// The byte that stands for the tag.
    pub open spec fn code(self) -> u8 {
        match self {
            Tag::Unknown => 0x00,
            Tag::Unit => 0x01,
            Tag::Bool => 0x02,
            Tag::U8 => 0x03,
            Tag::U16 => 0x04,
            Tag::U32 => 0x05,
            Tag::U64 => 0x06,
            Tag::I8 => 0x07,
            Tag::I16 => 0x08,
            Tag::I32 => 0x09,
            Tag::I64 => 0x0a,
            Tag::F16 => 0x0b,
            Tag::F32 => 0x0c,
            Tag::F64 => 0x0d,
            Tag::String => 0x0e,
            Tag::Bytes => 0x0f,
            Tag::Option => 0x10,
            Tag::List => 0x11,
            Tag::Dict => 0x12,
            Tag::Tuple => 0x13,
            Tag::Alias => 0x14,
            Tag::CEnum => 0x15,
            Tag::Enum => 0x16,
            Tag::Struct => 0x17,
            Tag::Type => 0x18,
            Tag::TypeId => 0x19,
        }
    }

    /// The tag that a byte stands for, if any.
    pub open spec fn of_code(b: u8) -> Option<Tag> {
        if b == 0x00 {
            Some(Tag::Unknown)
        } else if b == 0x01 {
            Some(Tag::Unit)
        } else if b == 0x02 {
            Some(Tag::Bool)
        } else if b == 0x03 {
            Some(Tag::U8)
        } else if b == 0x04 {
            Some(Tag::U16)
        } else if b == 0x05 {
            Some(Tag::U32)
        } else if b == 0x06 {
            Some(Tag::U64)
        } else if b == 0x07 {
            Some(Tag::I8)
        } else if b == 0x08 {
            Some(Tag::I16)
        } else if b == 0x09 {
            Some(Tag::I32)
        } else if b == 0x0a {
            Some(Tag::I64)
        } else if b == 0x0b {
            Some(Tag::F16)
        } else if b == 0x0c {
            Some(Tag::F32)
        } else if b == 0x0d {
            Some(Tag::F64)
        } else if b == 0x0e {
            Some(Tag::String)
        } else if b == 0x0f {
            Some(Tag::Bytes)
        } else if b == 0x10 {
            Some(Tag::Option)
        } else if b == 0x11 {
            Some(Tag::List)
        } else if b == 0x12 {
            Some(Tag::Dict)
        } else if b == 0x13 {
            Some(Tag::Tuple)
        } else if b == 0x14 {
            Some(Tag::Alias)
        } else if b == 0x15 {
            Some(Tag::CEnum)
        } else if b == 0x16 {
            Some(Tag::Enum)
        } else if b == 0x17 {
            Some(Tag::Struct)
        } else if b == 0x18 {
            Some(Tag::Type)
        } else if b == 0x19 {
            Some(Tag::TypeId)
        } else {
            None
        }
    }

    /// The byte that stands for the tag.
    pub fn to_u8(self) -> (r: u8)
        ensures
            r == self.code(),
    {
        match self {
            Tag::Unknown => 0x00,
            Tag::Unit => 0x01,
            Tag::Bool => 0x02,
            Tag::U8 => 0x03,
            Tag::U16 => 0x04,
            Tag::U32 => 0x05,
            Tag::U64 => 0x06,
            Tag::I8 => 0x07,
            Tag::I16 => 0x08,
            Tag::I32 => 0x09,
            Tag::I64 => 0x0a,
            Tag::F16 => 0x0b,
            Tag::F32 => 0x0c,
            Tag::F64 => 0x0d,
            Tag::String => 0x0e,
            Tag::Bytes => 0x0f,
            Tag::Option => 0x10,
            Tag::List => 0x11,
            Tag::Dict => 0x12,
            Tag::Tuple => 0x13,
            Tag::Alias => 0x14,
            Tag::CEnum => 0x15,
            Tag::Enum => 0x16,
            Tag::Struct => 0x17,
            Tag::Type => 0x18,
            Tag::TypeId => 0x19,
        }
    }

    /// The tag that a byte stands for, if any.
    pub fn from_u8(b: u8) -> (r: Option<Tag>)
        ensures
            r == Tag::of_code(b),
    {
        match b {
            0x00 => Some(Tag::Unknown),
            0x01 => Some(Tag::Unit),
            0x02 => Some(Tag::Bool),
            0x03 => Some(Tag::U8),
            0x04 => Some(Tag::U16),
            0x05 => Some(Tag::U32),
            0x06 => Some(Tag::U64),
            0x07 => Some(Tag::I8),
            0x08 => Some(Tag::I16),
            0x09 => Some(Tag::I32),
            0x0a => Some(Tag::I64),
            0x0b => Some(Tag::F16),
            0x0c => Some(Tag::F32),
            0x0d => Some(Tag::F64),
            0x0e => Some(Tag::String),
            0x0f => Some(Tag::Bytes),
            0x10 => Some(Tag::Option),
            0x11 => Some(Tag::List),
            0x12 => Some(Tag::Dict),
            0x13 => Some(Tag::Tuple),
            0x14 => Some(Tag::Alias),
            0x15 => Some(Tag::CEnum),
            0x16 => Some(Tag::Enum),
            0x17 => Some(Tag::Struct),
            0x18 => Some(Tag::Type),
            0x19 => Some(Tag::TypeId),
            _ => None,
        }
    }

    /// A tag and its byte determine each other.
    pub proof fn lemma_code_of_code(self)
        ensures
            Tag::of_code(self.code()) == Some(self),
    {
    }

}

impl H4 {
    /// The nibble that stands for the family.
    pub open spec fn code(self) -> u8 {
        match self {
            H4::N1 => 0x0,
            H4::N2 => 0x1,
            H4::N3 => 0x2,
            H4::N4 => 0x3,
            H4::N5 => 0x4,
            H4::N6 => 0x5,
            H4::N7 => 0x6,
            H4::N8 => 0x7,
            H4::String => 0x8,
            H4::Bytes => 0x9,
            H4::List => 0xa,
            H4::Dict => 0xb,
            H4::Tuple => 0xc,
            H4::CEnum => 0xd,
            H4::Enum => 0xe,
            H4::Struct => 0xf,
        }
    }

    /// The family that a nibble stands for, if any.
    pub open spec fn of_code(b: u8) -> Option<H4> {
        if b == 0x0 {
            Some(H4::N1)
        } else if b == 0x1 {
            Some(H4::N2)
        } else if b == 0x2 {
            Some(H4::N3)
        } else if b == 0x3 {
            Some(H4::N4)
        } else if b == 0x4 {
            Some(H4::N5)
        } else if b == 0x5 {
            Some(H4::N6)
        } else if b == 0x6 {
            Some(H4::N7)
        } else if b == 0x7 {
            Some(H4::N8)
        } else if b == 0x8 {
            Some(H4::String)
        } else if b == 0x9 {
            Some(H4::Bytes)
        } else if b == 0xa {
            Some(H4::List)
        } else if b == 0xb {
            Some(H4::Dict)
        } else if b == 0xc {
            Some(H4::Tuple)
        } else if b == 0xd {
            Some(H4::CEnum)
        } else if b == 0xe {
            Some(H4::Enum)
        } else if b == 0xf {
            Some(H4::Struct)
        } else {
            None
        }
    }

    /// The nibble that stands for the family.
    pub fn to_u8(self) -> (r: u8)
        ensures
            r == self.code(),
            r <= 0xf,
    {
        match self {
            H4::N1 => 0x0,
            H4::N2 => 0x1,
            H4::N3 => 0x2,
            H4::N4 => 0x3,
            H4::N5 => 0x4,
            H4::N6 => 0x5,
            H4::N7 => 0x6,
            H4::N8 => 0x7,
            H4::String => 0x8,
            H4::Bytes => 0x9,
            H4::List => 0xa,
            H4::Dict => 0xb,
            H4::Tuple => 0xc,
            H4::CEnum => 0xd,
            H4::Enum => 0xe,
            H4::Struct => 0xf,
        }
    }

    /// The family that a nibble stands for, if any.
    pub fn from_u8(b: u8) -> (r: Option<H4>)
        ensures
            r == H4::of_code(b),
    {
        match b {
            0x0 => Some(H4::N1),
            0x1 => Some(H4::N2),
            0x2 => Some(H4::N3),
            0x3 => Some(H4::N4),
            0x4 => Some(H4::N5),
            0x5 => Some(H4::N6),
            0x6 => Some(H4::N7),
            0x7 => Some(H4::N8),
            0x8 => Some(H4::String),
            0x9 => Some(H4::Bytes),
            0xa => Some(H4::List),
            0xb => Some(H4::Dict),
            0xc => Some(H4::Tuple),
            0xd => Some(H4::CEnum),
            0xe => Some(H4::Enum),
            0xf => Some(H4::Struct),
            _ => None,
        }
    }
}

impl L4 {
    /// The nibble that stands for the kind.
    pub open spec fn code(self) -> u8 {
        match self {
            L4::U8 => 0x0,
            L4::U16 => 0x1,
            L4::U32 => 0x2,
            L4::U64 => 0x3,
            L4::I8 => 0x4,
            L4::P16 => 0x5,
            L4::P32 => 0x6,
            L4::P64 => 0x7,
            L4::N16 => 0x8,
            L4::N32 => 0x9,
            L4::N64 => 0xa,
            L4::F16 => 0xb,
            L4::F32 => 0xc,
            L4::F64 => 0xd,
            L4::EXT1 => 0xe,
            L4::EXT2 => 0xf,
        }
    }

    /// The kind that a nibble stands for, if any.
    pub open spec fn of_code(b: u8) -> Option<L4> {
        if b == 0x0 {
            Some(L4::U8)
        } else if b == 0x1 {
            Some(L4::U16)
        } else if b == 0x2 {
            Some(L4::U32)
        } else if b == 0x3 {
            Some(L4::U64)
        } else if b == 0x4 {
            Some(L4::I8)
        } else if b == 0x5 {
            Some(L4::P16)
        } else if b == 0x6 {
            Some(L4::P32)
        } else if b == 0x7 {
            Some(L4::P64)
        } else if b == 0x8 {
            Some(L4::N16)
        } else if b == 0x9 {
            Some(L4::N32)
        } else if b == 0xa {
            Some(L4::N64)
        } else if b == 0xb {
            Some(L4::F16)
        } else if b == 0xc {
            Some(L4::F32)
        } else if b == 0xd {
            Some(L4::F64)
        } else if b == 0xe {
            Some(L4::EXT1)
        } else if b == 0xf {
            Some(L4::EXT2)
        } else {
            None
        }
    }

    /// The nibble that stands for the kind.
    pub fn to_u8(self) -> (r: u8)
        ensures
            r == self.code(),
            r <= 0xf,
    {
        match self {
            L4::U8 => 0x0,
            L4::U16 => 0x1,
            L4::U32 => 0x2,
            L4::U64 => 0x3,
            L4::I8 => 0x4,
            L4::P16 => 0x5,
            L4::P32 => 0x6,
            L4::P64 => 0x7,
            L4::N16 => 0x8,
            L4::N32 => 0x9,
            L4::N64 => 0xa,
            L4::F16 => 0xb,
            L4::F32 => 0xc,
            L4::F64 => 0xd,
            L4::EXT1 => 0xe,
            L4::EXT2 => 0xf,
        }
    }

    /// The kind that a nibble stands for, if any.
    pub fn from_u8(b: u8) -> (r: Option<L4>)
        ensures
            r == L4::of_code(b),
    {
        match b {
            0x0 => Some(L4::U8),
            0x1 => Some(L4::U16),
            0x2 => Some(L4::U32),
            0x3 => Some(L4::U64),
            0x4 => Some(L4::I8),
            0x5 => Some(L4::P16),
            0x6 => Some(L4::P32),
            0x7 => Some(L4::P64),
            0x8 => Some(L4::N16),
            0x9 => Some(L4::N32),
            0xa => Some(L4::N64),
            0xb => Some(L4::F16),
            0xc => Some(L4::F32),
            0xd => Some(L4::F64),
            0xe => Some(L4::EXT1),
            0xf => Some(L4::EXT2),
            _ => None,
        }
    }
}

impl Ext1 {
    /// The nibble that stands for the symbol.
    pub open spec fn code(self) -> u8 {
        match self {
            Ext1::Unit => 0x0,
            Ext1::False => 0x1,
            Ext1::True => 0x2,
            Ext1::OptNone => 0x3,
            Ext1::OptSome => 0x4,
            Ext1::Alias => 0x5,
            Ext1::Type => 0x6,
            Ext1::TypeId => 0x7,
        }
    }

    /// The symbol that a nibble stands for, if any.
    pub open spec fn of_code(b: u8) -> Option<Ext1> {
        if b == 0x0 {
            Some(Ext1::Unit)
        } else if b == 0x1 {
            Some(Ext1::False)
        } else if b == 0x2 {
            Some(Ext1::True)
        } else if b == 0x3 {
            Some(Ext1::OptNone)
        } else if b == 0x4 {
            Some(Ext1::OptSome)
        } else if b == 0x5 {
            Some(Ext1::Alias)
        } else if b == 0x6 {
            Some(Ext1::Type)
        } else if b == 0x7 {
            Some(Ext1::TypeId)
        } else {
            None
        }
    }

    /// The nibble that stands for the symbol.
    pub fn to_u8(self) -> (r: u8)
        ensures
            r == self.code(),
    {
        match self {
            Ext1::Unit => 0x0,
            Ext1::False => 0x1,
            Ext1::True => 0x2,
            Ext1::OptNone => 0x3,
            Ext1::OptSome => 0x4,
            Ext1::Alias => 0x5,
            Ext1::Type => 0x6,
            Ext1::TypeId => 0x7,
        }
    }

    /// The symbol that a nibble stands for, if any.
    pub fn from_u8(b: u8) -> (r: Option<Ext1>)
        ensures
            r == Ext1::of_code(b),
    {
        match b {
            0x0 => Some(Ext1::Unit),
            0x1 => Some(Ext1::False),
            0x2 => Some(Ext1::True),
            0x3 => Some(Ext1::OptNone),
            0x4 => Some(Ext1::OptSome),
            0x5 => Some(Ext1::Alias),
            0x6 => Some(Ext1::Type),
            0x7 => Some(Ext1::TypeId),
            _ => None,
        }
    }
}

impl vstd::std_specs::convert::TryFromSpecImpl<u8> for Tag {
    open spec fn obeys_try_from_spec() -> bool {
        true
    }

    open spec fn try_from_spec(b: u8) -> Result<Self, Self::Error> {
        match Tag::of_code(b) {
            Some(x) => Ok(x),
            None => Err(Error::Tag(b)),
        }
    }
}

impl TryFrom<u8> for Tag {
    type Error = Error;

    /// The tag that a byte stands for, or the byte as an error.
    fn try_from(b: u8) -> (r: Result<Self, Self::Error>) {
        match Tag::from_u8(b) {
            Some(x) => Ok(x),
            None => Err(Error::Tag(b)),
        }
    }
}

impl vstd::std_specs::convert::FromSpecImpl<Tag> for u8 {
    open spec fn obeys_from_spec() -> bool {
        true
    }

    open spec fn from_spec(x: Tag) -> Self {
        x.code()
    }
}

impl From<Tag> for u8 {
    /// The byte that stands for the tag.
    fn from(x: Tag) -> (r: Self) {
        x.to_u8()
    }
}

impl vstd::std_specs::convert::TryFromSpecImpl<u8> for H4 {
    open spec fn obeys_try_from_spec() -> bool {
        true
    }

    open spec fn try_from_spec(b: u8) -> Result<Self, Self::Error> {
        match H4::of_code(b) {
            Some(x) => Ok(x),
            None => Err(Fatal::H4(b)),
        }
    }
}

impl TryFrom<u8> for H4 {
    type Error = Fatal;

    /// The family that a byte stands for, or the byte as an error.
    fn try_from(b: u8) -> (r: Result<Self, Self::Error>) {
        match H4::from_u8(b) {
            Some(x) => Ok(x),
            None => Err(Fatal::H4(b)),
        }
    }
}

impl vstd::std_specs::convert::FromSpecImpl<H4> for u8 {
    open spec fn obeys_from_spec() -> bool {
        true
    }

    open spec fn from_spec(x: H4) -> Self {
        x.code()
    }
}

impl From<H4> for u8 {
    /// The byte that stands for the family.
    fn from(x: H4) -> (r: Self) {
        x.to_u8()
    }
}

impl vstd::std_specs::convert::TryFromSpecImpl<u8> for L4 {
    open spec fn obeys_try_from_spec() -> bool {
        true
    }

    open spec fn try_from_spec(b: u8) -> Result<Self, Self::Error> {
        match L4::of_code(b) {
            Some(x) => Ok(x),
            None => Err(Fatal::L4(b)),
        }
    }
}

impl TryFrom<u8> for L4 {
    type Error = Fatal;

    /// The kind that a byte stands for, or the byte as an error.
    fn try_from(b: u8) -> (r: Result<Self, Self::Error>) {
        match L4::from_u8(b) {
            Some(x) => Ok(x),
            None => Err(Fatal::L4(b)),
        }
    }
}

impl vstd::std_specs::convert::FromSpecImpl<L4> for u8 {
    open spec fn obeys_from_spec() -> bool {
        true
    }

    open spec fn from_spec(x: L4) -> Self {
        x.code()
    }
}

impl From<L4> for u8 {
    /// The byte that stands for the kind.
    fn from(x: L4) -> (r: Self) {
        x.to_u8()
    }
}

impl vstd::std_specs::convert::TryFromSpecImpl<u8> for Ext1 {
    open spec fn obeys_try_from_spec() -> bool {
        true
    }

    open spec fn try_from_spec(b: u8) -> Result<Self, Self::Error> {
        match Ext1::of_code(b) {
            Some(x) => Ok(x),
            None => Err(Fatal::Ext1(b)),
        }
    }
}

impl TryFrom<u8> for Ext1 {
    type Error = Fatal;

    /// The symbol that a byte stands for, or the byte as an error.
    fn try_from(b: u8) -> (r: Result<Self, Self::Error>) {
        match Ext1::from_u8(b) {
            Some(x) => Ok(x),
            None => Err(Fatal::Ext1(b)),
        }
    }
}

impl vstd::std_specs::convert::FromSpecImpl<Ext1> for u8 {
    open spec fn obeys_from_spec() -> bool {
        true
    }

    open spec fn from_spec(x: Ext1) -> Self {
        x.code()
    }
}

impl From<Ext1> for u8 {
    /// The byte that stands for the symbol.
    fn from(x: Ext1) -> (r: Self) {
        x.to_u8()
    }
}

} // verus!
