//! Conversions between the parts of a header, and from values and types to
//! their tags.

use vstd::prelude::*;
use core::ops::Range;
use crate::error::{Error, Fatal};
use crate::header::{Ext1, H4, L4, Tag};
use crate::storage::marker::ByteStorage;
use crate::value::{Type, TypeView, Value, ValueView};

verus! {

/// Where a scalar of `len` bytes sits in the eight-byte buffer when it is
/// aligned to the right, as integers are.
pub fn bytevar_urange(len: usize) -> (r: Range<usize>)
    requires
        len <= 8,
    ensures
        r.start == 8 - len,
        r.end == 8,
{
    (8 - len)..8
}

/// Where a scalar of `len` bytes sits in the eight-byte buffer when it is
/// aligned to the left, as floats are.
pub fn bytevar_frange(len: usize) -> (r: Range<usize>)
    ensures
        r.start == 0,
        r.end == len,
{
    0..len
}

/// How many bytes of a right-aligned buffer matter: all from the first that
/// is not zero, and at least one.
pub open spec fn ulen_of(buf: Seq<u8>) -> int
    recommends
        buf.len() == 8,
{
    if buf[0] != 0 {
        8
    } else if buf[1] != 0 {
        7
    } else if buf[2] != 0 {
        6
    } else if buf[3] != 0 {
        5
    } else if buf[4] != 0 {
        4
    } else if buf[5] != 0 {
        3
    } else if buf[6] != 0 {
        2
    } else {
        1
    }
}

/// How many bytes of a left-aligned buffer matter: all up to the last that
/// is not zero, and at least one.
pub open spec fn flen_of(buf: Seq<u8>) -> int
    recommends
        buf.len() == 8,
{
    if buf[7] != 0 {
        8
    } else if buf[6] != 0 {
        7
    } else if buf[5] != 0 {
        6
    } else if buf[4] != 0 {
        5
    } else if buf[3] != 0 {
        4
    } else if buf[2] != 0 {
        3
    } else if buf[1] != 0 {
        2
    } else {
        1
    }
}

/// The least number of bytes that hold a right-aligned scalar.
pub fn bytevar_ulen(buf: &[u8; 8]) -> (r: usize)
    ensures
        r == ulen_of(buf@),
        1 <= r <= 8,
        forall|i: int| 0 <= i < 8 - r ==> buf@[i] == 0,
{
    let mut i: usize = 0;
    while i < 8
        invariant
            i <= 8,
            forall|j: int| 0 <= j < i ==> buf@[j] == 0,
        decreases 8 - i,
    {
        if buf[i] != 0 {
            return 8 - i;
        }
        i += 1;
    }
    1
}

/// The least number of bytes that hold a left-aligned scalar.
pub fn bytevar_flen(buf: &[u8; 8]) -> (r: usize)
    ensures
        r == flen_of(buf@),
        1 <= r <= 8,
        forall|i: int| r <= i < 8 ==> buf@[i] == 0,
{
    let mut i: usize = 0;
    while i < 8
        invariant
            i <= 8,
            forall|j: int| 8 - i <= j < 8 ==> buf@[j] == 0,
        decreases 8 - i,
    {
        if buf[7 - i] != 0 {
            return 8 - i;
        }
        i += 1;
    }
    1
}

/// The header byte with `h4` in its high and `l4` in its low nibble.
pub open spec fn header_byte(h4: H4, l4: L4) -> u8 {
    (h4.code() * 16 + l4.code()) as u8
}

/// The byte of a header.
pub fn from_h4l4(h4: H4, l4: L4) -> (r: u8)
    ensures
        r == header_byte(h4, l4),
{
    h4.to_u8() * 16 + l4.to_u8()
}

/// The two nibbles of a header byte. Every byte is a header: each nibble has
/// sixteen values and so has each of `H4` and `L4`.
pub fn to_h4l4(n: u8) -> (r: Result<(H4, L4), Error>)
    ensures
        r matches Ok((h4, l4)) && h4.code() == n / 16 && l4.code() == n % 16 && header_byte(h4, l4)
            == n,
{
    let h = n / 16;
    let l = n % 16;
    let h4 = match H4::from_u8(h) {
        Some(h4) => h4,
        None => {
            return Err(Error::Fatal(Fatal::H4(h)));
        },
    };
    let l4 = match L4::from_u8(l) {
        Some(l4) => l4,
        None => {
            return Err(Error::Fatal(Fatal::L4(l)));
        },
    };
    Ok((h4, l4))
}

impl H4 {
    /// Whether the family is one of the eight numeric ones.
    pub open spec fn numeric(self) -> bool {
        self.code() < 0x8
    }

    /// Whether the family is one of the eight numeric ones.
    pub fn is_num(&self) -> (r: bool)
        ensures
            r == self.numeric(),
    {
        self.to_u8() < 0x8
    }

    /// How many bytes follow a header of a numeric family.
    pub fn to_bytevar_len(self) -> (r: Result<usize, Fatal>)
        ensures
            self.numeric() ==> r == Ok::<usize, Fatal>((self.code() + 1) as usize),
            !self.numeric() ==> r == Err::<usize, Fatal>(Fatal::H4ToN(self)),
    {
        Ok(
            match self {
                H4::N1 => 1,
                H4::N2 => 2,
                H4::N3 => 3,
                H4::N4 => 4,
                H4::N5 => 5,
                H4::N6 => 6,
                H4::N7 => 7,
                H4::N8 => 8,
                _ => {
                    return Err(Fatal::H4ToN(self));
                },
            },
        )
    }

    /// The symbol that a numeric family stands for under `L4::EXT1`.
    pub fn to_ext1(self) -> (r: Result<Ext1, Fatal>)
        ensures
            self.numeric() ==> (r matches Ok(e) && e.code() == self.code()),
            !self.numeric() ==> r == Err::<Ext1, Fatal>(Fatal::H4ToExt1(self)),
    {
        Ok(
            match self {
                H4::N1 => Ext1::Unit,
                H4::N2 => Ext1::False,
                H4::N3 => Ext1::True,
                H4::N4 => Ext1::OptNone,
                H4::N5 => Ext1::OptSome,
                H4::N6 => Ext1::Alias,
                H4::N7 => Ext1::Type,
                H4::N8 => Ext1::TypeId,
                _ => {
                    return Err(Fatal::H4ToExt1(self));
                },
            },
        )
    }

    /// The numeric family whose headers are followed by `pos` bytes.
    pub fn from_bytevar_len(pos: usize) -> (r: Result<H4, Fatal>)
        ensures
            1 <= pos <= 8 ==> (r matches Ok(h4) && h4.code() == pos - 1),
            !(1 <= pos <= 8) ==> r == Err::<H4, Fatal>(Fatal::NToH4(pos)),
    {
        Ok(
            match pos {
                1 => H4::N1,
                2 => H4::N2,
                3 => H4::N3,
                4 => H4::N4,
                5 => H4::N5,
                6 => H4::N6,
                7 => H4::N7,
                8 => H4::N8,
                _ => {
                    return Err(Fatal::NToH4(pos));
                },
            },
        )
    }

    /// The numeric family that stands for a symbol under `L4::EXT1`.
    pub fn from_ext1(ext1: Ext1) -> (r: H4)
        ensures
            r.code() == ext1.code(),
            r.numeric(),
    {
        match ext1 {
            Ext1::Unit => H4::N1,
            Ext1::False => H4::N2,
            Ext1::True => H4::N3,
            Ext1::OptNone => H4::N4,
            Ext1::OptSome => H4::N5,
            Ext1::Alias => H4::N6,
            Ext1::Type => H4::N7,
            Ext1::TypeId => H4::N8,
        }
    }
}

impl TypeView {
    /// The tag that opens the type on the wire.
    pub open spec fn tag(self) -> Tag {
        match self {
            TypeView::Unknown => Tag::Unknown,
            TypeView::Unit => Tag::Unit,
            TypeView::Bool => Tag::Bool,
            TypeView::U8 => Tag::U8,
            TypeView::U16 => Tag::U16,
            TypeView::U32 => Tag::U32,
            TypeView::U64 => Tag::U64,
            TypeView::I8 => Tag::I8,
            TypeView::I16 => Tag::I16,
            TypeView::I32 => Tag::I32,
            TypeView::I64 => Tag::I64,
            TypeView::F16 => Tag::F16,
            TypeView::F32 => Tag::F32,
            TypeView::F64 => Tag::F64,
            TypeView::String => Tag::String,
            TypeView::Bytes => Tag::Bytes,
            TypeView::Option(_) => Tag::Option,
            TypeView::List(_) => Tag::List,
            TypeView::Dict(_, _) => Tag::Dict,
            TypeView::Tuple(_) => Tag::Tuple,
            TypeView::Alias(_) => Tag::Alias,
            TypeView::CEnum(_) => Tag::CEnum,
            TypeView::Enum(_) => Tag::Enum,
            TypeView::Struct(_) => Tag::Struct,
            TypeView::Type => Tag::Type,
            TypeView::TypeId => Tag::TypeId,
        }
    }
}

impl Type {
    /// The tag that opens the type on the wire.
    pub fn as_tag(&self) -> (r: Tag)
        ensures
            r == self@.tag(),
    {
        match self {
            Type::Unknown => Tag::Unknown,
            Type::Unit => Tag::Unit,
            Type::Bool => Tag::Bool,
            Type::U8 => Tag::U8,
            Type::U16 => Tag::U16,
            Type::U32 => Tag::U32,
            Type::U64 => Tag::U64,
            Type::I8 => Tag::I8,
            Type::I16 => Tag::I16,
            Type::I32 => Tag::I32,
            Type::I64 => Tag::I64,
            Type::F16 => Tag::F16,
            Type::F32 => Tag::F32,
            Type::F64 => Tag::F64,
            Type::String => Tag::String,
            Type::Bytes => Tag::Bytes,
            Type::Option(_) => Tag::Option,
            Type::List(_) => Tag::List,
            Type::Dict(_, _) => Tag::Dict,
            Type::Tuple(_) => Tag::Tuple,
            Type::Alias(_) => Tag::Alias,
            Type::CEnum(_) => Tag::CEnum,
            Type::Enum(_) => Tag::Enum,
            Type::Struct(_) => Tag::Struct,
            Type::Type => Tag::Type,
            Type::TypeId => Tag::TypeId,
        }
    }
}

impl Clone for Type {
    /// A copy with the same view.
    fn clone(&self) -> (r: Type)
        ensures
            r@ == self@,
        decreases self,
    {
        match self {
            Type::Unknown => Type::Unknown,
            Type::Unit => Type::Unit,
            Type::Bool => Type::Bool,
            Type::U8 => Type::U8,
            Type::U16 => Type::U16,
            Type::U32 => Type::U32,
            Type::U64 => Type::U64,
            Type::I8 => Type::I8,
            Type::I16 => Type::I16,
            Type::I32 => Type::I32,
            Type::I64 => Type::I64,
            Type::F16 => Type::F16,
            Type::F32 => Type::F32,
            Type::F64 => Type::F64,
            Type::String => Type::String,
            Type::Bytes => Type::Bytes,
            Type::Option(t) => Type::Option(Box::new((&**t).clone())),
            Type::List(t) => Type::List(Box::new((&**t).clone())),
            Type::Dict(tk, tv) => Type::Dict(
                Box::new((&**tk).clone()),
                Box::new((&**tv).clone()),
            ),
            Type::Tuple(ts) => {
                let mut out: Vec<Type> = Vec::new();
                let mut i: usize = 0;
                while i < ts.len()
                    invariant
                        i <= ts.len(),
                        out.len() == i,
                        self is Tuple,
                        self->Tuple_0 == *ts,
                        forall|j: int| 0 <= j < i ==> out@[j]@ == ts@[j]@,
                    decreases ts.len() - i,
                {
                    out.push(ts[i].clone());
                    i += 1;
                }
                let r = Type::Tuple(out);
                assert(Type::views(out@) =~= Type::views(ts@));
                r
            },
            Type::Alias(id) => Type::Alias(*id),
            Type::CEnum(id) => Type::CEnum(*id),
            Type::Enum(id) => Type::Enum(*id),
            Type::Struct(id) => Type::Struct(*id),
            Type::Type => Type::Type,
            Type::TypeId => Type::TypeId,
        }
    }
}

impl<B: ByteStorage> Value<B> {
    /// The tag of the value's type.
    pub fn as_tag(&self) -> (r: Tag)
        ensures
            r == self@.type_of().tag(),
    {
        match self {
            Value::Unit => Tag::Unit,
            Value::Bool(_) => Tag::Bool,
            Value::U8(_) => Tag::U8,
            Value::U16(_) => Tag::U16,
            Value::U32(_) => Tag::U32,
            Value::U64(_) => Tag::U64,
            Value::I8(_) => Tag::I8,
            Value::I16(_) => Tag::I16,
            Value::I32(_) => Tag::I32,
            Value::I64(_) => Tag::I64,
            Value::F16(_) => Tag::F16,
            Value::F32(_) => Tag::F32,
            Value::F64(_) => Tag::F64,
            Value::String(_) => Tag::String,
            Value::Bytes(_) => Tag::Bytes,
            Value::Option(_, _) => Tag::Option,
            Value::List(_, _) => Tag::List,
            Value::Dict(_, _, _) => Tag::Dict,
            Value::Tuple(_) => Tag::Tuple,
            Value::Alias(_, _) => Tag::Alias,
            Value::CEnum(_, _) => Tag::CEnum,
            Value::Enum(_, _, _) => Tag::Enum,
            Value::Struct(_, _) => Tag::Struct,
            Value::Type(_) => Tag::Type,
            Value::TypeId(_) => Tag::TypeId,
        }
    }

    /// The type that structurally describes the value: stored where the
    /// value stores one, gathered from the items of a tuple, nominal where
    /// the value carries an identifier.
    pub fn as_type(&self) -> (r: Type)
        ensures
            r@ == self@.type_of(),
        decreases self,
    {
        match self {
            Value::Unit => Type::Unit,
            Value::Bool(_) => Type::Bool,
            Value::U8(_) => Type::U8,
            Value::U16(_) => Type::U16,
            Value::U32(_) => Type::U32,
            Value::U64(_) => Type::U64,
            Value::I8(_) => Type::I8,
            Value::I16(_) => Type::I16,
            Value::I32(_) => Type::I32,
            Value::I64(_) => Type::I64,
            Value::F16(_) => Type::F16,
            Value::F32(_) => Type::F32,
            Value::F64(_) => Type::F64,
            Value::String(_) => Type::String,
            Value::Bytes(_) => Type::Bytes,
            Value::Type(_) => Type::Type,
            Value::TypeId(_) => Type::TypeId,
            Value::Option(t, _) => Type::Option(Box::new(t.clone())),
            Value::List(t, _) => Type::List(Box::new(t.clone())),
            Value::Dict(tk, tv, _) => Type::Dict(Box::new(tk.clone()), Box::new(tv.clone())),
            Value::Tuple(seq) => {
                let mut out: Vec<Type> = Vec::new();
                let mut i: usize = 0;
                while i < seq.len()
                    invariant
                        i <= seq.len(),
                        out.len() == i,
                        self is Tuple,
                        self->Tuple_0 == *seq,
                        forall|j: int| 0 <= j < i ==> out@[j]@ == (#[trigger] seq@[j])@.type_of(),
                    decreases seq.len() - i,
                {
                    out.push(seq[i].as_type());
                    i += 1;
                }
                let r = Type::Tuple(out);
                assert(self@ == ValueView::Tuple(Value::views(seq@)));
                assert(Type::views(out@) =~= self@.type_of()->Tuple_0);
                r
            },
            Value::Alias(id, _) => Type::Alias(*id),
            Value::CEnum(id, _) => Type::CEnum(*id),
            Value::Enum(id, _, _) => Type::Enum(*id),
            Value::Struct(id, _) => Type::Struct(*id),
        }
    }
}

/// `f` can be called on every storage and keeps the bytes as they are.
pub open spec fn keeps_content<B: ByteStorage, B2: ByteStorage, F: Fn(B) -> B2>(f: F) -> bool {
    &&& forall|b: B| call_requires(f, (b,))
    &&& forall|b: B, b2: B2| call_ensures(f, (b,), b2) ==> b2.content() == b.content()
}

impl<B: ByteStorage> Value<B> {
    /// Moves every string and byte blob of the value into another kind of
    /// storage. `f` must keep the bytes as they are.
    pub fn map_bytes<B2: ByteStorage, F: Fn(B) -> B2 + Copy>(self, f: F) -> (r: Value<B2>)
        requires
            keeps_content::<B, B2, F>(f),
        ensures
            r@ == self@,
        decreases self,
    {
        match self {
            Value::Unit => Value::Unit,
            Value::Bool(b) => Value::Bool(b),
            Value::U8(u) => Value::U8(u),
            Value::U16(u) => Value::U16(u),
            Value::U32(u) => Value::U32(u),
            Value::U64(u) => Value::U64(u),
            Value::I8(i) => Value::I8(i),
            Value::I16(i) => Value::I16(i),
            Value::I32(i) => Value::I32(i),
            Value::I64(i) => Value::I64(i),
            Value::F16(x) => Value::F16(x),
            Value::F32(x) => Value::F32(x),
            Value::F64(x) => Value::F64(x),
            Value::String(s) => Value::String(s.map_bytes(f)),
            Value::Bytes(b) => Value::Bytes(f(b)),
            Value::Option(t, o) => {
                match *o {
                    Some(v) => Value::Option(t, Box::new(Some(v.map_bytes(f)))),
                    None => Value::Option(t, Box::new(None)),
                }
            },
            Value::List(t, vs) => Value::List(t, Value::map_bytes_seq(vs, f)),
            Value::Dict(tk, tv, es) => Value::Dict(tk, tv, Value::map_bytes_entries(es, f)),
            Value::Tuple(vs) => Value::Tuple(Value::map_bytes_seq(vs, f)),
            Value::Alias(id, v) => Value::Alias(id, Box::new((*v).map_bytes(f))),
            Value::CEnum(id, ev) => Value::CEnum(id, ev),
            Value::Enum(id, ev, v) => Value::Enum(id, ev, Box::new((*v).map_bytes(f))),
            Value::Struct(id, vs) => Value::Struct(id, Value::map_bytes_seq(vs, f)),
            Value::Type(t) => Value::Type(t),
            Value::TypeId(id) => Value::TypeId(id),
        }
    }

    /// Moves the strings and byte blobs of every value of a sequence.
    pub fn map_bytes_seq<B2: ByteStorage, F: Fn(B) -> B2 + Copy>(vs: Vec<Value<B>>, f: F) -> (r:
        Vec<Value<B2>>)
        requires
            keeps_content::<B, B2, F>(f),
        ensures
            Value::views(r@) == Value::views(vs@),
        decreases vs,
    {
        let ghost all = vs@;
        let mut out: Vec<Value<B2>> = Vec::new();
        for v in it: vs.into_iter()
            invariant
                it.seq() == all,
                all == vs@,
                keeps_content::<B, B2, F>(f),
                out.len() == it.index(),
                forall|j: int| 0 <= j < out.len() ==> (#[trigger] out@[j])@ == all[j]@,
        {
            out.push(v.map_bytes(f));
        }
        out
    }

    /// Moves the strings and byte blobs of every entry of a sequence.
    pub fn map_bytes_entries<B2: ByteStorage, F: Fn(B) -> B2 + Copy>(
        es: Vec<(Value<B>, Value<B>)>,
        f: F,
    ) -> (r: Vec<(Value<B2>, Value<B2>)>)
        requires
            keeps_content::<B, B2, F>(f),
        ensures
            Value::entry_views(r@) == Value::entry_views(es@),
        decreases es,
    {
        let ghost all = es@;
        let mut out: Vec<(Value<B2>, Value<B2>)> = Vec::new();
        for e in it: es.into_iter()
            invariant
                it.seq() == all,
                all == es@,
                keeps_content::<B, B2, F>(f),
                out.len() == it.index(),
                forall|j: int|
                    0 <= j < out.len() ==> (#[trigger] out@[j]).0@ == all[j].0@ && out@[j].1@
                        == all[j].1@,
        {
            let (k, v) = e;
            out.push((k.map_bytes(f), v.map_bytes(f)));
        }
        out
    }
}

} // verus!
