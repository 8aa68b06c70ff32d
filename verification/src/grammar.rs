//! What a byte sequence means: decoding, as a function from bytes and a
//! position to a value and the position after it, or to the error that
//! stops decoding and the position it stops at.

use vstd::prelude::*;
use crate::bigend::be_value;
use crate::casting::{flen_of, ulen_of};
use crate::error::{Error, Fatal};
use crate::header::{EXT16, EXT32, EXT64, EXT8, H4, L4, Tag};
use crate::storage::input::read_end;
use crate::storage::utf8::utf8_check;
use crate::typeid::{SCHEMA_ANONYMOUS, SCHEMA_HASH, TypeIdView};
use crate::value::{SIZE_MAX, TypeView, ValueView};
use crate::wire::{extvar_l4, zeros};

verus! {

/// The outcome of decoding at a position: what was decoded and where
/// decoding goes on, or what went wrong and where decoding stopped.
pub type Parsed<T> = Result<(T, int), (Error, int)>;

/// How many bytes are left at `pos`.
pub open spec fn remaining(s: Seq<u8>, pos: int) -> int {
    if pos < s.len() {
        s.len() - pos
    } else {
        0
    }
}

/// The later of two positions. Decoding never moves backwards, so this is
/// always `to`; it is written out where a definition by recursion needs the
/// fact before it can be proved.
pub open spec fn onward(from: int, to: int) -> int {
    if to >= from {
        to
    } else {
        from
    }
}

/// The eight bytes of a scalar buffer, as an array.
pub open spec fn buf_array(buf: Seq<u8>) -> [u8; 8]
    recommends
        buf.len() == 8,
{
    [buf[0], buf[1], buf[2], buf[3], buf[4], buf[5], buf[6], buf[7]]
}

/// An array is the array of its own bytes.
pub proof fn lemma_buf_array(a: [u8; 8])
    ensures
        buf_array(a@) == a,
{
}

/// One byte.
pub open spec fn dec_byte(s: Seq<u8>, pos: int) -> Parsed<u8> {
    if 0 <= pos < s.len() {
        Ok((s[pos], pos + 1))
    } else {
        Err((Error::TooShort { rest: 0, expected: 1 }, pos))
    }
}

/// A run of `size` bytes.
pub open spec fn dec_span(s: Seq<u8>, pos: int, size: usize) -> Parsed<Seq<u8>> {
    match read_end(s, pos, size) {
        Ok(end) => Ok((s.subrange(pos, end), end)),
        Err(e) => Err((Error::of_read(e), pos)),
    }
}

/// A big-endian number of `size` bytes.
pub open spec fn dec_uint(s: Seq<u8>, pos: int, size: usize) -> Parsed<nat> {
    match dec_span(s, pos, size) {
        Ok((b, p)) => Ok((be_value(b), p)),
        Err(e) => Err(e),
    }
}

/// A type identifier: the leading byte says whether a hash, nothing or a
/// standard id follows.
#[verifier::opaque]
pub open spec fn dec_typeid(s: Seq<u8>, pos: int) -> Parsed<TypeIdView> {
    match dec_byte(s, pos) {
        Err(e) => Err(e),
        Ok((h8, p)) => if h8 == SCHEMA_HASH {
            match dec_span(s, p, 7) {
                Ok((hash, p2)) => Ok((TypeIdView::Hash { hash }, p2)),
                Err(e) => Err(e),
            }
        } else if h8 == SCHEMA_ANONYMOUS {
            Ok((TypeIdView::Anonymous, p))
        } else {
            match dec_uint(s, p, 2) {
                Ok((id, p2)) => Ok((TypeIdView::Std { schema: h8, id: id as u16 }, p2)),
                Err(e) => Err(e),
            }
        },
    }
}

/// A type: the tag byte, then what the tag carries.
pub open spec fn dec_type(s: Seq<u8>, pos: int) -> Parsed<TypeView>
    decreases remaining(s, pos), 0nat,
{
    match dec_byte(s, pos) {
        Err(e) => Err(e),
        Ok((b, p)) => match Tag::of_code(b) {
            None => Err((Error::Tag(b), p)),
            Some(tag) => match tag {
                Tag::Unknown => Ok((TypeView::Unknown, p)),
                Tag::Unit => Ok((TypeView::Unit, p)),
                Tag::Bool => Ok((TypeView::Bool, p)),
                Tag::U8 => Ok((TypeView::U8, p)),
                Tag::U16 => Ok((TypeView::U16, p)),
                Tag::U32 => Ok((TypeView::U32, p)),
                Tag::U64 => Ok((TypeView::U64, p)),
                Tag::I8 => Ok((TypeView::I8, p)),
                Tag::I16 => Ok((TypeView::I16, p)),
                Tag::I32 => Ok((TypeView::I32, p)),
                Tag::I64 => Ok((TypeView::I64, p)),
                Tag::F16 => Ok((TypeView::F16, p)),
                Tag::F32 => Ok((TypeView::F32, p)),
                Tag::F64 => Ok((TypeView::F64, p)),
                Tag::String => Ok((TypeView::String, p)),
                Tag::Bytes => Ok((TypeView::Bytes, p)),
                Tag::Type => Ok((TypeView::Type, p)),
                Tag::TypeId => Ok((TypeView::TypeId, p)),
                Tag::Option => match dec_type(s, p) {
                    Ok((t, p2)) => Ok((TypeView::Option(Box::new(t)), p2)),
                    Err(e) => Err(e),
                },
                Tag::List => match dec_type(s, p) {
                    Ok((t, p2)) => Ok((TypeView::List(Box::new(t)), p2)),
                    Err(e) => Err(e),
                },
                Tag::Dict => match dec_type(s, p) {
                    Ok((tk, p2)) => match dec_type(s, onward(p, p2)) {
                        Ok((tv, p3)) => Ok((TypeView::Dict(Box::new(tk), Box::new(tv)), p3)),
                        Err(e) => Err(e),
                    },
                    Err(e) => Err(e),
                },
                Tag::Tuple => match dec_byte(s, p) {
                    Ok((n, p2)) => match dec_types(s, p2, n as nat) {
                        Ok((ts, p3)) => Ok((TypeView::Tuple(ts), p3)),
                        Err(e) => Err(e),
                    },
                    Err(e) => Err(e),
                },
                Tag::Alias => match dec_typeid(s, p) {
                    Ok((id, p2)) => Ok((TypeView::Alias(id), p2)),
                    Err(e) => Err(e),
                },
                Tag::CEnum => match dec_typeid(s, p) {
                    Ok((id, p2)) => Ok((TypeView::CEnum(id), p2)),
                    Err(e) => Err(e),
                },
                Tag::Enum => match dec_typeid(s, p) {
                    Ok((id, p2)) => Ok((TypeView::Enum(id), p2)),
                    Err(e) => Err(e),
                },
                Tag::Struct => match dec_typeid(s, p) {
                    Ok((id, p2)) => Ok((TypeView::Struct(id), p2)),
                    Err(e) => Err(e),
                },
            },
        },
    }
}

/// `n` types one after another.
pub open spec fn dec_types(s: Seq<u8>, pos: int, n: nat) -> Parsed<Seq<TypeView>>
    decreases remaining(s, pos), n + 1,
{
    if n == 0 {
        Ok((Seq::empty(), pos))
    } else {
        match dec_type(s, pos) {
            Err(e) => Err(e),
            Ok((t, p)) => match dec_types(s, onward(pos, p), (n - 1) as nat) {
                Ok((ts, p2)) => Ok((seq![t] + ts, p2)),
                Err(e) => Err(e),
            },
        }
    }
}

/// A quantity under the low nibble `l4`: the nibble itself below twelve,
/// else the big-endian number in the bytes that the nibble announces. A
/// quantity written longer than it needs is refused.
#[verifier::opaque]
pub open spec fn dec_extvar(s: Seq<u8>, pos: int, l4: L4) -> Parsed<u64> {
    let read: Parsed<nat> = if l4 == EXT8 {
        match dec_byte(s, pos) {
            Ok((b, p)) => Ok((b as nat, p)),
            Err(e) => Err(e),
        }
    } else if l4 == EXT16 {
        dec_uint(s, pos, 2)
    } else if l4 == EXT32 {
        dec_uint(s, pos, 4)
    } else if l4 == EXT64 {
        dec_uint(s, pos, 8)
    } else {
        Ok((l4.code() as nat, pos))
    };
    match read {
        Err(e) => Err(e),
        Ok((n, p)) => {
            let u = n as u64;
            if extvar_l4(u) != l4 {
                Err((Error::ExtvarTooLong { l4, expected_l4: extvar_l4(u), u }, p))
            } else {
                Ok((u, p))
            }
        },
    }
}

/// A length: a quantity that fits the machine and does not exceed
/// `SIZE_MAX`.
#[verifier::opaque]
pub open spec fn dec_size(s: Seq<u8>, pos: int, l4: L4) -> Parsed<usize> {
    match dec_extvar(s, pos, l4) {
        Err(e) => Err(e),
        Ok((u, p)) => if u > usize::MAX {
            Err((Error::Fatal(Fatal::ToSize(u)), p))
        } else if u > SIZE_MAX {
            Err((Error::TooLongLen(u as usize), p))
        } else {
            Ok((u as usize, p))
        },
    }
}

/// An integer of at most `nlen` bytes under a numeric family: as many bytes
/// as the family says, no more than the type has and no more than the number
/// needs. Gives the number and the buffer it was read into.
#[verifier::opaque]
pub open spec fn dec_scalar_u(s: Seq<u8>, pos: int, h4: H4, nlen: usize) -> Parsed<
    (nat, Seq<u8>),
>
    recommends
        nlen <= 8,
{
    let len = (h4.code() + 1) as usize;
    if !h4.numeric() {
        Err((Error::Fatal(Fatal::H4ToN(h4)), pos))
    } else {
        match dec_span(s, pos, len) {
            Err(e) => Err(e),
            Ok((b, p)) => {
                let buf = zeros(8 - len) + b;
                if len > nlen {
                    Err((Error::BytevarLongerThanType { len, nlen, buf: buf_array(buf) }, p))
                } else if len != ulen_of(buf) {
                    Err(
                        (
                            Error::BytevarLongerThanExpected {
                                len,
                                nlen,
                                exp_len: ulen_of(buf) as usize,
                                buf: buf_array(buf),
                            },
                            p,
                        ),
                    )
                } else {
                    Ok(((be_value(buf.subrange(8 - nlen, 8)), buf), p))
                }
            },
        }
    }
}

/// A bit pattern of at most `nlen` bytes under a numeric family, read as
/// the leading bytes of the pattern.
#[verifier::opaque]
pub open spec fn dec_scalar_f(s: Seq<u8>, pos: int, h4: H4, nlen: usize) -> Parsed<nat>
    recommends
        nlen <= 8,
{
    let len = (h4.code() + 1) as usize;
    if !h4.numeric() {
        Err((Error::Fatal(Fatal::H4ToN(h4)), pos))
    } else {
        match dec_span(s, pos, len) {
            Err(e) => Err(e),
            Ok((b, p)) => {
                let buf = b + zeros(8 - len);
                if len > nlen {
                    Err((Error::BytevarLongerThanType { len, nlen, buf: buf_array(buf) }, p))
                } else if len != flen_of(buf) {
                    Err(
                        (
                            Error::BytevarLongerThanExpected {
                                len,
                                nlen,
                                exp_len: flen_of(buf) as usize,
                                buf: buf_array(buf),
                            },
                            p,
                        ),
                    )
                } else {
                    Ok((be_value(buf.subrange(0, nlen as int)), p))
                }
            },
        }
    }
}

/// A signed integer from its sign and magnitude. The magnitude has to fit
/// the signed type, and zero has no negative.
#[verifier::opaque]
pub open spec fn dec_signed(
    s: Seq<u8>,
    pos: int,
    h4: H4,
    nlen: usize,
    negative: bool,
    max: int,
) -> Parsed<int> {
    match dec_scalar_u(s, pos, h4, nlen) {
        Err(e) => Err(e),
        Ok(((u, buf), p)) => if negative && u == 0 {
            Err((Error::BytevarNegZero { buf: buf_array(buf) }, p))
        } else if u > max {
            Err((Error::BytevarIntSign { buf: buf_array(buf) }, p))
        } else if negative {
            Ok((-(u as int), p))
        } else {
            Ok((u as int, p))
        },
    }
}

/// The signed byte with the bits of `b`.
pub open spec fn i8_of_bits(b: nat) -> i8 {
    if b < 128 {
        b as i8
    } else {
        (b - 256) as i8
    }
}

/// Whether a low nibble stands for a kind of scalar.
pub open spec fn scalar_kind(l4: L4) -> bool {
    l4 != L4::EXT1 && l4 != L4::EXT2
}

/// A scalar of the kind `l4` under a numeric family `h4`.
pub open spec fn dec_scalar(s: Seq<u8>, pos: int, h4: H4, l4: L4) -> Parsed<ValueView>
    recommends
        scalar_kind(l4),
{
    match l4 {
        L4::U8 => match dec_scalar_u(s, pos, h4, 1) {
            Ok(((u, _), p)) => Ok((ValueView::U8(u as u8), p)),
            Err(e) => Err(e),
        },
        L4::U16 => match dec_scalar_u(s, pos, h4, 2) {
            Ok(((u, _), p)) => Ok((ValueView::U16(u as u16), p)),
            Err(e) => Err(e),
        },
        L4::U32 => match dec_scalar_u(s, pos, h4, 4) {
            Ok(((u, _), p)) => Ok((ValueView::U32(u as u32), p)),
            Err(e) => Err(e),
        },
        L4::U64 => match dec_scalar_u(s, pos, h4, 8) {
            Ok(((u, _), p)) => Ok((ValueView::U64(u as u64), p)),
            Err(e) => Err(e),
        },
        L4::I8 => match dec_scalar_u(s, pos, h4, 1) {
            Ok(((u, _), p)) => Ok((ValueView::I8(i8_of_bits(u)), p)),
            Err(e) => Err(e),
        },
        L4::P16 => match dec_signed(s, pos, h4, 2, false, i16::MAX as int) {
            Ok((i, p)) => Ok((ValueView::I16(i as i16), p)),
            Err(e) => Err(e),
        },
        L4::P32 => match dec_signed(s, pos, h4, 4, false, i32::MAX as int) {
            Ok((i, p)) => Ok((ValueView::I32(i as i32), p)),
            Err(e) => Err(e),
        },
        L4::P64 => match dec_signed(s, pos, h4, 8, false, i64::MAX as int) {
            Ok((i, p)) => Ok((ValueView::I64(i as i64), p)),
            Err(e) => Err(e),
        },
        L4::N16 => match dec_signed(s, pos, h4, 2, true, i16::MAX as int) {
            Ok((i, p)) => Ok((ValueView::I16(i as i16), p)),
            Err(e) => Err(e),
        },
        L4::N32 => match dec_signed(s, pos, h4, 4, true, i32::MAX as int) {
            Ok((i, p)) => Ok((ValueView::I32(i as i32), p)),
            Err(e) => Err(e),
        },
        L4::N64 => match dec_signed(s, pos, h4, 8, true, i64::MAX as int) {
            Ok((i, p)) => Ok((ValueView::I64(i as i64), p)),
            Err(e) => Err(e),
        },
        L4::F16 => match dec_scalar_f(s, pos, h4, 2) {
            Ok((f, p)) => Ok((ValueView::F16(f as u16), p)),
            Err(e) => Err(e),
        },
        L4::F32 => match dec_scalar_f(s, pos, h4, 4) {
            Ok((f, p)) => Ok((ValueView::F32(f as u32), p)),
            Err(e) => Err(e),
        },
        L4::F64 => match dec_scalar_f(s, pos, h4, 8) {
            Ok((f, p)) => Ok((ValueView::F64(f as u64), p)),
            Err(e) => Err(e),
        },
        _ => arbitrary(),
    }
}

/// What a header of the numeric family `h4` under `L4::EXT1` opens: the
/// unit, a boolean, an option, an alias, a type or a type identifier.
pub open spec fn dec_symbol(s: Seq<u8>, pos: int, h4: H4) -> Parsed<ValueView>
    decreases remaining(s, pos), 1nat, 0nat,
{
    match h4 {
        H4::N1 => Ok((ValueView::Unit, pos)),
        H4::N2 => Ok((ValueView::Bool(false), pos)),
        H4::N3 => Ok((ValueView::Bool(true), pos)),
        H4::N4 => match dec_type(s, pos) {
            Ok((t, p)) => Ok((ValueView::Option(t, None), p)),
            Err(e) => Err(e),
        },
        H4::N5 => match dec_type(s, pos) {
            Ok((t, p)) => match dec_value(s, onward(pos, p)) {
                Ok((v, p2)) => Ok((ValueView::Option(t, Some(Box::new(v))), p2)),
                Err(e) => Err(e),
            },
            Err(e) => Err(e),
        },
        H4::N6 => match dec_typeid(s, pos) {
            Ok((id, p)) => match dec_value(s, onward(pos, p)) {
                Ok((v, p2)) => Ok((ValueView::Alias(id, Box::new(v)), p2)),
                Err(e) => Err(e),
            },
            Err(e) => Err(e),
        },
        H4::N7 => match dec_type(s, pos) {
            Ok((t, p)) => Ok((ValueView::Type(t), p)),
            Err(e) => Err(e),
        },
        H4::N8 => match dec_typeid(s, pos) {
            Ok((id, p)) => Ok((ValueView::TypeId(id), p)),
            Err(e) => Err(e),
        },
        _ => Err((Error::Fatal(Fatal::H4ToExt1(h4)), pos)),
    }
}

/// A string: its length, that many bytes, and they must be UTF-8.
pub open spec fn dec_string(s: Seq<u8>, pos: int, l4: L4) -> Parsed<ValueView> {
    match dec_size(s, pos, l4) {
        Err(e) => Err(e),
        Ok((len, p)) => match dec_span(s, p, len) {
            Err(e) => Err(e),
            Ok((b, p2)) => match utf8_check(b) {
                Ok(_) => Ok((ValueView::String(b), p2)),
                Err(e) => Err((Error::Utf8(e), p2)),
            },
        },
    }
}

/// A byte blob: its length, then that many bytes.
pub open spec fn dec_bytes(s: Seq<u8>, pos: int, l4: L4) -> Parsed<ValueView> {
    match dec_size(s, pos, l4) {
        Err(e) => Err(e),
        Ok((len, p)) => match dec_span(s, p, len) {
            Err(e) => Err(e),
            Ok((b, p2)) => Ok((ValueView::Bytes(b), p2)),
        },
    }
}

/// A list: its length, the type of its items, then the items.
pub open spec fn dec_list(s: Seq<u8>, pos: int, l4: L4) -> Parsed<ValueView>
    decreases remaining(s, pos), 1nat, 0nat,
{
    match dec_size(s, pos, l4) {
        Err(e) => Err(e),
        Ok((len, p)) => match dec_type(s, p) {
            Err(e) => Err(e),
            Ok((t, p2)) => match dec_values(s, onward(pos, p2), len as nat) {
                Err(e) => Err(e),
                Ok((vs, p3)) => Ok((ValueView::List(t, vs), p3)),
            },
        },
    }
}

/// A map: its length, the types of keys and of values, then the entries.
pub open spec fn dec_dict(s: Seq<u8>, pos: int, l4: L4) -> Parsed<ValueView>
    decreases remaining(s, pos), 1nat, 0nat,
{
    match dec_size(s, pos, l4) {
        Err(e) => Err(e),
        Ok((len, p)) => match dec_type(s, p) {
            Err(e) => Err(e),
            Ok((tk, p2)) => match dec_type(s, p2) {
                Err(e) => Err(e),
                Ok((tv, p3)) => match dec_entries(s, onward(pos, p3), len as nat) {
                    Err(e) => Err(e),
                    Ok((es, p4)) => Ok((ValueView::Dict(tk, tv, es), p4)),
                },
            },
        },
    }
}

/// A tuple: its length, then the items.
pub open spec fn dec_tuple(s: Seq<u8>, pos: int, l4: L4) -> Parsed<ValueView>
    decreases remaining(s, pos), 1nat, 0nat,
{
    match dec_size(s, pos, l4) {
        Err(e) => Err(e),
        Ok((len, p)) => match dec_values(s, onward(pos, p), len as nat) {
            Err(e) => Err(e),
            Ok((vs, p2)) => Ok((ValueView::Tuple(vs), p2)),
        },
    }
}

/// A variant without payload: its index, then the enum's identifier.
pub open spec fn dec_cenum(s: Seq<u8>, pos: int, l4: L4) -> Parsed<ValueView> {
    match dec_extvar(s, pos, l4) {
        Err(e) => Err(e),
        Ok((ev, p)) => match dec_typeid(s, p) {
            Err(e) => Err(e),
            Ok((id, p2)) => Ok((ValueView::CEnum(id, ev), p2)),
        },
    }
}

/// A variant with payload: its index, the enum's identifier, the payload.
pub open spec fn dec_enum(s: Seq<u8>, pos: int, l4: L4) -> Parsed<ValueView>
    decreases remaining(s, pos), 1nat, 0nat,
{
    match dec_extvar(s, pos, l4) {
        Err(e) => Err(e),
        Ok((ev, p)) => match dec_typeid(s, p) {
            Err(e) => Err(e),
            Ok((id, p2)) => match dec_value(s, onward(pos, p2)) {
                Err(e) => Err(e),
                Ok((v, p3)) => Ok((ValueView::Enum(id, ev, Box::new(v)), p3)),
            },
        },
    }
}

/// A struct: the number of its fields, its identifier, then the fields.
pub open spec fn dec_struct(s: Seq<u8>, pos: int, l4: L4) -> Parsed<ValueView>
    decreases remaining(s, pos), 1nat, 0nat,
{
    match dec_size(s, pos, l4) {
        Err(e) => Err(e),
        Ok((len, p)) => match dec_typeid(s, p) {
            Err(e) => Err(e),
            Ok((id, p2)) => match dec_values(s, onward(pos, p2), len as nat) {
                Err(e) => Err(e),
                Ok((vs, p3)) => Ok((ValueView::Struct(id, vs), p3)),
            },
        },
    }
}

/// The two nibbles of a header byte.
pub open spec fn split_header(n: u8) -> (H4, L4) {
    (H4::of_code(n / 16)->Some_0, L4::of_code(n % 16)->Some_0)
}

/// What follows a header of family `h4` and low nibble `l4`.
pub open spec fn dec_body(s: Seq<u8>, pos: int, h4: H4, l4: L4) -> Parsed<ValueView>
    decreases remaining(s, pos), 2nat, 0nat,
{
    match h4 {
        H4::String => dec_string(s, pos, l4),
        H4::Bytes => dec_bytes(s, pos, l4),
        H4::List => dec_list(s, pos, l4),
        H4::Dict => dec_dict(s, pos, l4),
        H4::Tuple => dec_tuple(s, pos, l4),
        H4::CEnum => dec_cenum(s, pos, l4),
        H4::Enum => dec_enum(s, pos, l4),
        H4::Struct => dec_struct(s, pos, l4),
        _ => match l4 {
            L4::EXT1 => dec_symbol(s, pos, h4),
            L4::EXT2 => Err((Error::Ext2NotImplemented, pos)),
            _ => dec_scalar(s, pos, h4, l4),
        },
    }
}

/// A value: the header byte, then what the header opens.
pub open spec fn dec_value(s: Seq<u8>, pos: int) -> Parsed<ValueView>
    decreases remaining(s, pos), 0nat, 0nat,
{
    match dec_byte(s, pos) {
        Err(e) => Err(e),
        Ok((n, p)) => dec_body(s, p, split_header(n).0, split_header(n).1),
    }
}

/// `n` values one after another.
pub open spec fn dec_values(s: Seq<u8>, pos: int, n: nat) -> Parsed<Seq<ValueView>>
    decreases remaining(s, pos), 0nat, n + 1,
{
    if n == 0 {
        Ok((Seq::empty(), pos))
    } else {
        match dec_value(s, pos) {
            Err(e) => Err(e),
            Ok((v, p)) => match dec_values(s, onward(pos, p), (n - 1) as nat) {
                Ok((vs, p2)) => Ok((seq![v] + vs, p2)),
                Err(e) => Err(e),
            },
        }
    }
}

/// `n` entries one after another, each a key and then its value.
pub open spec fn dec_entries(s: Seq<u8>, pos: int, n: nat) -> Parsed<Seq<(ValueView, ValueView)>>
    decreases remaining(s, pos), 0nat, 2 * n + 1,
{
    if n == 0 {
        Ok((Seq::empty(), pos))
    } else {
        match dec_value(s, pos) {
            Err(e) => Err(e),
            Ok((k, p)) => match dec_value(s, onward(pos, p)) {
                Err(e) => Err(e),
                Ok((v, p2)) => match dec_entries(s, onward(pos, p2), (n - 1) as nat) {
                    Ok((es, p3)) => Ok((seq![(k, v)] + es, p3)),
                    Err(e) => Err(e),
                },
            },
        }
    }
}

/// Exactly one value: what decoding all of `s` gives.
pub open spec fn decode(s: Seq<u8>) -> Result<ValueView, Error> {
    match dec_value(s, 0) {
        Err((e, _)) => Err(e),
        Ok((v, p)) => if p == s.len() {
            Ok(v)
        } else {
            Err(Error::TooLong { rest: (s.len() - p) as usize })
        },
    }
}

} // verus!
