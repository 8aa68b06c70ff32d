//! What a value looks like on the wire: the encoding, as a function from
//! values to byte sequences.

use vstd::prelude::*;
use crate::bigend::be_bytes;
use crate::casting::{flen_of, header_byte, ulen_of};
use crate::header::{Ext1, EXT16, EXT32, EXT64, EXT8, H4, L4};
use crate::typeid::{SCHEMA_ANONYMOUS, SCHEMA_HASH, TypeIdView};
use crate::value::{TypeView, ValueView};

verus! {

/// `n` zero bytes.
pub open spec fn zeros(n: int) -> Seq<u8> {
    Seq::new(n as nat, |i: int| 0u8)
}

/// The numeric family whose headers are followed by `len` bytes.
pub open spec fn numeric_h4(len: int) -> H4
    recommends
        1 <= len <= 8,
{
    if len == 1 {
        H4::N1
    } else if len == 2 {
        H4::N2
    } else if len == 3 {
        H4::N3
    } else if len == 4 {
        H4::N4
    } else if len == 5 {
        H4::N5
    } else if len == 6 {
        H4::N6
    } else if len == 7 {
        H4::N7
    } else {
        H4::N8
    }
}

/// The numeric family that stands for a symbol under `L4::EXT1`.
pub open spec fn ext1_h4(e: Ext1) -> H4 {
    numeric_h4(e.code() + 1)
}

/// The low nibble that holds a quantity below twelve in itself.
pub open spec fn inline_l4(u: u64) -> L4
    recommends
        u < 12,
{
    if u == 0 {
        L4::U8
    } else if u == 1 {
        L4::U16
    } else if u == 2 {
        L4::U32
    } else if u == 3 {
        L4::U64
    } else if u == 4 {
        L4::I8
    } else if u == 5 {
        L4::P16
    } else if u == 6 {
        L4::P32
    } else if u == 7 {
        L4::P64
    } else if u == 8 {
        L4::N16
    } else if u == 9 {
        L4::N32
    } else if u == 10 {
        L4::N64
    } else {
        L4::F16
    }
}

/// The low nibble under which the quantity `u` is written: the quantity
/// itself below twelve, else the class of the fewest bytes that hold it.
pub open spec fn extvar_l4(u: u64) -> L4 {
    if u < 12 {
        inline_l4(u)
    } else if u <= 0xff {
        EXT8
    } else if u <= 0xffff {
        EXT16
    } else if u <= 0xffff_ffff {
        EXT32
    } else {
        EXT64
    }
}

/// The bytes that follow the header of the quantity `u`.
pub open spec fn extvar_tail(u: u64) -> Seq<u8> {
    if u < 12 {
        Seq::empty()
    } else if u <= 0xff {
        be_bytes(u as nat, 1)
    } else if u <= 0xffff {
        be_bytes(u as nat, 2)
    } else if u <= 0xffff_ffff {
        be_bytes(u as nat, 4)
    } else {
        be_bytes(u as nat, 8)
    }
}

/// A header of family `h4` that carries the quantity `u`.
#[verifier::opaque]
pub open spec fn enc_extvar(h4: H4, u: u64) -> Seq<u8> {
    seq![header_byte(h4, extvar_l4(u))] + extvar_tail(u)
}

/// The one-byte header of a symbol.
pub open spec fn enc_ext1(e: Ext1) -> Seq<u8> {
    seq![header_byte(ext1_h4(e), L4::EXT1)]
}

/// The eight-byte buffer that holds the `nlen`-byte integer `u` aligned to
/// the right.
pub open spec fn ubuf(u: nat, nlen: nat) -> Seq<u8>
    recommends
        nlen <= 8,
{
    zeros(8 - nlen) + be_bytes(u, nlen)
}

/// The eight-byte buffer that holds the `nlen`-byte bit pattern `bits`
/// aligned to the left.
pub open spec fn fbuf(bits: nat, nlen: nat) -> Seq<u8>
    recommends
        nlen <= 8,
{
    be_bytes(bits, nlen) + zeros(8 - nlen)
}

/// An integer of `nlen` bytes under kind `l4`: the family says how many
/// bytes matter, and those bytes follow.
#[verifier::opaque]
pub open spec fn enc_scalar_u(l4: L4, u: nat, nlen: nat) -> Seq<u8> {
    let buf = ubuf(u, nlen);
    let len = ulen_of(buf);
    seq![header_byte(numeric_h4(len), l4)] + buf.subrange(8 - len, 8)
}

/// A bit pattern of `nlen` bytes under kind `l4`: the family says how many
/// bytes matter, and those bytes follow.
#[verifier::opaque]
pub open spec fn enc_scalar_f(l4: L4, bits: nat, nlen: nat) -> Seq<u8> {
    let buf = fbuf(bits, nlen);
    let len = flen_of(buf);
    seq![header_byte(numeric_h4(len), l4)] + buf.subrange(0, len)
}

/// The byte with the bits of `i`.
pub open spec fn i8_bits(i: i8) -> nat {
    if i >= 0 {
        i as nat
    } else {
        (i + 256) as nat
    }
}

/// The absolute value of `i`.
pub open spec fn magnitude(i: int) -> nat {
    if i >= 0 {
        i as nat
    } else {
        (-i) as nat
    }
}

/// A type identifier: its leading byte, then the id or the hash.
#[verifier::opaque]
pub open spec fn enc_typeid(id: TypeIdView) -> Seq<u8> {
    match id {
        TypeIdView::Anonymous => seq![SCHEMA_ANONYMOUS],
        TypeIdView::Std { schema, id } => seq![schema] + be_bytes(id as nat, 2),
        TypeIdView::Hash { hash } => seq![SCHEMA_HASH] + hash,
    }
}

/// A type: its tag, then what the tag carries.
pub open spec fn enc_type(t: TypeView) -> Seq<u8>
    decreases t,
{
    seq![t.tag().code()] + (match t {
        TypeView::Option(t) => enc_type(*t),
        TypeView::List(t) => enc_type(*t),
        TypeView::Dict(tk, tv) => enc_type(*tk) + enc_type(*tv),
        TypeView::Tuple(ts) => seq![ts.len() as u8] + enc_types(ts),
        TypeView::Alias(id) => enc_typeid(id),
        TypeView::CEnum(id) => enc_typeid(id),
        TypeView::Enum(id) => enc_typeid(id),
        TypeView::Struct(id) => enc_typeid(id),
        _ => Seq::empty(),
    })
}

/// Types one after another.
pub open spec fn enc_types(ts: Seq<TypeView>) -> Seq<u8>
    decreases ts,
{
    if ts.len() == 0 {
        Seq::empty()
    } else {
        enc_type(ts.first()) + enc_types(ts.drop_first())
    }
}

/// A value: its header, then lengths, types and identifiers as the header
/// asks, then what the value holds.
pub open spec fn enc_value(v: ValueView) -> Seq<u8>
    decreases v,
{
    match v {
        ValueView::Unit => enc_ext1(Ext1::Unit),
        ValueView::Bool(b) => enc_ext1(
            if b {
                Ext1::True
            } else {
                Ext1::False
            },
        ),
        ValueView::U8(u) => enc_scalar_u(L4::U8, u as nat, 1),
        ValueView::U16(u) => enc_scalar_u(L4::U16, u as nat, 2),
        ValueView::U32(u) => enc_scalar_u(L4::U32, u as nat, 4),
        ValueView::U64(u) => enc_scalar_u(L4::U64, u as nat, 8),
        ValueView::I8(i) => enc_scalar_u(L4::I8, i8_bits(i), 1),
        ValueView::I16(i) => enc_scalar_u(
            if i >= 0 {
                L4::P16
            } else {
                L4::N16
            },
            magnitude(i as int),
            2,
        ),
        ValueView::I32(i) => enc_scalar_u(
            if i >= 0 {
                L4::P32
            } else {
                L4::N32
            },
            magnitude(i as int),
            4,
        ),
        ValueView::I64(i) => enc_scalar_u(
            if i >= 0 {
                L4::P64
            } else {
                L4::N64
            },
            magnitude(i as int),
            8,
        ),
        ValueView::F16(f) => enc_scalar_f(L4::F16, f as nat, 2),
        ValueView::F32(f) => enc_scalar_f(L4::F32, f as nat, 4),
        ValueView::F64(f) => enc_scalar_f(L4::F64, f as nat, 8),
        ValueView::String(s) => enc_extvar(H4::String, s.len() as u64) + s,
        ValueView::Bytes(b) => enc_extvar(H4::Bytes, b.len() as u64) + b,
        ValueView::Option(t, o) => match o {
            None => enc_ext1(Ext1::OptNone) + enc_type(t),
            Some(v) => enc_ext1(Ext1::OptSome) + enc_type(t) + enc_value(*v),
        },
        ValueView::List(t, vs) => enc_extvar(H4::List, vs.len() as u64) + enc_type(t)
            + enc_values(vs),
        ValueView::Dict(tk, tv, es) => enc_extvar(H4::Dict, es.len() as u64) + enc_type(tk)
            + enc_type(tv) + enc_entries(es),
        ValueView::Tuple(vs) => enc_extvar(H4::Tuple, vs.len() as u64) + enc_values(vs),
        ValueView::Alias(id, v) => enc_ext1(Ext1::Alias) + enc_typeid(id) + enc_value(*v),
        ValueView::CEnum(id, ev) => enc_extvar(H4::CEnum, ev) + enc_typeid(id),
        ValueView::Enum(id, ev, v) => enc_extvar(H4::Enum, ev) + enc_typeid(id) + enc_value(*v),
        ValueView::Struct(id, vs) => enc_extvar(H4::Struct, vs.len() as u64) + enc_typeid(id)
            + enc_values(vs),
        ValueView::Type(t) => enc_ext1(Ext1::Type) + enc_type(t),
        ValueView::TypeId(id) => enc_ext1(Ext1::TypeId) + enc_typeid(id),
    }
}

/// Values one after another.
pub open spec fn enc_values(vs: Seq<ValueView>) -> Seq<u8>
    decreases vs,
{
    if vs.len() == 0 {
        Seq::empty()
    } else {
        enc_value(vs.first()) + enc_values(vs.drop_first())
    }
}

/// Entries one after another, each a key and then its value.
pub open spec fn enc_entries(es: Seq<(ValueView, ValueView)>) -> Seq<u8>
    decreases es,
{
    if es.len() == 0 {
        Seq::empty()
    } else {
        enc_value(es.first().0) + enc_value(es.first().1) + enc_entries(es.drop_first())
    }
}

/// Types one after another encode one after another.
pub proof fn lemma_enc_types_concat(a: Seq<TypeView>, b: Seq<TypeView>)
    ensures
        enc_types(a + b) == enc_types(a) + enc_types(b),
    decreases a.len(),
{
    if a.len() > 0 {
        lemma_enc_types_concat(a.drop_first(), b);
        assert((a + b).drop_first() =~= a.drop_first() + b);
    }
}

/// One more type at the end encodes at the end.
pub proof fn lemma_enc_types_push(a: Seq<TypeView>, t: TypeView)
    ensures
        enc_types(a.push(t)) == enc_types(a) + enc_type(t),
{
    lemma_enc_types_concat(a, seq![t]);
    assert(a.push(t) =~= a + seq![t]);
    let one = seq![t];
    assert(enc_types(one.drop_first()) =~= Seq::<u8>::empty());
}

/// Values one after another encode one after another.
pub proof fn lemma_enc_values_concat(a: Seq<ValueView>, b: Seq<ValueView>)
    ensures
        enc_values(a + b) == enc_values(a) + enc_values(b),
    decreases a.len(),
{
    if a.len() > 0 {
        lemma_enc_values_concat(a.drop_first(), b);
        assert((a + b).drop_first() =~= a.drop_first() + b);
    }
}

/// One more value at the end encodes at the end.
pub proof fn lemma_enc_values_push(a: Seq<ValueView>, v: ValueView)
    ensures
        enc_values(a.push(v)) == enc_values(a) + enc_value(v),
{
    lemma_enc_values_concat(a, seq![v]);
    assert(a.push(v) =~= a + seq![v]);
    let one = seq![v];
    assert(enc_values(one.drop_first()) =~= Seq::<u8>::empty());
}

/// Entries one after another encode one after another.
pub proof fn lemma_enc_entries_concat(a: Seq<(ValueView, ValueView)>, b: Seq<(ValueView, ValueView)>)
    ensures
        enc_entries(a + b) == enc_entries(a) + enc_entries(b),
    decreases a.len(),
{
    if a.len() > 0 {
        lemma_enc_entries_concat(a.drop_first(), b);
        assert((a + b).drop_first() =~= a.drop_first() + b);
    }
}

/// One more entry at the end encodes at the end.
pub proof fn lemma_enc_entries_push(a: Seq<(ValueView, ValueView)>, e: (ValueView, ValueView))
    ensures
        enc_entries(a.push(e)) == enc_entries(a) + enc_value(e.0) + enc_value(e.1),
{
    lemma_enc_entries_concat(a, seq![e]);
    assert(a.push(e) =~= a + seq![e]);
    let one = seq![e];
    assert(enc_entries(one.drop_first()) =~= Seq::<u8>::empty());
    assert(enc_entries(a) + (enc_value(e.0) + enc_value(e.1)) =~= enc_entries(a) + enc_value(e.0)
        + enc_value(e.1));
}

} // verus!
