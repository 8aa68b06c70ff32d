//! Values: the encoding of a value that the format admits decodes to the
//! value.

use vstd::prelude::*;
use crate::bigend::lemma_pow256_values;
use crate::casting::{flen_of, header_byte, ulen_of};
use crate::error::Error;
use crate::grammar::{
    dec_body, dec_cenum, dec_dict, dec_entries, dec_enum, dec_list, dec_struct, dec_symbol,
    dec_tuple, dec_value, dec_values,
};
use crate::header::{Ext1, H4, L4};
use crate::proofs::parts::{
    lemma_dec_extvar_complete, lemma_dec_size_complete, lemma_dec_typeid_complete,
};
use crate::proofs::scalars::{
    ftail, lemma_dec_scalar_f_complete, lemma_dec_scalar_u_complete, lemma_dec_signed_complete,
    lemma_fbuf, lemma_ubuf, utail,
};
use crate::proofs::seqs::{at, lemma_at_concat, lemma_at_one};
use crate::proofs::types::lemma_dec_type_complete;
use crate::proofs::values::lemma_enc_extvar_unfold;
use crate::typeid::TypeIdView;
use crate::value::{TypeView, ValueView};
use crate::wire::{
    enc_entries, enc_scalar_f, enc_scalar_u, enc_type, enc_typeid, enc_value, enc_values, ext1_h4,
    extvar_l4, extvar_tail, fbuf, i8_bits, magnitude, numeric_h4, ubuf,
};

verus! {

/// The two nibbles of the header that opens the encoding of a value.
pub open spec fn value_header(v: ValueView) -> (H4, L4) {
    match v {
        ValueView::Unit => (ext1_h4(Ext1::Unit), L4::EXT1),
        ValueView::Bool(b) => (
            ext1_h4(
                if b {
                    Ext1::True
                } else {
                    Ext1::False
                },
            ),
            L4::EXT1,
        ),
        ValueView::U8(u) => (numeric_h4(ulen_of(ubuf(u as nat, 1))), L4::U8),
        ValueView::U16(u) => (numeric_h4(ulen_of(ubuf(u as nat, 2))), L4::U16),
        ValueView::U32(u) => (numeric_h4(ulen_of(ubuf(u as nat, 4))), L4::U32),
        ValueView::U64(u) => (numeric_h4(ulen_of(ubuf(u as nat, 8))), L4::U64),
        ValueView::I8(i) => (numeric_h4(ulen_of(ubuf(i8_bits(i), 1))), L4::I8),
        ValueView::I16(i) => (
            numeric_h4(ulen_of(ubuf(magnitude(i as int), 2))),
            if i >= 0 {
                L4::P16
            } else {
                L4::N16
            },
        ),
        ValueView::I32(i) => (
            numeric_h4(ulen_of(ubuf(magnitude(i as int), 4))),
            if i >= 0 {
                L4::P32
            } else {
                L4::N32
            },
        ),
        ValueView::I64(i) => (
            numeric_h4(ulen_of(ubuf(magnitude(i as int), 8))),
            if i >= 0 {
                L4::P64
            } else {
                L4::N64
            },
        ),
        ValueView::F16(f) => (numeric_h4(flen_of(fbuf(f as nat, 2))), L4::F16),
        ValueView::F32(f) => (numeric_h4(flen_of(fbuf(f as nat, 4))), L4::F32),
        ValueView::F64(f) => (numeric_h4(flen_of(fbuf(f as nat, 8))), L4::F64),
        ValueView::String(s) => (H4::String, extvar_l4(s.len() as u64)),
        ValueView::Bytes(b) => (H4::Bytes, extvar_l4(b.len() as u64)),
        ValueView::Option(t, o) => (
            ext1_h4(
                if o is Some {
                    Ext1::OptSome
                } else {
                    Ext1::OptNone
                },
            ),
            L4::EXT1,
        ),
        ValueView::List(t, vs) => (H4::List, extvar_l4(vs.len() as u64)),
        ValueView::Dict(tk, tv, es) => (H4::Dict, extvar_l4(es.len() as u64)),
        ValueView::Tuple(vs) => (H4::Tuple, extvar_l4(vs.len() as u64)),
        ValueView::Alias(id, v) => (ext1_h4(Ext1::Alias), L4::EXT1),
        ValueView::CEnum(id, ev) => (H4::CEnum, extvar_l4(ev)),
        ValueView::Enum(id, ev, v) => (H4::Enum, extvar_l4(ev)),
        ValueView::Struct(id, vs) => (H4::Struct, extvar_l4(vs.len() as u64)),
        ValueView::Type(t) => (ext1_h4(Ext1::Type), L4::EXT1),
        ValueView::TypeId(id) => (ext1_h4(Ext1::TypeId), L4::EXT1),
    }
}

/// What follows the header byte in the encoding of a value.
pub open spec fn value_tail(v: ValueView) -> Seq<u8> {
    match v {
        ValueView::Unit => Seq::empty(),
        ValueView::Bool(b) => Seq::empty(),
        ValueView::U8(u) => utail(u as nat, 1),
        ValueView::U16(u) => utail(u as nat, 2),
        ValueView::U32(u) => utail(u as nat, 4),
        ValueView::U64(u) => utail(u as nat, 8),
        ValueView::I8(i) => utail(i8_bits(i), 1),
        ValueView::I16(i) => utail(magnitude(i as int), 2),
        ValueView::I32(i) => utail(magnitude(i as int), 4),
        ValueView::I64(i) => utail(magnitude(i as int), 8),
        ValueView::F16(f) => ftail(f as nat, 2),
        ValueView::F32(f) => ftail(f as nat, 4),
        ValueView::F64(f) => ftail(f as nat, 8),
        ValueView::String(s) => extvar_tail(s.len() as u64) + s,
        ValueView::Bytes(b) => extvar_tail(b.len() as u64) + b,
        ValueView::Option(t, o) => match o {
            None => enc_type(t),
            Some(v) => enc_type(t) + enc_value(*v),
        },
        ValueView::List(t, vs) => extvar_tail(vs.len() as u64) + enc_type(t) + enc_values(vs),
        ValueView::Dict(tk, tv, es) => extvar_tail(es.len() as u64) + enc_type(tk) + enc_type(tv)
            + enc_entries(es),
        ValueView::Tuple(vs) => extvar_tail(vs.len() as u64) + enc_values(vs),
        ValueView::Alias(id, v) => enc_typeid(id) + enc_value(*v),
        ValueView::CEnum(id, ev) => extvar_tail(ev) + enc_typeid(id),
        ValueView::Enum(id, ev, v) => extvar_tail(ev) + enc_typeid(id) + enc_value(*v),
        ValueView::Struct(id, vs) => extvar_tail(vs.len() as u64) + enc_typeid(id) + enc_values(
            vs,
        ),
        ValueView::Type(t) => enc_type(t),
        ValueView::TypeId(id) => enc_typeid(id),
    }
}

/// An integer's encoding is the header of its byte count and then its
/// shortest bytes.
pub proof fn lemma_enc_scalar_u_unfold(l4: L4, u: nat, nlen: nat)
    ensures
        enc_scalar_u(l4, u, nlen) == seq![header_byte(numeric_h4(ulen_of(ubuf(u, nlen))), l4)]
            + utail(u, nlen),
{
    reveal(enc_scalar_u);
}

/// A bit pattern's encoding is the header of its byte count and then its
/// shortest bytes.
pub proof fn lemma_enc_scalar_f_unfold(l4: L4, f: nat, nlen: nat)
    ensures
        enc_scalar_f(l4, f, nlen) == seq![header_byte(numeric_h4(flen_of(fbuf(f, nlen))), l4)]
            + ftail(f, nlen),
{
    reveal(enc_scalar_f);
}

/// The encoding of a value is its header byte and then its tail.
pub proof fn lemma_enc_value_unfold(v: ValueView)
    ensures
        enc_value(v) == seq![header_byte(value_header(v).0, value_header(v).1)] + value_tail(v),
        enc_value(v).len() == 1 + value_tail(v).len(),
{
    let hb = seq![header_byte(value_header(v).0, value_header(v).1)];
    match v {
        ValueView::U8(u) => {
            lemma_enc_scalar_u_unfold(L4::U8, u as nat, 1);
        },
        ValueView::U16(u) => {
            lemma_enc_scalar_u_unfold(L4::U16, u as nat, 2);
        },
        ValueView::U32(u) => {
            lemma_enc_scalar_u_unfold(L4::U32, u as nat, 4);
        },
        ValueView::U64(u) => {
            lemma_enc_scalar_u_unfold(L4::U64, u as nat, 8);
        },
        ValueView::I8(i) => {
            lemma_enc_scalar_u_unfold(L4::I8, i8_bits(i), 1);
        },
        ValueView::I16(i) => {
            lemma_enc_scalar_u_unfold(value_header(v).1, magnitude(i as int), 2);
        },
        ValueView::I32(i) => {
            lemma_enc_scalar_u_unfold(value_header(v).1, magnitude(i as int), 4);
        },
        ValueView::I64(i) => {
            lemma_enc_scalar_u_unfold(value_header(v).1, magnitude(i as int), 8);
        },
        ValueView::F16(f) => {
            lemma_enc_scalar_f_unfold(L4::F16, f as nat, 2);
        },
        ValueView::F32(f) => {
            lemma_enc_scalar_f_unfold(L4::F32, f as nat, 4);
        },
        ValueView::F64(f) => {
            lemma_enc_scalar_f_unfold(L4::F64, f as nat, 8);
        },
        ValueView::String(b) => {
            lemma_enc_extvar_unfold(H4::String, b.len() as u64);
        },
        ValueView::Bytes(b) => {
            lemma_enc_extvar_unfold(H4::Bytes, b.len() as u64);
        },
        ValueView::List(t, vs) => {
            lemma_enc_extvar_unfold(H4::List, vs.len() as u64);
        },
        ValueView::Dict(tk, tv, es) => {
            lemma_enc_extvar_unfold(H4::Dict, es.len() as u64);
        },
        ValueView::Tuple(vs) => {
            lemma_enc_extvar_unfold(H4::Tuple, vs.len() as u64);
        },
        ValueView::CEnum(id, ev) => {
            lemma_enc_extvar_unfold(H4::CEnum, ev);
        },
        ValueView::Enum(id, ev, x) => {
            lemma_enc_extvar_unfold(H4::Enum, ev);
        },
        ValueView::Struct(id, vs) => {
            lemma_enc_extvar_unfold(H4::Struct, vs.len() as u64);
        },
        _ => {},
    }
}

/// The encoding of a scalar decodes to the scalar.
pub proof fn lemma_scalar_complete(s: Seq<u8>, pos: int, v: ValueView)
    requires
        v.has_magnitudes(),
        v.type_of().tag().code() >= 0x03,
        v.type_of().tag().code() <= 0x0d,
        at(s, pos, value_tail(v)),
        s.len() <= usize::MAX,
    ensures
        dec_body(s, pos, value_header(v).0, value_header(v).1) == Ok::<
            (ValueView, int),
            (Error, int),
        >((v, pos + value_tail(v).len())),
        value_header(v).0.numeric(),
{
    lemma_pow256_values();
    match v {
        ValueView::U8(u) => {
            lemma_dec_scalar_u_complete(s, pos, u as nat, 1);
        },
        ValueView::U16(u) => {
            lemma_ubuf(u as nat, 2);
            lemma_dec_scalar_u_complete(s, pos, u as nat, 2);
        },
        ValueView::U32(u) => {
            lemma_ubuf(u as nat, 4);
            lemma_dec_scalar_u_complete(s, pos, u as nat, 4);
        },
        ValueView::U64(u) => {
            lemma_ubuf(u as nat, 8);
            lemma_dec_scalar_u_complete(s, pos, u as nat, 8);
        },
        ValueView::I8(i) => {
            lemma_dec_scalar_u_complete(s, pos, i8_bits(i), 1);
        },
        ValueView::I16(i) => {
            let m = magnitude(i as int);
            lemma_ubuf(m, 2);
            lemma_dec_signed_complete(s, pos, i as int, 2, i16::MAX as int);
        },
        ValueView::I32(i) => {
            let m = magnitude(i as int);
            lemma_ubuf(m, 4);
            lemma_dec_signed_complete(s, pos, i as int, 4, i32::MAX as int);
        },
        ValueView::I64(i) => {
            let m = magnitude(i as int);
            lemma_ubuf(m, 8);
            lemma_dec_signed_complete(s, pos, i as int, 8, i64::MAX as int);
        },
        ValueView::F16(f) => {
            lemma_fbuf(f as nat, 2);
            lemma_dec_scalar_f_complete(s, pos, f as nat, 2);
        },
        ValueView::F32(f) => {
            lemma_fbuf(f as nat, 4);
            lemma_dec_scalar_f_complete(s, pos, f as nat, 4);
        },
        ValueView::F64(f) => {
            lemma_fbuf(f as nat, 8);
            lemma_dec_scalar_f_complete(s, pos, f as nat, 8);
        },
        _ => {},
    }
}

/// The encoding of a string or of a byte blob decodes to it.
pub proof fn lemma_run_complete(s: Seq<u8>, pos: int, v: ValueView)
    requires
        v.wf(),
        v is String || v is Bytes,
        at(s, pos, value_tail(v)),
        s.len() <= usize::MAX,
    ensures
        dec_body(s, pos, value_header(v).0, value_header(v).1) == Ok::<
            (ValueView, int),
            (Error, int),
        >((v, pos + value_tail(v).len())),
{
    let b = match v {
        ValueView::String(b) => b,
        ValueView::Bytes(b) => b,
        _ => Seq::empty(),
    };
    let a = extvar_tail(b.len() as u64);
    lemma_at_concat(s, pos, a, b);
    lemma_dec_size_complete(s, pos, b.len() as usize);
}

/// The encoding of a variant without payload decodes to it.
pub proof fn lemma_cenum_complete(s: Seq<u8>, pos: int, id: TypeIdView, ev: u64)
    requires
        id.wf(),
        at(s, pos, extvar_tail(ev) + enc_typeid(id)),
        s.len() <= usize::MAX,
    ensures
        dec_cenum(s, pos, extvar_l4(ev)) == Ok::<(ValueView, int), (Error, int)>(
            (ValueView::CEnum(id, ev), pos + (extvar_tail(ev) + enc_typeid(id)).len()),
        ),
{
    let a = extvar_tail(ev);
    lemma_at_concat(s, pos, a, enc_typeid(id));
    lemma_dec_extvar_complete(s, pos, ev);
    lemma_dec_typeid_complete(s, pos + a.len(), id);
}

/// The encoding of a symbol that holds no value decodes to it.
pub proof fn lemma_symbol_complete(s: Seq<u8>, pos: int, v: ValueView)
    requires
        v.wf(),
        v is Unit || v is Bool || v is Type || v is TypeId || (v is Option && v->Option_1 is None),
        at(s, pos, value_tail(v)),
        s.len() <= usize::MAX,
    ensures
        dec_symbol(s, pos, value_header(v).0) == Ok::<(ValueView, int), (Error, int)>(
            (v, pos + value_tail(v).len()),
        ),
        value_header(v).0.numeric(),
        value_header(v).1 == L4::EXT1,
{
    match v {
        ValueView::Option(t, o) => {
            lemma_dec_type_complete(s, pos, t);
        },
        ValueView::Type(t) => {
            lemma_dec_type_complete(s, pos, t);
        },
        ValueView::TypeId(id) => {
            lemma_dec_typeid_complete(s, pos, id);
        },
        _ => {},
    }
}

/// The encoding of an option that holds a value decodes to it.
pub proof fn lemma_some_complete(s: Seq<u8>, pos: int, t: TypeView, x: ValueView)
    requires
        t.wf(),
        x.wf(),
        x.has_magnitudes(),
        at(s, pos, enc_type(t) + enc_value(x)),
        s.len() <= usize::MAX,
    ensures
        dec_symbol(s, pos, H4::N5) == Ok::<(ValueView, int), (Error, int)>(
            (ValueView::Option(t, Some(Box::new(x))), pos + (enc_type(t) + enc_value(x)).len()),
        ),
    decreases x, 5nat,
{
    lemma_at_concat(s, pos, enc_type(t), enc_value(x));
    lemma_dec_type_complete(s, pos, t);
    lemma_dec_value_complete(s, pos + enc_type(t).len(), x);
}

/// The encoding of an alias decodes to it.
pub proof fn lemma_alias_complete(s: Seq<u8>, pos: int, id: TypeIdView, x: ValueView)
    requires
        id.wf(),
        x.wf(),
        x.has_magnitudes(),
        at(s, pos, enc_typeid(id) + enc_value(x)),
        s.len() <= usize::MAX,
    ensures
        dec_symbol(s, pos, H4::N6) == Ok::<(ValueView, int), (Error, int)>(
            (ValueView::Alias(id, Box::new(x)), pos + (enc_typeid(id) + enc_value(x)).len()),
        ),
    decreases x, 5nat,
{
    lemma_at_concat(s, pos, enc_typeid(id), enc_value(x));
    lemma_dec_typeid_complete(s, pos, id);
    lemma_dec_value_complete(s, pos + enc_typeid(id).len(), x);
}

/// The encoding of a list decodes to it.
pub proof fn lemma_list_complete(s: Seq<u8>, pos: int, t: TypeView, vs: Seq<ValueView>)
    requires
        ValueView::List(t, vs).wf(),
        ValueView::List(t, vs).has_magnitudes(),
        at(s, pos, value_tail(ValueView::List(t, vs))),
        s.len() <= usize::MAX,
    ensures
        dec_list(s, pos, extvar_l4(vs.len() as u64)) == Ok::<(ValueView, int), (Error, int)>(
            (ValueView::List(t, vs), pos + value_tail(ValueView::List(t, vs)).len()),
        ),
    decreases vs, 1nat,
{
    let a = extvar_tail(vs.len() as u64);
    lemma_at_concat(s, pos, a + enc_type(t), enc_values(vs));
    lemma_at_concat(s, pos, a, enc_type(t));
    lemma_dec_size_complete(s, pos, vs.len() as usize);
    lemma_dec_type_complete(s, pos + a.len(), t);
    lemma_dec_values_complete(s, pos + a.len() + enc_type(t).len(), vs);
}

/// The encoding of a map decodes to it.
pub proof fn lemma_dict_complete(
    s: Seq<u8>,
    pos: int,
    tk: TypeView,
    tv: TypeView,
    es: Seq<(ValueView, ValueView)>,
)
    requires
        ValueView::Dict(tk, tv, es).wf(),
        ValueView::Dict(tk, tv, es).has_magnitudes(),
        at(s, pos, value_tail(ValueView::Dict(tk, tv, es))),
        s.len() <= usize::MAX,
    ensures
        dec_dict(s, pos, extvar_l4(es.len() as u64)) == Ok::<(ValueView, int), (Error, int)>(
            (ValueView::Dict(tk, tv, es), pos + value_tail(ValueView::Dict(tk, tv, es)).len()),
        ),
    decreases es, 1nat,
{
    let a = extvar_tail(es.len() as u64);
    lemma_at_concat(s, pos, a + enc_type(tk) + enc_type(tv), enc_entries(es));
    lemma_at_concat(s, pos, a + enc_type(tk), enc_type(tv));
    lemma_at_concat(s, pos, a, enc_type(tk));
    lemma_dec_size_complete(s, pos, es.len() as usize);
    lemma_dec_type_complete(s, pos + a.len(), tk);
    lemma_dec_type_complete(s, pos + a.len() + enc_type(tk).len(), tv);
    lemma_dec_entries_complete(s, pos + a.len() + enc_type(tk).len() + enc_type(tv).len(), es);
}

/// The encoding of a tuple decodes to it.
pub proof fn lemma_tuple_complete(s: Seq<u8>, pos: int, vs: Seq<ValueView>)
    requires
        ValueView::Tuple(vs).wf(),
        ValueView::Tuple(vs).has_magnitudes(),
        at(s, pos, value_tail(ValueView::Tuple(vs))),
        s.len() <= usize::MAX,
    ensures
        dec_tuple(s, pos, extvar_l4(vs.len() as u64)) == Ok::<(ValueView, int), (Error, int)>(
            (ValueView::Tuple(vs), pos + value_tail(ValueView::Tuple(vs)).len()),
        ),
    decreases vs, 1nat,
{
    let a = extvar_tail(vs.len() as u64);
    lemma_at_concat(s, pos, a, enc_values(vs));
    lemma_dec_size_complete(s, pos, vs.len() as usize);
    lemma_dec_values_complete(s, pos + a.len(), vs);
}

/// The encoding of a variant with payload decodes to it.
pub proof fn lemma_enum_complete(s: Seq<u8>, pos: int, id: TypeIdView, ev: u64, x: ValueView)
    requires
        id.wf(),
        x.wf(),
        x.has_magnitudes(),
        at(s, pos, extvar_tail(ev) + enc_typeid(id) + enc_value(x)),
        s.len() <= usize::MAX,
    ensures
        dec_enum(s, pos, extvar_l4(ev)) == Ok::<(ValueView, int), (Error, int)>(
            (
                ValueView::Enum(id, ev, Box::new(x)),
                pos + (extvar_tail(ev) + enc_typeid(id) + enc_value(x)).len(),
            ),
        ),
    decreases x, 5nat,
{
    let a = extvar_tail(ev);
    lemma_at_concat(s, pos, a + enc_typeid(id), enc_value(x));
    lemma_at_concat(s, pos, a, enc_typeid(id));
    lemma_dec_extvar_complete(s, pos, ev);
    lemma_dec_typeid_complete(s, pos + a.len(), id);
    lemma_dec_value_complete(s, pos + a.len() + enc_typeid(id).len(), x);
}

/// The encoding of a struct decodes to it.
pub proof fn lemma_struct_complete(s: Seq<u8>, pos: int, id: TypeIdView, vs: Seq<ValueView>)
    requires
        ValueView::Struct(id, vs).wf(),
        ValueView::Struct(id, vs).has_magnitudes(),
        at(s, pos, value_tail(ValueView::Struct(id, vs))),
        s.len() <= usize::MAX,
    ensures
        dec_struct(s, pos, extvar_l4(vs.len() as u64)) == Ok::<(ValueView, int), (Error, int)>(
            (ValueView::Struct(id, vs), pos + value_tail(ValueView::Struct(id, vs)).len()),
        ),
    decreases vs, 1nat,
{
    let a = extvar_tail(vs.len() as u64);
    lemma_at_concat(s, pos, a + enc_typeid(id), enc_values(vs));
    lemma_at_concat(s, pos, a, enc_typeid(id));
    lemma_dec_size_complete(s, pos, vs.len() as usize);
    lemma_dec_typeid_complete(s, pos + a.len(), id);
    lemma_dec_values_complete(s, pos + a.len() + enc_typeid(id).len(), vs);
}

/// What follows the header of an admitted value decodes to the value.
pub proof fn lemma_dec_body_complete(s: Seq<u8>, p: int, v: ValueView)
    requires
        v.wf(),
        v.has_magnitudes(),
        at(s, p, value_tail(v)),
        s.len() <= usize::MAX,
    ensures
        dec_body(s, p, value_header(v).0, value_header(v).1) == Ok::<
            (ValueView, int),
            (Error, int),
        >((v, p + value_tail(v).len())),
    decreases v, 3nat,
{
    match v {
        ValueView::Unit => {},
        ValueView::Bool(b) => {},
        ValueView::String(b) => {
            lemma_run_complete(s, p, v);
        },
        ValueView::Bytes(b) => {
            lemma_run_complete(s, p, v);
        },
        ValueView::Option(t, o) => {
            match o {
                None => {
                    lemma_symbol_complete(s, p, v);
                },
                Some(x) => {
                    lemma_some_complete(s, p, t, *x);
                },
            }
        },
        ValueView::List(t, vs) => {
            lemma_list_complete(s, p, t, vs);
        },
        ValueView::Dict(tk, tv, es) => {
            lemma_dict_complete(s, p, tk, tv, es);
        },
        ValueView::Tuple(vs) => {
            lemma_tuple_complete(s, p, vs);
        },
        ValueView::Alias(id, x) => {
            lemma_alias_complete(s, p, id, *x);
        },
        ValueView::CEnum(id, ev) => {
            lemma_cenum_complete(s, p, id, ev);
        },
        ValueView::Enum(id, ev, x) => {
            lemma_enum_complete(s, p, id, ev, *x);
        },
        ValueView::Struct(id, vs) => {
            lemma_struct_complete(s, p, id, vs);
        },
        ValueView::Type(t) => {
            lemma_symbol_complete(s, p, v);
        },
        ValueView::TypeId(id) => {
            lemma_symbol_complete(s, p, v);
        },
        _ => {
            lemma_scalar_complete(s, p, v);
        },
    }
}

/// The encoding of a value that the format admits decodes to the value.
pub proof fn lemma_dec_value_complete(s: Seq<u8>, pos: int, v: ValueView)
    requires
        v.wf(),
        v.has_magnitudes(),
        at(s, pos, enc_value(v)),
        s.len() <= usize::MAX,
    ensures
        dec_value(s, pos) == Ok::<(ValueView, int), (Error, int)>((v, pos + enc_value(v).len())),
    decreases v, 4nat,
{
    let (h4, l4) = value_header(v);
    let hb = header_byte(h4, l4);
    lemma_enc_value_unfold(v);
    lemma_at_concat(s, pos, seq![hb], value_tail(v));
    lemma_at_one(s, pos, hb);
    lemma_dec_body_complete(s, pos + 1, v);
}

/// The encodings of admitted values, one after another, decode to the
/// values.
pub proof fn lemma_dec_values_complete(s: Seq<u8>, pos: int, vs: Seq<ValueView>)
    requires
        forall|i: int| 0 <= i < vs.len() ==> (#[trigger] vs[i]).wf(),
        forall|i: int| 0 <= i < vs.len() ==> (#[trigger] vs[i]).has_magnitudes(),
        at(s, pos, enc_values(vs)),
        s.len() <= usize::MAX,
    ensures
        dec_values(s, pos, vs.len()) == Ok::<(Seq<ValueView>, int), (Error, int)>(
            (vs, pos + enc_values(vs).len()),
        ),
    decreases vs, 0nat,
{
    if vs.len() == 0 {
        assert(vs =~= Seq::<ValueView>::empty());
    } else {
        let v = vs.first();
        let rest = vs.drop_first();
        lemma_at_concat(s, pos, enc_value(v), enc_values(rest));
        lemma_dec_value_complete(s, pos, v);
        assert forall|i: int| 0 <= i < rest.len() implies (#[trigger] rest[i]).wf()
            && rest[i].has_magnitudes() by {}
        lemma_dec_values_complete(s, pos + enc_value(v).len(), rest);
        assert(seq![v] + rest =~= vs);
    }
}

/// The encodings of admitted entries, one after another, decode to the
/// entries.
pub proof fn lemma_dec_entries_complete(s: Seq<u8>, pos: int, es: Seq<(ValueView, ValueView)>)
    requires
        forall|i: int| 0 <= i < es.len() ==> (#[trigger] es[i]).0.wf() && es[i].1.wf(),
        forall|i: int|
            0 <= i < es.len() ==> (#[trigger] es[i]).0.has_magnitudes()
                && es[i].1.has_magnitudes(),
        at(s, pos, enc_entries(es)),
        s.len() <= usize::MAX,
    ensures
        dec_entries(s, pos, es.len()) == Ok::<(Seq<(ValueView, ValueView)>, int), (Error, int)>(
            (es, pos + enc_entries(es).len()),
        ),
    decreases es, 0nat,
{
    if es.len() == 0 {
        assert(es =~= Seq::<(ValueView, ValueView)>::empty());
    } else {
        let (k, v) = es.first();
        let rest = es.drop_first();
        lemma_at_concat(s, pos, enc_value(k) + enc_value(v), enc_entries(rest));
        lemma_at_concat(s, pos, enc_value(k), enc_value(v));
        lemma_dec_value_complete(s, pos, k);
        lemma_dec_value_complete(s, pos + enc_value(k).len(), v);
        assert forall|i: int| 0 <= i < rest.len() implies (#[trigger] rest[i]).0.wf()
            && rest[i].1.wf() && rest[i].0.has_magnitudes() && rest[i].1.has_magnitudes() by {}
        lemma_dec_entries_complete(s, pos + enc_value(k).len() + enc_value(v).len(), rest);
        assert(seq![(k, v)] + rest =~= es);
    }
}

} // verus!
