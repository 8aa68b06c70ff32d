//! Values: what decodes is well formed, and its encoding is what was read.

use vstd::prelude::*;
use crate::bigend::lemma_pow256_values;
use crate::casting::{flen_of, header_byte, ulen_of};
use crate::grammar::{
    dec_body, dec_bytes, dec_cenum, dec_dict, dec_entries, dec_enum, dec_extvar, dec_list,
    dec_scalar, dec_scalar_f, dec_scalar_u, dec_signed, dec_size, dec_span, dec_string, dec_struct,
    dec_symbol, dec_tuple, dec_type, dec_typeid, dec_value, dec_values, Parsed, remaining,
    scalar_kind, split_header,
};
use crate::header::{H4, L4};
use crate::proofs::parts::{lemma_dec_extvar_sound, lemma_dec_size_sound, lemma_dec_typeid_sound};
use crate::proofs::scalars::{
    ftail, lemma_dec_scalar_f_sound, lemma_dec_scalar_u_sound, lemma_dec_signed_sound, lemma_fbuf,
    lemma_ubuf, utail,
};
use crate::proofs::seqs::{at, lemma_at_concat, lemma_at_empty};
use crate::proofs::types::lemma_dec_type_sound;
use crate::value::ValueView;
use crate::wire::{
    enc_entries, enc_extvar, enc_scalar_f, enc_scalar_u, enc_type, enc_typeid, enc_value,
    enc_values, extvar_l4, extvar_tail, fbuf, magnitude, numeric_h4, ubuf,
};

verus! {

/// The outcome `r` of decoding at `pos`, after the bytes `prefix` were
/// read, is sound: if it is a value, the value is admitted by the format
/// and its encoding is `prefix` and then what was read.
pub open spec fn sound(s: Seq<u8>, pos: int, prefix: Seq<u8>, r: Parsed<ValueView>) -> bool {
    r matches Ok((v, p)) ==> {
        &&& v.wf()
        &&& v.has_magnitudes()
        &&& pos <= p <= s.len()
        &&& enc_value(v) == prefix + s.subrange(pos, p)
    }
}

/// A header of a quantity is the header byte and then the tail.
pub proof fn lemma_enc_extvar_unfold(h4: H4, u: u64)
    ensures
        enc_extvar(h4, u) == seq![header_byte(h4, extvar_l4(u))] + extvar_tail(u),
{
    reveal(enc_extvar);
}

/// An integer whose shortest bytes were read after a header of their
/// family: header and bytes are the integer's encoding.
pub proof fn lemma_read_scalar_u(s: Seq<u8>, pos: int, p: int, h4: H4, l4: L4, u: nat, nlen: nat)
    requires
        1 <= nlen <= 8,
        h4 == numeric_h4(ulen_of(ubuf(u, nlen))),
        p == pos + ulen_of(ubuf(u, nlen)),
        at(s, pos, utail(u, nlen)),
    ensures
        pos <= p <= s.len(),
        enc_scalar_u(l4, u, nlen) == seq![header_byte(h4, l4)] + s.subrange(pos, p),
{
    reveal(enc_scalar_u);
    lemma_ubuf(u, nlen);
}

/// A bit pattern whose shortest bytes were read after a header of their
/// family: header and bytes are the pattern's encoding.
pub proof fn lemma_read_scalar_f(s: Seq<u8>, pos: int, p: int, h4: H4, l4: L4, f: nat, nlen: nat)
    requires
        1 <= nlen <= 8,
        h4 == numeric_h4(flen_of(fbuf(f, nlen))),
        p == pos + flen_of(fbuf(f, nlen)),
        at(s, pos, ftail(f, nlen)),
    ensures
        pos <= p <= s.len(),
        enc_scalar_f(l4, f, nlen) == seq![header_byte(h4, l4)] + s.subrange(pos, p),
{
    reveal(enc_scalar_f);
    lemma_fbuf(f, nlen);
}

/// A scalar that decodes is sound.
pub proof fn lemma_dec_scalar_sound(s: Seq<u8>, pos: int, h4: H4, l4: L4)
    requires
        0 <= pos <= s.len(),
        scalar_kind(l4),
    ensures
        sound(s, pos, seq![header_byte(h4, l4)], dec_scalar(s, pos, h4, l4)),
{
    lemma_pow256_values();
    if let Ok((v, p)) = dec_scalar(s, pos, h4, l4) {
        match l4 {
            L4::U8 => {
                lemma_dec_scalar_u_sound(s, pos, h4, 1);
                let u = dec_scalar_u(s, pos, h4, 1)->Ok_0.0.0;
                lemma_read_scalar_u(s, pos, p, h4, l4, u, 1);
            },
            L4::U16 => {
                lemma_dec_scalar_u_sound(s, pos, h4, 2);
                let u = dec_scalar_u(s, pos, h4, 2)->Ok_0.0.0;
                lemma_read_scalar_u(s, pos, p, h4, l4, u, 2);
            },
            L4::U32 => {
                lemma_dec_scalar_u_sound(s, pos, h4, 4);
                let u = dec_scalar_u(s, pos, h4, 4)->Ok_0.0.0;
                lemma_read_scalar_u(s, pos, p, h4, l4, u, 4);
            },
            L4::U64 => {
                lemma_dec_scalar_u_sound(s, pos, h4, 8);
                let u = dec_scalar_u(s, pos, h4, 8)->Ok_0.0.0;
                lemma_read_scalar_u(s, pos, p, h4, l4, u, 8);
            },
            L4::I8 => {
                lemma_dec_scalar_u_sound(s, pos, h4, 1);
                let u = dec_scalar_u(s, pos, h4, 1)->Ok_0.0.0;
                lemma_read_scalar_u(s, pos, p, h4, l4, u, 1);
            },
            L4::P16 => {
                lemma_dec_signed_sound(s, pos, h4, 2, false, i16::MAX as int);
                let i = dec_signed(s, pos, h4, 2, false, i16::MAX as int)->Ok_0.0;
                lemma_read_scalar_u(s, pos, p, h4, l4, magnitude(i), 2);
            },
            L4::P32 => {
                lemma_dec_signed_sound(s, pos, h4, 4, false, i32::MAX as int);
                let i = dec_signed(s, pos, h4, 4, false, i32::MAX as int)->Ok_0.0;
                lemma_read_scalar_u(s, pos, p, h4, l4, magnitude(i), 4);
            },
            L4::P64 => {
                lemma_dec_signed_sound(s, pos, h4, 8, false, i64::MAX as int);
                let i = dec_signed(s, pos, h4, 8, false, i64::MAX as int)->Ok_0.0;
                lemma_read_scalar_u(s, pos, p, h4, l4, magnitude(i), 8);
            },
            L4::N16 => {
                lemma_dec_signed_sound(s, pos, h4, 2, true, i16::MAX as int);
                let i = dec_signed(s, pos, h4, 2, true, i16::MAX as int)->Ok_0.0;
                lemma_read_scalar_u(s, pos, p, h4, l4, magnitude(i), 2);
            },
            L4::N32 => {
                lemma_dec_signed_sound(s, pos, h4, 4, true, i32::MAX as int);
                let i = dec_signed(s, pos, h4, 4, true, i32::MAX as int)->Ok_0.0;
                lemma_read_scalar_u(s, pos, p, h4, l4, magnitude(i), 4);
            },
            L4::N64 => {
                lemma_dec_signed_sound(s, pos, h4, 8, true, i64::MAX as int);
                let i = dec_signed(s, pos, h4, 8, true, i64::MAX as int)->Ok_0.0;
                lemma_read_scalar_u(s, pos, p, h4, l4, magnitude(i), 8);
            },
            L4::F16 => {
                lemma_dec_scalar_f_sound(s, pos, h4, 2);
                let f = dec_scalar_f(s, pos, h4, 2)->Ok_0.0;
                lemma_read_scalar_f(s, pos, p, h4, l4, f, 2);
            },
            L4::F32 => {
                lemma_dec_scalar_f_sound(s, pos, h4, 4);
                let f = dec_scalar_f(s, pos, h4, 4)->Ok_0.0;
                lemma_read_scalar_f(s, pos, p, h4, l4, f, 4);
            },
            L4::F64 => {
                lemma_dec_scalar_f_sound(s, pos, h4, 8);
                let f = dec_scalar_f(s, pos, h4, 8)->Ok_0.0;
                lemma_read_scalar_f(s, pos, p, h4, l4, f, 8);
            },
            _ => {},
        }
    }
}

/// A string that decodes is sound.
pub proof fn lemma_dec_string_sound(s: Seq<u8>, pos: int, l4: L4)
    requires
        0 <= pos <= s.len(),
    ensures
        sound(s, pos, seq![header_byte(H4::String, l4)], dec_string(s, pos, l4)),
{
    if let Ok((v, p2)) = dec_string(s, pos, l4) {
        lemma_dec_size_sound(s, pos, l4);
        let (len, p) = dec_size(s, pos, l4)->Ok_0;
        let b = dec_span(s, p, len)->Ok_0.0;
        lemma_at_concat(s, pos, extvar_tail(len as u64), b);
        lemma_enc_extvar_unfold(H4::String, len as u64);
        assert(enc_value(v) =~= seq![header_byte(H4::String, l4)] + (extvar_tail(len as u64) + b));
    }
}

/// A byte blob that decodes is sound.
pub proof fn lemma_dec_bytes_sound(s: Seq<u8>, pos: int, l4: L4)
    requires
        0 <= pos <= s.len(),
    ensures
        sound(s, pos, seq![header_byte(H4::Bytes, l4)], dec_bytes(s, pos, l4)),
{
    if let Ok((v, p2)) = dec_bytes(s, pos, l4) {
        lemma_dec_size_sound(s, pos, l4);
        let (len, p) = dec_size(s, pos, l4)->Ok_0;
        let b = dec_span(s, p, len)->Ok_0.0;
        lemma_at_concat(s, pos, extvar_tail(len as u64), b);
        lemma_enc_extvar_unfold(H4::Bytes, len as u64);
        assert(enc_value(v) =~= seq![header_byte(H4::Bytes, l4)] + (extvar_tail(len as u64) + b));
    }
}

/// A variant without payload that decodes is sound.
pub proof fn lemma_dec_cenum_sound(s: Seq<u8>, pos: int, l4: L4)
    requires
        0 <= pos <= s.len(),
    ensures
        sound(s, pos, seq![header_byte(H4::CEnum, l4)], dec_cenum(s, pos, l4)),
{
    if let Ok((v, p2)) = dec_cenum(s, pos, l4) {
        lemma_dec_extvar_sound(s, pos, l4);
        let (ev, p) = dec_extvar(s, pos, l4)->Ok_0;
        lemma_dec_typeid_sound(s, p);
        let id = dec_typeid(s, p)->Ok_0.0;
        lemma_at_concat(s, pos, extvar_tail(ev), enc_typeid(id));
        lemma_enc_extvar_unfold(H4::CEnum, ev);
        assert(enc_value(v) =~= seq![header_byte(H4::CEnum, l4)] + (extvar_tail(ev) + enc_typeid(
            id,
        )));
    }
}

/// What a header under `L4::EXT1` opens is sound if it decodes.
pub proof fn lemma_dec_symbol_sound(s: Seq<u8>, pos: int, h4: H4)
    requires
        0 <= pos <= s.len(),
    ensures
        sound(s, pos, seq![header_byte(h4, L4::EXT1)], dec_symbol(s, pos, h4)),
    decreases remaining(s, pos), 1nat, 0nat,
{
    let prefix = seq![header_byte(h4, L4::EXT1)];
    if let Ok((v, p2)) = dec_symbol(s, pos, h4) {
        match h4 {
            H4::N4 => {
                lemma_dec_type_sound(s, pos);
            },
            H4::N5 => {
                lemma_dec_type_sound(s, pos);
                let (t, p) = dec_type(s, pos)->Ok_0;
                lemma_dec_value_sound(s, p);
                let x = dec_value(s, p)->Ok_0.0;
                lemma_at_concat(s, pos, enc_type(t), enc_value(x));
                assert(enc_value(v) =~= prefix + (enc_type(t) + enc_value(x)));
            },
            H4::N6 => {
                lemma_dec_typeid_sound(s, pos);
                let (id, p) = dec_typeid(s, pos)->Ok_0;
                lemma_dec_value_sound(s, p);
                let x = dec_value(s, p)->Ok_0.0;
                lemma_at_concat(s, pos, enc_typeid(id), enc_value(x));
                assert(enc_value(v) =~= prefix + (enc_typeid(id) + enc_value(x)));
            },
            H4::N7 => {
                lemma_dec_type_sound(s, pos);
            },
            H4::N8 => {
                lemma_dec_typeid_sound(s, pos);
            },
            _ => {},
        }
    }
}

/// A list that decodes is sound.
pub proof fn lemma_dec_list_sound(s: Seq<u8>, pos: int, l4: L4)
    requires
        0 <= pos <= s.len(),
    ensures
        sound(s, pos, seq![header_byte(H4::List, l4)], dec_list(s, pos, l4)),
    decreases remaining(s, pos), 1nat, 0nat,
{
    if let Ok((v, p3)) = dec_list(s, pos, l4) {
        lemma_dec_size_sound(s, pos, l4);
        let (len, p) = dec_size(s, pos, l4)->Ok_0;
        lemma_dec_type_sound(s, p);
        let (t, p2) = dec_type(s, p)->Ok_0;
        lemma_dec_values_sound(s, p2, len as nat);
        let vs = dec_values(s, p2, len as nat)->Ok_0.0;
        let a = extvar_tail(len as u64);
        lemma_at_concat(s, pos, a, enc_type(t));
        lemma_at_concat(s, pos, a + enc_type(t), enc_values(vs));
        lemma_enc_extvar_unfold(H4::List, len as u64);
        assert(enc_value(v) =~= seq![header_byte(H4::List, l4)] + (a + enc_type(t) + enc_values(
            vs,
        )));
    }
}

/// A map that decodes is sound.
pub proof fn lemma_dec_dict_sound(s: Seq<u8>, pos: int, l4: L4)
    requires
        0 <= pos <= s.len(),
    ensures
        sound(s, pos, seq![header_byte(H4::Dict, l4)], dec_dict(s, pos, l4)),
    decreases remaining(s, pos), 1nat, 0nat,
{
    if let Ok((v, p4)) = dec_dict(s, pos, l4) {
        lemma_dec_size_sound(s, pos, l4);
        let (len, p) = dec_size(s, pos, l4)->Ok_0;
        lemma_dec_type_sound(s, p);
        let (tk, p2) = dec_type(s, p)->Ok_0;
        lemma_dec_type_sound(s, p2);
        let (tv, p3) = dec_type(s, p2)->Ok_0;
        lemma_dec_entries_sound(s, p3, len as nat);
        let es = dec_entries(s, p3, len as nat)->Ok_0.0;
        let a = extvar_tail(len as u64);
        lemma_at_concat(s, pos, a, enc_type(tk));
        lemma_at_concat(s, pos, a + enc_type(tk), enc_type(tv));
        lemma_at_concat(s, pos, a + enc_type(tk) + enc_type(tv), enc_entries(es));
        lemma_enc_extvar_unfold(H4::Dict, len as u64);
        assert(enc_value(v) =~= seq![header_byte(H4::Dict, l4)] + (a + enc_type(tk) + enc_type(tv)
            + enc_entries(es)));
    }
}

/// A tuple that decodes is sound.
pub proof fn lemma_dec_tuple_sound(s: Seq<u8>, pos: int, l4: L4)
    requires
        0 <= pos <= s.len(),
    ensures
        sound(s, pos, seq![header_byte(H4::Tuple, l4)], dec_tuple(s, pos, l4)),
    decreases remaining(s, pos), 1nat, 0nat,
{
    if let Ok((v, p2)) = dec_tuple(s, pos, l4) {
        lemma_dec_size_sound(s, pos, l4);
        let (len, p) = dec_size(s, pos, l4)->Ok_0;
        lemma_dec_values_sound(s, p, len as nat);
        let vs = dec_values(s, p, len as nat)->Ok_0.0;
        let a = extvar_tail(len as u64);
        lemma_at_concat(s, pos, a, enc_values(vs));
        lemma_enc_extvar_unfold(H4::Tuple, len as u64);
        assert(enc_value(v) =~= seq![header_byte(H4::Tuple, l4)] + (a + enc_values(vs)));
    }
}

/// A variant with payload that decodes is sound.
pub proof fn lemma_dec_enum_sound(s: Seq<u8>, pos: int, l4: L4)
    requires
        0 <= pos <= s.len(),
    ensures
        sound(s, pos, seq![header_byte(H4::Enum, l4)], dec_enum(s, pos, l4)),
    decreases remaining(s, pos), 1nat, 0nat,
{
    if let Ok((v, p3)) = dec_enum(s, pos, l4) {
        lemma_dec_extvar_sound(s, pos, l4);
        let (ev, p) = dec_extvar(s, pos, l4)->Ok_0;
        lemma_dec_typeid_sound(s, p);
        let (id, p2) = dec_typeid(s, p)->Ok_0;
        lemma_dec_value_sound(s, p2);
        let x = dec_value(s, p2)->Ok_0.0;
        let a = extvar_tail(ev);
        lemma_at_concat(s, pos, a, enc_typeid(id));
        lemma_at_concat(s, pos, a + enc_typeid(id), enc_value(x));
        lemma_enc_extvar_unfold(H4::Enum, ev);
        assert(enc_value(v) =~= seq![header_byte(H4::Enum, l4)] + (a + enc_typeid(id) + enc_value(
            x,
        )));
    }
}

/// A struct that decodes is sound.
pub proof fn lemma_dec_struct_sound(s: Seq<u8>, pos: int, l4: L4)
    requires
        0 <= pos <= s.len(),
    ensures
        sound(s, pos, seq![header_byte(H4::Struct, l4)], dec_struct(s, pos, l4)),
    decreases remaining(s, pos), 1nat, 0nat,
{
    if let Ok((v, p3)) = dec_struct(s, pos, l4) {
        lemma_dec_size_sound(s, pos, l4);
        let (len, p) = dec_size(s, pos, l4)->Ok_0;
        lemma_dec_typeid_sound(s, p);
        let (id, p2) = dec_typeid(s, p)->Ok_0;
        lemma_dec_values_sound(s, p2, len as nat);
        let vs = dec_values(s, p2, len as nat)->Ok_0.0;
        let a = extvar_tail(len as u64);
        lemma_at_concat(s, pos, a, enc_typeid(id));
        lemma_at_concat(s, pos, a + enc_typeid(id), enc_values(vs));
        lemma_enc_extvar_unfold(H4::Struct, len as u64);
        assert(enc_value(v) =~= seq![header_byte(H4::Struct, l4)] + (a + enc_typeid(id)
            + enc_values(vs)));
    }
}

/// What a header opens is sound if it decodes.
pub proof fn lemma_dec_body_sound(s: Seq<u8>, pos: int, h4: H4, l4: L4)
    requires
        0 <= pos <= s.len(),
    ensures
        sound(s, pos, seq![header_byte(h4, l4)], dec_body(s, pos, h4, l4)),
    decreases remaining(s, pos), 2nat, 0nat,
{
    match h4 {
        H4::String => lemma_dec_string_sound(s, pos, l4),
        H4::Bytes => lemma_dec_bytes_sound(s, pos, l4),
        H4::List => lemma_dec_list_sound(s, pos, l4),
        H4::Dict => lemma_dec_dict_sound(s, pos, l4),
        H4::Tuple => lemma_dec_tuple_sound(s, pos, l4),
        H4::CEnum => lemma_dec_cenum_sound(s, pos, l4),
        H4::Enum => lemma_dec_enum_sound(s, pos, l4),
        H4::Struct => lemma_dec_struct_sound(s, pos, l4),
        _ => match l4 {
            L4::EXT1 => lemma_dec_symbol_sound(s, pos, h4),
            L4::EXT2 => {},
            _ => lemma_dec_scalar_sound(s, pos, h4, l4),
        },
    }
}

/// A value that decodes is admitted by the format, and its encoding is
/// what was read.
pub proof fn lemma_dec_value_sound(s: Seq<u8>, pos: int)
    ensures
        dec_value(s, pos) matches Ok((v, p)) ==> {
            &&& v.wf()
            &&& v.has_magnitudes()
            &&& 0 <= pos < p <= s.len()
            &&& enc_value(v) == s.subrange(pos, p)
        },
    decreases remaining(s, pos), 0nat, 0nat,
{
    if let Ok((v, p)) = dec_value(s, pos) {
        let n = s[pos];
        let (h4, l4) = split_header(n);
        lemma_dec_body_sound(s, pos + 1, h4, l4);
    }
}

/// Values that decode one after another are admitted by the format, and
/// their encodings one after another are what was read.
pub proof fn lemma_dec_values_sound(s: Seq<u8>, pos: int, n: nat)
    requires
        0 <= pos <= s.len(),
    ensures
        dec_values(s, pos, n) matches Ok((vs, p)) ==> {
            &&& vs.len() == n
            &&& forall|i: int| 0 <= i < vs.len() ==> (#[trigger] vs[i]).wf()
            &&& forall|i: int| 0 <= i < vs.len() ==> (#[trigger] vs[i]).has_magnitudes()
            &&& p == pos + enc_values(vs).len()
            &&& at(s, pos, enc_values(vs))
        },
    decreases remaining(s, pos), 0nat, n + 1,
{
    if let Ok((vs, p)) = dec_values(s, pos, n) {
        if n == 0 {
            lemma_at_empty(s, pos);
        } else {
            lemma_dec_value_sound(s, pos);
            let (v, p1) = dec_value(s, pos)->Ok_0;
            lemma_dec_values_sound(s, p1, (n - 1) as nat);
            let rest = dec_values(s, p1, (n - 1) as nat)->Ok_0.0;
            assert(vs.drop_first() =~= rest);
            lemma_at_concat(s, pos, enc_value(v), enc_values(rest));
            assert forall|i: int| 0 <= i < vs.len() implies (#[trigger] vs[i]).wf()
                && vs[i].has_magnitudes() by {}
        }
    }
}

/// Entries that decode one after another are admitted by the format, and
/// their encodings one after another are what was read.
pub proof fn lemma_dec_entries_sound(s: Seq<u8>, pos: int, n: nat)
    requires
        0 <= pos <= s.len(),
    ensures
        dec_entries(s, pos, n) matches Ok((es, p)) ==> {
            &&& es.len() == n
            &&& forall|i: int| 0 <= i < es.len() ==> (#[trigger] es[i]).0.wf() && es[i].1.wf()
            &&& forall|i: int|
                0 <= i < es.len() ==> (#[trigger] es[i]).0.has_magnitudes()
                    && es[i].1.has_magnitudes()
            &&& p == pos + enc_entries(es).len()
            &&& at(s, pos, enc_entries(es))
        },
    decreases remaining(s, pos), 0nat, 2 * n + 1,
{
    if let Ok((es, p)) = dec_entries(s, pos, n) {
        if n == 0 {
            lemma_at_empty(s, pos);
        } else {
            lemma_dec_value_sound(s, pos);
            let (k, p1) = dec_value(s, pos)->Ok_0;
            lemma_dec_value_sound(s, p1);
            let (v, p2) = dec_value(s, p1)->Ok_0;
            lemma_dec_entries_sound(s, p2, (n - 1) as nat);
            let rest = dec_entries(s, p2, (n - 1) as nat)->Ok_0.0;
            assert(es.drop_first() =~= rest);
            lemma_at_concat(s, pos, enc_value(k), enc_value(v));
            lemma_at_concat(s, pos, enc_value(k) + enc_value(v), enc_entries(rest));
            assert forall|i: int| 0 <= i < es.len() implies (#[trigger] es[i]).0.wf()
                && es[i].1.wf() && es[i].0.has_magnitudes() && es[i].1.has_magnitudes() by {}
        }
    }
}

} // verus!
