//! The laws of the format: decoding and encoding are inverse to each
//! other, and every part of an accepted input is written in the fewest
//! bytes.

use vstd::prelude::*;
use crate::bigend::{
    be_bytes, lemma_be_bytes_len, lemma_be_value_of_bytes, lemma_pow256_values, pow256,
};
use crate::casting::{flen_of, header_byte, ulen_of};
use crate::error::Error;
use crate::grammar::{buf_array, dec_extvar, dec_scalar_f, dec_scalar_u, dec_value, decode};
use crate::header::{EXT16, EXT32, EXT64, EXT8, H4, L4};
use crate::proofs::encoded::{
    lemma_dec_value_complete, lemma_enc_value_unfold, value_header, value_tail,
};
use crate::proofs::parts::{lemma_dec_extvar_sound, lemma_dec_uint_complete};
use crate::proofs::scalars::{
    lemma_dec_scalar_f_sound, lemma_dec_scalar_u_sound, lemma_fbuf, lemma_ubuf,
};
use crate::proofs::seqs::{at, lemma_at_one};
use crate::proofs::values::lemma_dec_value_sound;
use crate::typeid::TypeIdView;
use crate::value::ValueView;
use crate::wire::{enc_value, extvar_l4, fbuf, i8_bits, magnitude, numeric_h4, ubuf, zeros};

verus! {

/// Round trip: a value that the format admits, and in which no signed
/// integer is the least of its type, decodes from its own encoding.
///
/// The least signed integers are left out because their magnitude does not
/// fit their type: the encoder writes it and the decoder refuses it.
pub proof fn law_roundtrip(v: ValueView)
    requires
        v.wf(),
        v.has_magnitudes(),
        enc_value(v).len() <= usize::MAX,
    ensures
        decode(enc_value(v)) == Ok::<ValueView, Error>(v),
{
    let s = enc_value(v);
    assert(s.subrange(0, s.len() as int) =~= s);
    lemma_dec_value_complete(s, 0, v);
}

/// Canonicality: an input that decodes is the encoding of the value it
/// decodes to, and that value is one the encoder accepts.
pub proof fn law_canonical(b: Seq<u8>)
    ensures
        decode(b) matches Ok(v) ==> enc_value(v) == b && v.wf() && v.has_magnitudes(),
{
    lemma_dec_value_sound(b, 0);
}

/// Two inputs that decode to the same value are the same input.
pub proof fn law_one_encoding(a: Seq<u8>, b: Seq<u8>)
    requires
        decode(a) is Ok,
        decode(a) == decode(b),
    ensures
        a == b,
{
    law_canonical(a);
    law_canonical(b);
}

/// Decoding reads forward: what it decodes at a position ends after the
/// position and inside the input.
pub proof fn law_decoding_advances(s: Seq<u8>, pos: int)
    ensures
        dec_value(s, pos) matches Ok((v, p)) ==> 0 <= pos < p <= s.len(),
{
    lemma_dec_value_sound(s, pos);
}

/// How many bytes follow a header whose low nibble is a length class.
pub open spec fn ext_width(l4: L4) -> nat {
    if l4 == EXT8 {
        1
    } else if l4 == EXT16 {
        2
    } else if l4 == EXT32 {
        4
    } else if l4 == EXT64 {
        8
    } else {
        0
    }
}

/// Quantities are minimal, accepted: a quantity that decodes under a low
/// nibble is one that the encoder writes under that nibble.
pub proof fn law_extvar_accepts_minimal(s: Seq<u8>, pos: int, l4: L4)
    requires
        0 <= pos <= s.len(),
    ensures
        dec_extvar(s, pos, l4) matches Ok((u, p)) ==> extvar_l4(u) == l4,
{
    lemma_dec_extvar_sound(s, pos, l4);
}

/// Quantities are minimal, refused: a quantity `u` that stands in the
/// bytes of a length class wider than it needs is refused, and the error
/// names the class it should have been written in.
pub proof fn law_extvar_rejects_longer(s: Seq<u8>, pos: int, l4: L4, u: u64)
    requires
        ext_width(l4) > 0,
        u < pow256(ext_width(l4)),
        at(s, pos, be_bytes(u as nat, ext_width(l4))),
        s.len() <= usize::MAX,
        extvar_l4(u) != l4,
    ensures
        dec_extvar(s, pos, l4) == Err::<(u64, int), (Error, int)>(
            (Error::ExtvarTooLong { l4, expected_l4: extvar_l4(u), u }, pos + ext_width(l4)),
        ),
{
    reveal(dec_extvar);
    lemma_pow256_values();
    if l4 == EXT8 {
        reveal_with_fuel(be_bytes, 2);
        lemma_at_one(s, pos, u as u8);
    } else if l4 == EXT16 {
        lemma_dec_uint_complete(s, pos, u as nat, 2);
    } else if l4 == EXT32 {
        lemma_dec_uint_complete(s, pos, u as nat, 4);
    } else {
        lemma_dec_uint_complete(s, pos, u as nat, 8);
    }
}

/// Scalars are minimal, written: the header of an encoded integer or float
/// is of the family of the fewest bytes that hold it, and exactly those
/// bytes follow.
pub proof fn law_bytevar_writes_minimal(v: ValueView)
    requires
        v.type_of().tag().code() >= 0x03,
        v.type_of().tag().code() <= 0x0d,
    ensures
        enc_value(v) == seq![header_byte(value_header(v).0, value_header(v).1)] + value_tail(v),
        value_header(v).0 == numeric_h4(value_tail(v).len() as int),
        1 <= value_tail(v).len() <= 8,
        match v {
            ValueView::F16(f) => value_tail(v).len() == flen_of(fbuf(f as nat, 2)),
            ValueView::F32(f) => value_tail(v).len() == flen_of(fbuf(f as nat, 4)),
            ValueView::F64(f) => value_tail(v).len() == flen_of(fbuf(f as nat, 8)),
            ValueView::U8(u) => value_tail(v).len() == ulen_of(ubuf(u as nat, 1)),
            ValueView::U16(u) => value_tail(v).len() == ulen_of(ubuf(u as nat, 2)),
            ValueView::U32(u) => value_tail(v).len() == ulen_of(ubuf(u as nat, 4)),
            ValueView::U64(u) => value_tail(v).len() == ulen_of(ubuf(u as nat, 8)),
            ValueView::I8(i) => value_tail(v).len() == ulen_of(ubuf(i8_bits(i), 1)),
            ValueView::I16(i) => value_tail(v).len() == ulen_of(ubuf(magnitude(i as int), 2)),
            ValueView::I32(i) => value_tail(v).len() == ulen_of(ubuf(magnitude(i as int), 4)),
            ValueView::I64(i) => value_tail(v).len() == ulen_of(ubuf(magnitude(i as int), 8)),
            _ => true,
        },
{
    lemma_enc_value_unfold(v);
    match v {
        ValueView::U8(u) => lemma_ubuf(u as nat, 1),
        ValueView::U16(u) => lemma_ubuf(u as nat, 2),
        ValueView::U32(u) => lemma_ubuf(u as nat, 4),
        ValueView::U64(u) => lemma_ubuf(u as nat, 8),
        ValueView::I8(i) => lemma_ubuf(i8_bits(i), 1),
        ValueView::I16(i) => lemma_ubuf(magnitude(i as int), 2),
        ValueView::I32(i) => lemma_ubuf(magnitude(i as int), 4),
        ValueView::I64(i) => lemma_ubuf(magnitude(i as int), 8),
        ValueView::F16(f) => lemma_fbuf(f as nat, 2),
        ValueView::F32(f) => lemma_fbuf(f as nat, 4),
        ValueView::F64(f) => lemma_fbuf(f as nat, 8),
        _ => {},
    }
}

/// Scalars are minimal, accepted: an integer that decodes under a family
/// needs exactly the bytes of that family, and so does a float.
pub proof fn law_bytevar_accepts_minimal(s: Seq<u8>, pos: int, h4: H4, nlen: usize)
    requires
        0 <= pos,
        1 <= nlen <= 8,
    ensures
        dec_scalar_u(s, pos, h4, nlen) matches Ok(((u, buf), p)) ==> h4.code() + 1 == ulen_of(buf)
            && p == pos + ulen_of(buf),
        dec_scalar_f(s, pos, h4, nlen) matches Ok((f, p)) ==> h4.code() + 1 == flen_of(
            fbuf(f, nlen as nat),
        ) && p == pos + flen_of(fbuf(f, nlen as nat)),
{
    lemma_dec_scalar_u_sound(s, pos, h4, nlen);
    lemma_dec_scalar_f_sound(s, pos, h4, nlen);
}

/// Scalars are minimal, refused: an integer given more bytes than it
/// needs, under a family that its type allows, is refused, and the error
/// says how many bytes it needs.
pub proof fn law_bytevar_rejects_longer(s: Seq<u8>, pos: int, h4: H4, nlen: usize)
    requires
        h4.numeric(),
        0 <= pos,
        pos + h4.code() + 1 <= s.len() <= usize::MAX,
        h4.code() + 1 <= nlen <= 8,
    ensures
        ({
            let len = (h4.code() + 1) as usize;
            let buf = zeros(8 - len) + s.subrange(pos, pos + len);
            ulen_of(buf) != len ==> dec_scalar_u(s, pos, h4, nlen) == Err::<
                ((nat, Seq<u8>), int),
                (Error, int),
            >(
                (
                    Error::BytevarLongerThanExpected {
                        len,
                        nlen,
                        exp_len: ulen_of(buf) as usize,
                        buf: buf_array(buf),
                    },
                    pos + len,
                ),
            )
        }),
        ({
            let len = (h4.code() + 1) as usize;
            let buf = s.subrange(pos, pos + len) + zeros(8 - len);
            flen_of(buf) != len ==> dec_scalar_f(s, pos, h4, nlen) == Err::<
                (nat, int),
                (Error, int),
            >(
                (
                    Error::BytevarLongerThanExpected {
                        len,
                        nlen,
                        exp_len: flen_of(buf) as usize,
                        buf: buf_array(buf),
                    },
                    pos + len,
                ),
            )
        }),
{
    reveal(dec_scalar_u);
    reveal(dec_scalar_f);
}

/// Identifiers as eight bytes: a well-formed identifier survives being
/// written as eight bytes and read back.
pub proof fn law_fixed_bytes_roundtrip(id: TypeIdView)
    requires
        id.wf(),
    ensures
        id.fixed_bytes().len() == 8,
        TypeIdView::of_fixed_bytes(id.fixed_bytes()) == id,
{
    match id {
        TypeIdView::Anonymous => {},
        TypeIdView::Std { schema, id: n } => {
            lemma_be_bytes_len(n as nat, 2);
            lemma_pow256_values();
            lemma_be_value_of_bytes(n as nat, 2);
            assert(id.fixed_bytes().subrange(6, 8) =~= be_bytes(n as nat, 2));
        },
        TypeIdView::Hash { hash } => {
            assert(id.fixed_bytes().subrange(1, 8) =~= hash);
        },
    }
}

} // verus!
