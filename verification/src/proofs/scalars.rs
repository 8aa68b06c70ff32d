//! Integers and floats: decoding and encoding agree.

use vstd::prelude::*;
use crate::bigend::{
    be_bytes, lemma_be_bytes_len, lemma_be_bytes_of_value, lemma_be_value_bound,
    lemma_be_value_of_bytes, pow256,
};
use crate::casting::{flen_of, ulen_of};
use crate::error::Error;
use crate::grammar::{dec_scalar_f, dec_scalar_u, dec_signed, i8_of_bits};
use crate::header::H4;
use crate::proofs::parts::{lemma_dec_span_complete, lemma_dec_span_sound};
use crate::proofs::seqs::at;
use crate::wire::{fbuf, i8_bits, magnitude, numeric_h4, ubuf, zeros};

verus! {

/// The bytes of a scalar that matter, in the right-aligned buffer.
pub open spec fn utail(u: nat, nlen: nat) -> Seq<u8> {
    ubuf(u, nlen).subrange(8 - ulen_of(ubuf(u, nlen)), 8)
}

/// The bytes of a bit pattern that matter, in the left-aligned buffer.
pub open spec fn ftail(bits: nat, nlen: nat) -> Seq<u8> {
    fbuf(bits, nlen).subrange(0, flen_of(fbuf(bits, nlen)))
}

/// The right-aligned buffer has eight bytes, zeros before the scalar, and
/// needs no more bytes than the scalar has.
pub proof fn lemma_ubuf(u: nat, nlen: nat)
    requires
        1 <= nlen <= 8,
    ensures
        ubuf(u, nlen).len() == 8,
        forall|i: int| 0 <= i < 8 - nlen ==> ubuf(u, nlen)[i] == 0,
        ubuf(u, nlen).subrange(8 - nlen, 8) == be_bytes(u, nlen),
        1 <= ulen_of(ubuf(u, nlen)) <= nlen,
        forall|i: int| 0 <= i < 8 - ulen_of(ubuf(u, nlen)) ==> ubuf(u, nlen)[i] == 0,
        utail(u, nlen).len() == ulen_of(ubuf(u, nlen)),
{
    lemma_be_bytes_len(u, nlen);
}

/// The left-aligned buffer has eight bytes, zeros after the pattern, and
/// needs no more bytes than the pattern has.
pub proof fn lemma_fbuf(bits: nat, nlen: nat)
    requires
        1 <= nlen <= 8,
    ensures
        fbuf(bits, nlen).len() == 8,
        forall|i: int| nlen <= i < 8 ==> fbuf(bits, nlen)[i] == 0,
        fbuf(bits, nlen).subrange(0, nlen as int) == be_bytes(bits, nlen),
        1 <= flen_of(fbuf(bits, nlen)) <= nlen,
        forall|i: int| flen_of(fbuf(bits, nlen)) <= i < 8 ==> fbuf(bits, nlen)[i] == 0,
        ftail(bits, nlen).len() == flen_of(fbuf(bits, nlen)),
{
    lemma_be_bytes_len(bits, nlen);
}

/// The family of a byte count has that count.
pub proof fn lemma_numeric_h4(len: int)
    requires
        1 <= len <= 8,
    ensures
        numeric_h4(len).numeric(),
        numeric_h4(len).code() + 1 == len,
{
}

/// A numeric family is the family of its byte count.
pub proof fn lemma_numeric_h4_of_code(h4: H4)
    requires
        h4.numeric(),
    ensures
        numeric_h4(h4.code() + 1) == h4,
{
}

/// An integer that decodes was written in the fewest bytes, and they are
/// what was read.
pub proof fn lemma_dec_scalar_u_sound(s: Seq<u8>, pos: int, h4: H4, nlen: usize)
    requires
        0 <= pos,
        1 <= nlen <= 8,
    ensures
        dec_scalar_u(s, pos, h4, nlen) matches Ok(((u, buf), p)) ==> {
            &&& h4.numeric()
            &&& u < pow256(nlen as nat)
            &&& buf == ubuf(u, nlen as nat)
            &&& h4 == numeric_h4(ulen_of(buf))
            &&& p == pos + ulen_of(buf)
            &&& at(s, pos, utail(u, nlen as nat))
        },
{
    reveal(dec_scalar_u);
    if let Ok(((u, buf), p)) = dec_scalar_u(s, pos, h4, nlen) {
        let len = (h4.code() + 1) as usize;
        let b = s.subrange(pos, pos + len);
        lemma_dec_span_sound(s, pos, len);
        let x = buf.subrange(8 - nlen, 8);
        lemma_be_value_bound(x);
        lemma_be_bytes_of_value(x);
        lemma_ubuf(u, nlen as nat);
        assert(ubuf(u, nlen as nat) =~= buf);
        assert(buf.subrange(8 - len, 8) =~= b);
        lemma_numeric_h4_of_code(h4);
    }
}

/// An integer whose shortest bytes stand in the input decodes under the
/// family of their count.
pub proof fn lemma_dec_scalar_u_complete(s: Seq<u8>, pos: int, u: nat, nlen: usize)
    requires
        1 <= nlen <= 8,
        u < pow256(nlen as nat),
        at(s, pos, utail(u, nlen as nat)),
        s.len() <= usize::MAX,
    ensures
        dec_scalar_u(s, pos, numeric_h4(ulen_of(ubuf(u, nlen as nat))), nlen) == Ok::<
            ((nat, Seq<u8>), int),
            (Error, int),
        >(((u, ubuf(u, nlen as nat)), pos + ulen_of(ubuf(u, nlen as nat)))),
{
    reveal(dec_scalar_u);
    let buf = ubuf(u, nlen as nat);
    let len = ulen_of(buf);
    lemma_ubuf(u, nlen as nat);
    lemma_numeric_h4(len);
    let b = utail(u, nlen as nat);
    lemma_dec_span_complete(s, pos, b);
    assert(zeros(8 - len) + b =~= buf);
    lemma_be_value_of_bytes(u, nlen as nat);
}

/// A bit pattern that decodes was written in the fewest bytes, and they
/// are what was read.
pub proof fn lemma_dec_scalar_f_sound(s: Seq<u8>, pos: int, h4: H4, nlen: usize)
    requires
        0 <= pos,
        1 <= nlen <= 8,
    ensures
        dec_scalar_f(s, pos, h4, nlen) matches Ok((f, p)) ==> {
            &&& h4.numeric()
            &&& f < pow256(nlen as nat)
            &&& h4 == numeric_h4(flen_of(fbuf(f, nlen as nat)))
            &&& p == pos + flen_of(fbuf(f, nlen as nat))
            &&& at(s, pos, ftail(f, nlen as nat))
        },
{
    reveal(dec_scalar_f);
    if let Ok((f, p)) = dec_scalar_f(s, pos, h4, nlen) {
        let len = (h4.code() + 1) as usize;
        let b = s.subrange(pos, pos + len);
        lemma_dec_span_sound(s, pos, len);
        let buf = b + zeros(8 - len);
        let x = buf.subrange(0, nlen as int);
        lemma_be_value_bound(x);
        lemma_be_bytes_of_value(x);
        lemma_fbuf(f, nlen as nat);
        assert(fbuf(f, nlen as nat) =~= buf);
        assert(buf.subrange(0, len as int) =~= b);
        lemma_numeric_h4_of_code(h4);
    }
}

/// A bit pattern whose shortest bytes stand in the input decodes under the
/// family of their count.
pub proof fn lemma_dec_scalar_f_complete(s: Seq<u8>, pos: int, f: nat, nlen: usize)
    requires
        1 <= nlen <= 8,
        f < pow256(nlen as nat),
        at(s, pos, ftail(f, nlen as nat)),
        s.len() <= usize::MAX,
    ensures
        dec_scalar_f(s, pos, numeric_h4(flen_of(fbuf(f, nlen as nat))), nlen) == Ok::<
            (nat, int),
            (Error, int),
        >((f, pos + flen_of(fbuf(f, nlen as nat)))),
{
    reveal(dec_scalar_f);
    let buf = fbuf(f, nlen as nat);
    let len = flen_of(buf);
    lemma_fbuf(f, nlen as nat);
    lemma_numeric_h4(len);
    let b = ftail(f, nlen as nat);
    lemma_dec_span_complete(s, pos, b);
    assert(b + zeros(8 - len) =~= buf);
    lemma_be_value_of_bytes(f, nlen as nat);
}

/// A signed integer that decodes has a magnitude that was written in the
/// fewest bytes, within the type, and not a negative zero.
pub proof fn lemma_dec_signed_sound(
    s: Seq<u8>,
    pos: int,
    h4: H4,
    nlen: usize,
    negative: bool,
    max: int,
)
    requires
        0 <= pos,
        1 <= nlen <= 8,
        0 <= max < pow256(nlen as nat),
    ensures
        dec_signed(s, pos, h4, nlen, negative, max) matches Ok((i, p)) ==> {
            &&& -max <= i <= max
            &&& negative <==> i < 0
            &&& h4.numeric()
            &&& h4 == numeric_h4(ulen_of(ubuf(magnitude(i), nlen as nat)))
            &&& p == pos + ulen_of(ubuf(magnitude(i), nlen as nat))
            &&& at(s, pos, utail(magnitude(i), nlen as nat))
        },
{
    reveal(dec_signed);
    lemma_dec_scalar_u_sound(s, pos, h4, nlen);
}

/// A signed integer whose magnitude's shortest bytes stand in the input
/// decodes under its sign.
pub proof fn lemma_dec_signed_complete(s: Seq<u8>, pos: int, i: int, nlen: usize, max: int)
    requires
        1 <= nlen <= 8,
        0 <= max < pow256(nlen as nat),
        -max <= i <= max,
        at(s, pos, utail(magnitude(i), nlen as nat)),
        s.len() <= usize::MAX,
    ensures
        dec_signed(
            s,
            pos,
            numeric_h4(ulen_of(ubuf(magnitude(i), nlen as nat))),
            nlen,
            i < 0,
            max,
        ) == Ok::<(int, int), (Error, int)>(
            (i, pos + ulen_of(ubuf(magnitude(i), nlen as nat))),
        ),
{
    reveal(dec_signed);
    lemma_dec_scalar_u_complete(s, pos, magnitude(i), nlen);
}

/// The signed byte and its bits determine each other.
pub proof fn lemma_i8_bits(i: i8, b: nat)
    ensures
        i8_bits(i) < 256,
        i8_of_bits(i8_bits(i)) == i,
        b < 256 ==> i8_bits(i8_of_bits(b)) == b,
{
}

} // verus!
