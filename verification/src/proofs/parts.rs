//! Identifiers, quantities and scalars: decoding and encoding agree.

use vstd::prelude::*;
use crate::bigend::{
    be_bytes, lemma_be_bytes_len, lemma_be_bytes_of_value, lemma_be_value_bound,
    lemma_be_value_of_bytes, lemma_pow256_values, pow256,
};
use crate::error::Error;
use crate::grammar::{dec_extvar, dec_size, dec_span, dec_typeid, dec_uint};
use crate::header::{EXT16, EXT32, EXT64, EXT8, L4};
use crate::proofs::seqs::{at, lemma_at_concat, lemma_at_empty, lemma_at_one};
use crate::typeid::{SCHEMA_ANONYMOUS, SCHEMA_HASH, TypeIdView};
use crate::value::SIZE_MAX;
use crate::wire::{enc_typeid, extvar_l4, extvar_tail};

verus! {

/// A run that decodes is a run that stands in the input.
pub proof fn lemma_dec_span_sound(s: Seq<u8>, pos: int, size: usize)
    requires
        0 <= pos,
    ensures
        dec_span(s, pos, size) matches Ok((b, p)) ==> p == pos + size && b.len() == size && at(
            s,
            pos,
            b,
        ),
{
}

/// A run that stands in the input decodes.
pub proof fn lemma_dec_span_complete(s: Seq<u8>, pos: int, b: Seq<u8>)
    requires
        at(s, pos, b),
        s.len() <= usize::MAX,
    ensures
        dec_span(s, pos, b.len() as usize) == Ok::<(Seq<u8>, int), (Error, int)>(
            (b, pos + b.len()),
        ),
{
}

/// A number that decodes is a number whose bytes stand in the input.
pub proof fn lemma_dec_uint_sound(s: Seq<u8>, pos: int, size: usize)
    requires
        0 <= pos,
    ensures
        dec_uint(s, pos, size) matches Ok((n, p)) ==> p == pos + size && n < pow256(size as nat)
            && at(s, pos, be_bytes(n, size as nat)),
{
    if let Ok((b, p)) = dec_span(s, pos, size) {
        lemma_be_value_bound(b);
        lemma_be_bytes_of_value(b);
    }
}

/// A number whose bytes stand in the input decodes.
pub proof fn lemma_dec_uint_complete(s: Seq<u8>, pos: int, n: nat, size: usize)
    requires
        n < pow256(size as nat),
        at(s, pos, be_bytes(n, size as nat)),
        s.len() <= usize::MAX,
    ensures
        dec_uint(s, pos, size) == Ok::<(nat, int), (Error, int)>((n, pos + size)),
{
    lemma_be_bytes_len(n, size as nat);
    lemma_be_value_of_bytes(n, size as nat);
}

/// An identifier that decodes is well formed, and its encoding is what was
/// read.
pub proof fn lemma_dec_typeid_sound(s: Seq<u8>, pos: int)
    ensures
        dec_typeid(s, pos) matches Ok((id, p)) ==> id.wf() && pos < p && p == pos + enc_typeid(
            id,
        ).len() && at(s, pos, enc_typeid(id)),
{
    reveal(dec_typeid);
    reveal(enc_typeid);
    if let Ok((id, p)) = dec_typeid(s, pos) {
        let h8 = s[pos];
        lemma_at_one(s, pos, h8);
        if h8 == SCHEMA_HASH {
            lemma_at_concat(s, pos, seq![h8], id->hash);
        } else if h8 == SCHEMA_ANONYMOUS {
        } else {
            lemma_dec_uint_sound(s, pos + 1, 2);
            lemma_pow256_values();
            let n = dec_uint(s, pos + 1, 2)->Ok_0.0;
            lemma_be_bytes_len(n, 2);
            lemma_at_concat(s, pos, seq![h8], be_bytes(n, 2));
        }
    }
}

/// A well-formed identifier whose encoding stands in the input decodes.
pub proof fn lemma_dec_typeid_complete(s: Seq<u8>, pos: int, id: TypeIdView)
    requires
        id.wf(),
        at(s, pos, enc_typeid(id)),
        s.len() <= usize::MAX,
    ensures
        dec_typeid(s, pos) == Ok::<(TypeIdView, int), (Error, int)>(
            (id, pos + enc_typeid(id).len()),
        ),
{
    reveal(dec_typeid);
    reveal(enc_typeid);
    match id {
        TypeIdView::Anonymous => {
            lemma_at_one(s, pos, SCHEMA_ANONYMOUS);
        },
        TypeIdView::Std { schema, id: n } => {
            lemma_at_concat(s, pos, seq![schema], be_bytes(n as nat, 2));
            lemma_at_one(s, pos, schema);
            lemma_pow256_values();
            lemma_dec_uint_complete(s, pos + 1, n as nat, 2);
            lemma_be_bytes_len(n as nat, 2);
        },
        TypeIdView::Hash { hash } => {
            lemma_at_concat(s, pos, seq![SCHEMA_HASH], hash);
            lemma_at_one(s, pos, SCHEMA_HASH);
        },
    }
}

/// A quantity that decodes was written in the fewest bytes: its low nibble
/// is the one the encoder chooses, and the bytes read are its tail.
pub proof fn lemma_dec_extvar_sound(s: Seq<u8>, pos: int, l4: L4)
    requires
        0 <= pos <= s.len(),
    ensures
        dec_extvar(s, pos, l4) matches Ok((u, p)) ==> extvar_l4(u) == l4 && p == pos + extvar_tail(
            u,
        ).len() && at(s, pos, extvar_tail(u)),
{
    reveal(dec_extvar);
    lemma_pow256_values();
    if let Ok((u, p)) = dec_extvar(s, pos, l4) {
        if l4 == EXT8 {
            lemma_at_one(s, pos, s[pos]);
            reveal_with_fuel(be_bytes, 2);
        } else if l4 == EXT16 {
            lemma_dec_uint_sound(s, pos, 2);
            lemma_be_bytes_len(u as nat, 2);
        } else if l4 == EXT32 {
            lemma_dec_uint_sound(s, pos, 4);
            lemma_be_bytes_len(u as nat, 4);
        } else if l4 == EXT64 {
            lemma_dec_uint_sound(s, pos, 8);
            lemma_be_bytes_len(u as nat, 8);
        } else {
            lemma_at_empty(s, pos);
        }
    }
}

/// A quantity whose tail stands in the input decodes under the low nibble
/// that the encoder chooses.
pub proof fn lemma_dec_extvar_complete(s: Seq<u8>, pos: int, u: u64)
    requires
        at(s, pos, extvar_tail(u)),
        s.len() <= usize::MAX,
    ensures
        dec_extvar(s, pos, extvar_l4(u)) == Ok::<(u64, int), (Error, int)>(
            (u, pos + extvar_tail(u).len()),
        ),
{
    reveal(dec_extvar);
    lemma_pow256_values();
    if 12 <= u <= 0xff {
        reveal_with_fuel(be_bytes, 2);
        lemma_at_one(s, pos, u as u8);
    } else if 0xff < u <= 0xffff {
        lemma_dec_uint_complete(s, pos, u as nat, 2);
        lemma_be_bytes_len(u as nat, 2);
    } else if 0xffff < u <= 0xffff_ffff {
        lemma_dec_uint_complete(s, pos, u as nat, 4);
        lemma_be_bytes_len(u as nat, 4);
    } else if 0xffff_ffff < u {
        lemma_dec_uint_complete(s, pos, u as nat, 8);
        lemma_be_bytes_len(u as nat, 8);
    }
}

/// A length that decodes is a quantity within `SIZE_MAX` that decodes.
pub proof fn lemma_dec_size_sound(s: Seq<u8>, pos: int, l4: L4)
    requires
        0 <= pos <= s.len(),
    ensures
        dec_size(s, pos, l4) matches Ok((sz, p)) ==> sz <= SIZE_MAX && extvar_l4(sz as u64) == l4
            && p == pos + extvar_tail(sz as u64).len() && at(s, pos, extvar_tail(sz as u64)),
{
    reveal(dec_size);
    lemma_dec_extvar_sound(s, pos, l4);
}

/// A length within `SIZE_MAX` whose tail stands in the input decodes.
pub proof fn lemma_dec_size_complete(s: Seq<u8>, pos: int, sz: usize)
    requires
        sz <= SIZE_MAX,
        at(s, pos, extvar_tail(sz as u64)),
        s.len() <= usize::MAX,
    ensures
        dec_size(s, pos, extvar_l4(sz as u64)) == Ok::<(usize, int), (Error, int)>(
            (sz, pos + extvar_tail(sz as u64).len()),
        ),
{
    reveal(dec_size);
    lemma_dec_extvar_complete(s, pos, sz as u64);
}

} // verus!
