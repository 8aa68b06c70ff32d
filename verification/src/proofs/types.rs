//! Types: decoding and encoding agree.

use vstd::prelude::*;
use crate::error::Error;
use crate::grammar::{dec_byte, dec_type, dec_types, remaining};
use crate::header::Tag;
use crate::proofs::parts::{lemma_dec_typeid_complete, lemma_dec_typeid_sound};
use crate::proofs::seqs::{at, lemma_at_concat, lemma_at_empty, lemma_at_one};
use crate::value::TypeView;
use crate::wire::{enc_type, enc_typeid, enc_types};

verus! {

/// What follows the tag byte in the encoding of a type.
pub open spec fn type_tail(t: TypeView) -> Seq<u8> {
    match t {
        TypeView::Option(t) => enc_type(*t),
        TypeView::List(t) => enc_type(*t),
        TypeView::Dict(tk, tv) => enc_type(*tk) + enc_type(*tv),
        TypeView::Tuple(ts) => seq![ts.len() as u8] + enc_types(ts),
        TypeView::Alias(id) => enc_typeid(id),
        TypeView::CEnum(id) => enc_typeid(id),
        TypeView::Enum(id) => enc_typeid(id),
        TypeView::Struct(id) => enc_typeid(id),
        _ => Seq::empty(),
    }
}

/// A type stands in the input exactly if its tag byte does and its tail
/// stands after it.
pub proof fn lemma_at_enc_type(s: Seq<u8>, pos: int, t: TypeView)
    ensures
        at(s, pos, enc_type(t)) <==> 0 <= pos < s.len() && s[pos] == t.tag().code() && at(
            s,
            pos + 1,
            type_tail(t),
        ),
{
    lemma_at_concat(s, pos, seq![t.tag().code()], type_tail(t));
    lemma_at_one(s, pos, t.tag().code());
}

/// A type that decodes is well formed, and its encoding is what was read.
pub proof fn lemma_dec_type_sound(s: Seq<u8>, pos: int)
    ensures
        dec_type(s, pos) matches Ok((t, p)) ==> t.wf() && pos < p && p == pos + enc_type(t).len()
            && at(s, pos, enc_type(t)),
    decreases remaining(s, pos), 0nat,
{
    if let Ok((t, p)) = dec_type(s, pos) {
        let b = s[pos];
        let p1 = pos + 1;
        let tag = Tag::of_code(b)->Some_0;
        lemma_at_enc_type(s, pos, t);
        match tag {
            Tag::Option => {
                lemma_dec_type_sound(s, p1);
            },
            Tag::List => {
                lemma_dec_type_sound(s, p1);
            },
            Tag::Dict => {
                lemma_dec_type_sound(s, p1);
                let (tk, p2) = dec_type(s, p1)->Ok_0;
                lemma_dec_type_sound(s, p2);
                let tv = dec_type(s, p2)->Ok_0.0;
                lemma_at_concat(s, p1, enc_type(tk), enc_type(tv));
            },
            Tag::Tuple => {
                let (n, p2) = dec_byte(s, p1)->Ok_0;
                lemma_dec_types_sound(s, p2, n as nat);
                let ts = dec_types(s, p2, n as nat)->Ok_0.0;
                lemma_at_one(s, p1, n);
                lemma_at_concat(s, p1, seq![n], enc_types(ts));
            },
            Tag::Alias => {
                lemma_dec_typeid_sound(s, p1);
            },
            Tag::CEnum => {
                lemma_dec_typeid_sound(s, p1);
            },
            Tag::Enum => {
                lemma_dec_typeid_sound(s, p1);
            },
            Tag::Struct => {
                lemma_dec_typeid_sound(s, p1);
            },
            _ => {
                lemma_at_empty(s, p1);
            },
        }
    }
}

/// Types that decode one after another are well formed, and their
/// encodings one after another are what was read.
pub proof fn lemma_dec_types_sound(s: Seq<u8>, pos: int, n: nat)
    requires
        0 <= pos <= s.len(),
    ensures
        dec_types(s, pos, n) matches Ok((ts, p)) ==> {
            &&& ts.len() == n
            &&& forall|i: int| 0 <= i < ts.len() ==> (#[trigger] ts[i]).wf()
            &&& p == pos + enc_types(ts).len()
            &&& at(s, pos, enc_types(ts))
        },
    decreases remaining(s, pos), n + 1,
{
    if let Ok((ts, p)) = dec_types(s, pos, n) {
        if n == 0 {
            lemma_at_empty(s, pos);
        } else {
            lemma_dec_type_sound(s, pos);
            let (t, p1) = dec_type(s, pos)->Ok_0;
            lemma_dec_types_sound(s, p1, (n - 1) as nat);
            let rest = dec_types(s, p1, (n - 1) as nat)->Ok_0.0;
            assert(ts.drop_first() =~= rest);
            lemma_at_concat(s, pos, enc_type(t), enc_types(rest));
        }
    }
}

/// A well-formed type whose encoding stands in the input decodes.
pub proof fn lemma_dec_type_complete(s: Seq<u8>, pos: int, t: TypeView)
    requires
        t.wf(),
        at(s, pos, enc_type(t)),
        s.len() <= usize::MAX,
    ensures
        dec_type(s, pos) == Ok::<(TypeView, int), (Error, int)>((t, pos + enc_type(t).len())),
    decreases t,
{
    lemma_at_enc_type(s, pos, t);
    t.tag().lemma_code_of_code();
    let p1 = pos + 1;
    match t {
        TypeView::Option(inner) => {
            lemma_dec_type_complete(s, p1, *inner);
        },
        TypeView::List(inner) => {
            lemma_dec_type_complete(s, p1, *inner);
        },
        TypeView::Dict(tk, tv) => {
            lemma_at_concat(s, p1, enc_type(*tk), enc_type(*tv));
            lemma_dec_type_complete(s, p1, *tk);
            lemma_dec_type_complete(s, p1 + enc_type(*tk).len(), *tv);
        },
        TypeView::Tuple(ts) => {
            lemma_at_concat(s, p1, seq![ts.len() as u8], enc_types(ts));
            lemma_at_one(s, p1, ts.len() as u8);
            lemma_dec_types_complete(s, p1 + 1, ts);
        },
        TypeView::Alias(id) => {
            lemma_dec_typeid_complete(s, p1, id);
        },
        TypeView::CEnum(id) => {
            lemma_dec_typeid_complete(s, p1, id);
        },
        TypeView::Enum(id) => {
            lemma_dec_typeid_complete(s, p1, id);
        },
        TypeView::Struct(id) => {
            lemma_dec_typeid_complete(s, p1, id);
        },
        _ => {},
    }
}

/// Well-formed types whose encodings stand one after another in the input
/// decode one after another.
pub proof fn lemma_dec_types_complete(s: Seq<u8>, pos: int, ts: Seq<TypeView>)
    requires
        forall|i: int| 0 <= i < ts.len() ==> (#[trigger] ts[i]).wf(),
        at(s, pos, enc_types(ts)),
        s.len() <= usize::MAX,
    ensures
        dec_types(s, pos, ts.len()) == Ok::<(Seq<TypeView>, int), (Error, int)>(
            (ts, pos + enc_types(ts).len()),
        ),
    decreases ts,
{
    if ts.len() == 0 {
        assert(ts =~= Seq::<TypeView>::empty());
    } else {
        let t = ts.first();
        let rest = ts.drop_first();
        lemma_at_concat(s, pos, enc_type(t), enc_types(rest));
        lemma_dec_type_complete(s, pos, t);
        lemma_dec_types_complete(s, pos + enc_type(t).len(), rest);
        assert(seq![t] + rest =~= ts);
    }
}

} // verus!
