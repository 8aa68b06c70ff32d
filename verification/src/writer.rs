//! The encoder: one pass over the value, writing the shortest encoding of
//! every part.

use vstd::prelude::*;
use vstd::slice::slice_subrange;
use crate::bigend::{
    be_bytes, lemma_be_bytes_len, lemma_be_bytes_pad, lemma_pow256_values, pow256, u16_to_bytes,
    u32_to_bytes, u64_to_bytes,
};
use crate::casting::{
    bytevar_flen, bytevar_frange, bytevar_ulen, bytevar_urange, from_h4l4, header_byte,
};
use crate::error::Error;
use crate::grammar::decode;
use crate::header::{Ext1, EXT16, EXT32, EXT64, EXT8, H4, L4};
use crate::laws::law_roundtrip;
use crate::storage::marker::ByteStorage;
use crate::storage::output::Output;
use crate::typeid::TypeId;
use crate::value::{Type, Value, ValueView};
use crate::wire::{
    enc_entries, enc_ext1, enc_extvar, enc_scalar_f, enc_scalar_u, enc_type, enc_typeid, enc_types,
    enc_value, enc_values, lemma_enc_entries_push, lemma_enc_types_push, lemma_enc_values_push,
    magnitude,
};

verus! {

/// A sink with the operations of the encoder on it.
pub struct Writer<O: Output> {
    output: O,
}

impl<O: Output> Writer<O> {
    /// Everything written so far.
    pub closed spec fn written(&self) -> Seq<u8> {
        self.output.written()
    }

    /// A writer onto a fresh sink.
    pub fn new() -> (r: Writer<O>)
        ensures
            r.written() == Seq::<u8>::empty(),
    {
        Writer { output: O::new() }
    }

    /// Ends writing and hands out what was written.
    pub fn into_inner(self) -> (r: O::Storage)
        ensures
            r.content() == self.written(),
            r.content().len() <= usize::MAX,
    {
        self.output.leak()
    }

    /// Writes a run of bytes.
    pub fn bytes(&mut self, bytes: &[u8])
        ensures
            final(self).written() == old(self).written() + bytes@,
    {
        self.output.bytes(bytes);
    }

    /// Writes one byte.
    pub fn u8(&mut self, n: u8)
        ensures
            final(self).written() == old(self).written() + seq![n],
    {
        self.output.byte(n);
    }

    /// Writes a `u16`, most significant byte first.
    pub fn u16(&mut self, n: u16)
        ensures
            final(self).written() == old(self).written() + be_bytes(n as nat, 2),
    {
        let b = u16_to_bytes(n);
        self.bytes(b.as_slice());
    }

    /// Writes a `u32`, most significant byte first.
    pub fn u32(&mut self, n: u32)
        ensures
            final(self).written() == old(self).written() + be_bytes(n as nat, 4),
    {
        let b = u32_to_bytes(n);
        self.bytes(b.as_slice());
    }

    /// Writes a `u64`, most significant byte first.
    pub fn u64(&mut self, n: u64)
        ensures
            final(self).written() == old(self).written() + be_bytes(n as nat, 8),
    {
        let b = u64_to_bytes(n);
        self.bytes(b.as_slice());
    }

    /// Writes a type identifier.
    pub fn typeid(&mut self, id: &TypeId)
        ensures
            final(self).written() == old(self).written() + enc_typeid(id@),
    {
        reveal(enc_typeid);
        proof {
            id.lemma_view();
        }
        self.u8(id.as_h8());
        match id {
            TypeId::Std(std_id) => {
                self.u16(std_id.id());
            },
            TypeId::Hash(hash_id) => {
                let hash = hash_id.hash();
                self.bytes(hash.as_slice());
            },
            TypeId::Anonymous => {},
        }
    }

    /// Writes a type.
    pub fn ty(&mut self, t: &Type)
        requires
            t@.wf(),
        ensures
            final(self).written() == old(self).written() + enc_type(t@),
        decreases t,
    {
        self.u8(t.as_tag().to_u8());
        match t {
            Type::Option(inner) => {
                self.ty(inner);
            },
            Type::List(inner) => {
                self.ty(inner);
            },
            Type::Dict(tk, tv) => {
                self.ty(tk);
                self.ty(tv);
            },
            Type::Tuple(s) => {
                let n = s.len();
                self.u8(n as u8);
                let ghost views = Type::views(s@);
                let ghost start = self.written();
                let mut i: usize = 0;
                while i < n
                    invariant
                        i <= n,
                        n == s.len(),
                        t is Tuple,
                        t->Tuple_0 == *s,
                        views == Type::views(s@),
                        forall|j: int| 0 <= j < n ==> (#[trigger] views[j]).wf(),
                        self.written() == start + enc_types(views.take(i as int)),
                    decreases n - i,
                {
                    proof {
                        lemma_enc_types_push(views.take(i as int), views[i as int]);
                        assert(views.take(i as int).push(views[i as int]) =~= views.take(i + 1));
                    }
                    self.ty(&s[i]);
                    i += 1;
                }
                assert(views.take(n as int) =~= views);
            },
            Type::Alias(r) => {
                self.typeid(r);
            },
            Type::CEnum(r) => {
                self.typeid(r);
            },
            Type::Enum(r) => {
                self.typeid(r);
            },
            Type::Struct(r) => {
                self.typeid(r);
            },
            _ => {},
        }
    }

    /// Writes a header byte.
    pub fn header(&mut self, h4: H4, l4: L4)
        ensures
            final(self).written() == old(self).written() + seq![header_byte(h4, l4)],
    {
        self.u8(from_h4l4(h4, l4));
    }

    /// Writes the header of a symbol.
    pub fn ext1(&mut self, ext1: Ext1)
        ensures
            final(self).written() == old(self).written() + enc_ext1(ext1),
    {
        self.header(H4::from_ext1(ext1), L4::EXT1);
    }

    /// Writes a header of family `h4` that carries the quantity `u`, in
    /// the fewest bytes.
    pub fn extvar(&mut self, h4: H4, u: u64)
        ensures
            final(self).written() == old(self).written() + enc_extvar(h4, u),
    {
        reveal(enc_extvar);
        if u < 12 {
            let l4 = match L4::from_u8(u as u8) {
                Some(l4) => l4,
                None => vstd::pervasive::unreached(),
            };
            self.header(h4, l4);
        } else if u <= 0xff {
            self.header(h4, EXT8);
            self.u8(u as u8);
            proof {
                reveal_with_fuel(be_bytes, 2);
            }
        } else if u <= 0xffff {
            self.header(h4, EXT16);
            self.u16(u as u16);
        } else if u <= 0xffff_ffff {
            self.header(h4, EXT32);
            self.u32(u as u32);
        } else {
            self.header(h4, EXT64);
            self.u64(u);
        }
    }

    /// Writes a header of family `h4` that carries the length `sz`.
    pub fn extszvar(&mut self, h4: H4, sz: usize)
        ensures
            final(self).written() == old(self).written() + enc_extvar(h4, sz as u64),
    {
        self.extvar(h4, sz as u64)
    }

    /// Writes the integer `u` of `nlen` bytes under the kind `l4`: a header
    /// of the family that says how many bytes matter, then those bytes.
    pub fn bytevar_u(&mut self, l4: L4, u: u64, nlen: usize)
        requires
            1 <= nlen <= 8,
            u < pow256(nlen as nat),
        ensures
            final(self).written() == old(self).written() + enc_scalar_u(l4, u as nat, nlen as nat),
    {
        reveal(enc_scalar_u);
        let buf = u64_to_bytes(u);
        proof {
            lemma_be_bytes_pad(u as nat, nlen as nat, 8);
        }
        let len = bytevar_ulen(&buf);
        let h4 = match H4::from_bytevar_len(len) {
            Ok(h4) => h4,
            Err(_) => vstd::pervasive::unreached(),
        };
        self.header(h4, l4);
        let range = bytevar_urange(len);
        self.bytes(slice_subrange(buf.as_slice(), range.start, range.end));
    }

    /// Writes the bit pattern `bits` of `nlen` bytes under the kind `l4`: a
    /// header of the family that says how many leading bytes matter, then
    /// those bytes.
    pub fn bytevar_f(&mut self, l4: L4, bits: u64, nlen: usize)
        requires
            1 <= nlen <= 8,
            bits < pow256(nlen as nat),
        ensures
            final(self).written() == old(self).written() + enc_scalar_f(
                l4,
                bits as nat,
                nlen as nat,
            ),
    {
        reveal(enc_scalar_f);
        let full = u64_to_bytes(bits);
        proof {
            lemma_be_bytes_pad(bits as nat, nlen as nat, 8);
            lemma_be_bytes_len(bits as nat, nlen as nat);
        }
        let mut buf = [0u8;8];
        let mut i: usize = 0;
        while i < nlen
            invariant
                i <= nlen <= 8,
                forall|j: int| 0 <= j < i ==> buf@[j] == full@[8 - nlen + j],
                forall|j: int| i <= j < 8 ==> buf@[j] == 0,
            decreases nlen - i,
        {
            buf[i] = full[8 - nlen + i];
            i += 1;
        }
        let len = bytevar_flen(&buf);
        let h4 = match H4::from_bytevar_len(len) {
            Ok(h4) => h4,
            Err(_) => vstd::pervasive::unreached(),
        };
        self.header(h4, l4);
        let range = bytevar_frange(len);
        self.bytes(slice_subrange(buf.as_slice(), range.start, range.end));
        assert(self.written() =~= old(self).written() + enc_scalar_f(
            l4,
            bits as nat,
            nlen as nat,
        ));
    }
}

impl<O: Output> Writer<O> {
    /// Writes a signed integer of `nlen` bytes: the sign goes into the kind
    /// (`positive` or `negative`), the magnitude into the bytes.
    pub fn bytevar_i(&mut self, positive: L4, negative: L4, i: i64, nlen: usize)
        requires
            1 <= nlen <= 8,
            magnitude(i as int) < pow256(nlen as nat),
        ensures
            final(self).written() == old(self).written() + enc_scalar_u(
                if i >= 0 {
                    positive
                } else {
                    negative
                },
                magnitude(i as int),
                nlen as nat,
            ),
    {
        if i >= 0 {
            self.bytevar_u(positive, i as u64, nlen);
        } else if i == i64::MIN {
            self.bytevar_u(negative, 0x8000_0000_0000_0000, nlen);
        } else {
            self.bytevar_u(negative, (-i) as u64, nlen);
        }
    }

    /// Writes values one after another.
    pub fn val_seq<B: ByteStorage>(&mut self, s: &Vec<Value<B>>)
        requires
            forall|j: int| 0 <= j < s@.len() ==> (#[trigger] s@[j])@.wf(),
        ensures
            final(self).written() == old(self).written() + enc_values(Value::views(s@)),
        decreases s,
    {
        let ghost views = Value::views(s@);
        let ghost start = self.written();
        let n = s.len();
        let mut i: usize = 0;
        while i < n
            invariant
                i <= n,
                n == s.len(),
                views == Value::views(s@),
                forall|j: int| 0 <= j < s@.len() ==> (#[trigger] s@[j])@.wf(),
                self.written() == start + enc_values(views.take(i as int)),
            decreases n - i,
        {
            proof {
                lemma_enc_values_push(views.take(i as int), views[i as int]);
                assert(views.take(i as int).push(views[i as int]) =~= views.take(i + 1));
            }
            self.val(&s[i]);
            i += 1;
        }
        assert(views.take(n as int) =~= views);
    }

    /// Writes entries one after another, each a key and then its value.
    pub fn val_seq_map<B: ByteStorage>(&mut self, s: &Vec<(Value<B>, Value<B>)>)
        requires
            forall|j: int| 0 <= j < s@.len() ==> (#[trigger] s@[j]).0@.wf() && s@[j].1@.wf(),
        ensures
            final(self).written() == old(self).written() + enc_entries(Value::entry_views(s@)),
        decreases s,
    {
        let ghost views = Value::entry_views(s@);
        let ghost start = self.written();
        let n = s.len();
        let mut i: usize = 0;
        while i < n
            invariant
                i <= n,
                n == s.len(),
                views == Value::entry_views(s@),
                forall|j: int| 0 <= j < s@.len() ==> (#[trigger] s@[j]).0@.wf() && s@[j].1@.wf(),
                self.written() == start + enc_entries(views.take(i as int)),
            decreases n - i,
        {
            proof {
                lemma_enc_entries_push(views.take(i as int), views[i as int]);
                assert(views.take(i as int).push(views[i as int]) =~= views.take(i + 1));
            }
            let entry = &s[i];
            self.val(&entry.0);
            self.val(&entry.1);
            i += 1;
        }
        assert(views.take(n as int) =~= views);
    }

    /// Writes one value.
    pub fn val<B: ByteStorage>(&mut self, val: &Value<B>)
        requires
            val@.wf(),
        ensures
            final(self).written() == old(self).written() + enc_value(val@),
        decreases val,
    {
        match val {
            Value::Unit => {
                self.ext1(Ext1::Unit);
            },
            Value::Bool(b) => {
                if *b {
                    self.ext1(Ext1::True)
                } else {
                    self.ext1(Ext1::False);
                }
            },
            Value::String(b) => {
                let bytes = b.as_bytes();
                self.extszvar(H4::String, bytes.len());
                self.bytes(bytes);
            },
            Value::Bytes(b) => {
                let bytes = b.as_slice();
                self.extszvar(H4::Bytes, bytes.len());
                self.bytes(bytes);
            },
            Value::Option(t, opt) => {
                match &**opt {
                    Some(v) => {
                        self.ext1(Ext1::OptSome);
                        self.ty(t);
                        self.val(v);
                    },
                    None => {
                        self.ext1(Ext1::OptNone);
                        self.ty(t);
                    },
                }
            },
            Value::List(t, s) => {
                assert forall|j: int| 0 <= j < s@.len() implies (#[trigger] s@[j])@.wf() by {
                    assert(Value::views(s@)[j] == s@[j]@);
                }
                self.extszvar(H4::List, s.len());
                self.ty(t);
                self.val_seq(s);
            },
            Value::Dict(tk, tv, s) => {
                assert forall|j: int| 0 <= j < s@.len() implies (#[trigger] s@[j]).0@.wf()
                    && s@[j].1@.wf() by {
                    assert(Value::entry_views(s@)[j] == (s@[j].0@, s@[j].1@));
                }
                self.extszvar(H4::Dict, s.len());
                self.ty(tk);
                self.ty(tv);
                self.val_seq_map(s);
            },
            Value::Tuple(s) => {
                assert forall|j: int| 0 <= j < s@.len() implies (#[trigger] s@[j])@.wf() by {
                    assert(Value::views(s@)[j] == s@[j]@);
                }
                self.extszvar(H4::Tuple, s.len());
                self.val_seq(s);
            },
            Value::Alias(r, v) => {
                self.ext1(Ext1::Alias);
                self.typeid(r);
                self.val(v);
            },
            Value::CEnum(r, ev) => {
                self.extvar(H4::CEnum, *ev);
                self.typeid(r);
            },
            Value::Enum(r, ev, v) => {
                self.extvar(H4::Enum, *ev);
                self.typeid(r);
                self.val(v);
            },
            Value::Struct(r, s) => {
                assert forall|j: int| 0 <= j < s@.len() implies (#[trigger] s@[j])@.wf() by {
                    assert(Value::views(s@)[j] == s@[j]@);
                }
                self.extszvar(H4::Struct, s.len());
                self.typeid(r);
                self.val_seq(s);
            },
            Value::Type(t) => {
                self.ext1(Ext1::Type);
                self.ty(t);
            },
            Value::TypeId(r) => {
                self.ext1(Ext1::TypeId);
                self.typeid(r);
            },
            scalar => {
                self.scalar(scalar);
            },
        }
    }

    /// Writes a value that is an integer or a float.
    pub fn scalar<B: ByteStorage>(&mut self, val: &Value<B>)
        requires
            val@.type_of().tag().code() >= 0x03,
            val@.type_of().tag().code() <= 0x0d,
        ensures
            final(self).written() == old(self).written() + enc_value(val@),
    {
        proof {
            lemma_pow256_values();
        }
        match val {
            Value::U8(u) => {
                self.bytevar_u(L4::U8, *u as u64, 1);
            },
            Value::U16(u) => {
                self.bytevar_u(L4::U16, *u as u64, 2);
            },
            Value::U32(u) => {
                self.bytevar_u(L4::U32, *u as u64, 4);
            },
            Value::U64(u) => {
                self.bytevar_u(L4::U64, *u, 8);
            },
            Value::I8(i) => {
                let bits: u8 = if *i >= 0 {
                    *i as u8
                } else {
                    (*i as i16 + 256) as u8
                };
                self.bytevar_u(L4::I8, bits as u64, 1);
            },
            Value::I16(i) => {
                self.bytevar_i(L4::P16, L4::N16, *i as i64, 2);
            },
            Value::I32(i) => {
                self.bytevar_i(L4::P32, L4::N32, *i as i64, 4);
            },
            Value::I64(i) => {
                self.bytevar_i(L4::P64, L4::N64, *i, 8);
            },
            Value::F16(f) => {
                self.bytevar_f(L4::F16, *f as u64, 2);
            },
            Value::F32(f) => {
                self.bytevar_f(L4::F32, *f as u64, 4);
            },
            Value::F64(f) => {
                self.bytevar_f(L4::F64, *f, 8);
            },
            _ => {},
        }
    }
}

impl<B: ByteStorage> Value<B> {
    /// Encodes the value: the one byte sequence that stands for it.
    ///
    /// Decoding the result gives the value back, unless a signed integer in
    /// it is the least of its type.
    pub fn encode<O: Output>(&self) -> (r: O::Storage)
        requires
            self.wf(),
        ensures
            r.content() == enc_value(self@),
            self@.has_magnitudes() ==> decode(r.content()) == Ok::<ValueView, Error>(self@),
    {
        let mut writer = Writer::<O>::new();
        writer.val(self);
        let r = writer.into_inner();
        proof {
            if self@.has_magnitudes() {
                law_roundtrip(self@);
            }
        }
        r
    }
}

} // verus!
