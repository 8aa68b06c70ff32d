//! The decoder: one pass over the input, forward only, with an answer for
//! every byte sequence.

use vstd::prelude::*;
use vstd::slice::slice_subrange;
use crate::bigend::{
    lemma_pow256_values, pow256, u16_from_bytes, u32_from_bytes, u64_from_bytes, uint_from_bytes,
};
use crate::casting::{bytevar_flen, bytevar_frange, bytevar_ulen, bytevar_urange, to_h4l4};
use crate::error::{Error, Fatal};
use crate::grammar::{
    dec_body, dec_byte, dec_bytes, dec_cenum, dec_dict, dec_entries, dec_enum, dec_extvar, dec_list,
    dec_scalar, dec_scalar_f, dec_scalar_u, dec_signed, dec_size, dec_span, dec_string, dec_struct,
    dec_symbol, dec_tuple, dec_type, dec_typeid, dec_types, dec_uint, dec_value, dec_values, decode,
    lemma_buf_array, Parsed, remaining, scalar_kind,
};
use crate::header::{Ext1, EXT16, EXT32, EXT64, EXT8, H4, L4, Tag};
use crate::laws::law_canonical;
use crate::storage::bytestr::ByteStr;
use crate::storage::input::{Input, Reader};
use crate::storage::marker::ByteStorage;
use crate::typeid::{HashId, SCHEMA_ANONYMOUS, SCHEMA_HASH, StdId, TypeId};
use crate::value::{SIZE_MAX, Type, Value, ValueView};
use crate::wire::{enc_value, extvar_l4, zeros};

verus! {

/// The outcome `parsed` with the items `done` put before what it decoded.
pub open spec fn after<T>(done: Seq<T>, parsed: Parsed<Seq<T>>) -> Parsed<Seq<T>> {
    match parsed {
        Ok((items, p)) => Ok((done + items, p)),
        Err(e) => Err(e),
    }
}

impl<I: Input> Reader<I> {
    /// Reads one byte.
    pub fn u8(&mut self) -> (r: Result<u8, Error>)
        ensures
            final(self).input() == old(self).input(),
            old(self).pos() <= final(self).pos(),
            match dec_byte(old(self).input(), old(self).pos()) {
                Ok((b, p)) => r == Ok::<u8, Error>(b) && final(self).pos() == p,
                Err((e, p)) => r == Err::<u8, Error>(e) && final(self).pos() == p,
            },
    {
        match self.read_byte() {
            Ok(b) => Ok(b),
            Err(e) => Err(Error::from_read(e)),
        }
    }

    /// Reads a big-endian `u16`.
    pub fn u16(&mut self) -> (r: Result<u16, Error>)
        ensures
            final(self).input() == old(self).input(),
            old(self).pos() <= final(self).pos(),
            match dec_uint(old(self).input(), old(self).pos(), 2) {
                Ok((n, p)) => r matches Ok(x) && x == n && final(self).pos() == p,
                Err((e, p)) => r == Err::<u16, Error>(e) && final(self).pos() == p,
            },
    {
        match self.bytes_sized::<2>() {
            Ok(a) => Ok(u16_from_bytes(a)),
            Err(e) => Err(Error::from_read(e)),
        }
    }

    /// Reads a big-endian `u32`.
    pub fn u32(&mut self) -> (r: Result<u32, Error>)
        ensures
            final(self).input() == old(self).input(),
            old(self).pos() <= final(self).pos(),
            match dec_uint(old(self).input(), old(self).pos(), 4) {
                Ok((n, p)) => r matches Ok(x) && x == n && final(self).pos() == p,
                Err((e, p)) => r == Err::<u32, Error>(e) && final(self).pos() == p,
            },
    {
        match self.bytes_sized::<4>() {
            Ok(a) => Ok(u32_from_bytes(a)),
            Err(e) => Err(Error::from_read(e)),
        }
    }

    /// Reads a big-endian `u64`.
    pub fn u64(&mut self) -> (r: Result<u64, Error>)
        ensures
            final(self).input() == old(self).input(),
            old(self).pos() <= final(self).pos(),
            match dec_uint(old(self).input(), old(self).pos(), 8) {
                Ok((n, p)) => r matches Ok(x) && x == n && final(self).pos() == p,
                Err((e, p)) => r == Err::<u64, Error>(e) && final(self).pos() == p,
            },
    {
        match self.bytes_sized::<8>() {
            Ok(a) => Ok(u64_from_bytes(a)),
            Err(e) => Err(Error::from_read(e)),
        }
    }

    /// Reads a type identifier.
    pub fn typeid(&mut self) -> (r: Result<TypeId, Error>)
        ensures
            final(self).input() == old(self).input(),
            old(self).pos() <= final(self).pos(),
            match dec_typeid(old(self).input(), old(self).pos()) {
                Ok((id, p)) => r matches Ok(x) && x@ == id && final(self).pos() == p,
                Err((e, p)) => r == Err::<TypeId, Error>(e) && final(self).pos() == p,
            },
    {
        reveal(dec_typeid);
        let h8 = self.u8()?;
        if h8 == SCHEMA_HASH {
            let hash = match self.bytes_sized::<7>() {
                Ok(a) => a,
                Err(e) => {
                    return Err(Error::from_read(e));
                },
            };
            let id = TypeId::Hash(HashId::from_hash(hash));
            proof {
                id.lemma_view();
            }
            Ok(id)
        } else if h8 == SCHEMA_ANONYMOUS {
            let id = TypeId::Anonymous;
            proof {
                id.lemma_view();
            }
            Ok(id)
        } else {
            let n = self.u16()?;
            let id = TypeId::Std(StdId::from_parts(h8, n));
            proof {
                id.lemma_view();
            }
            Ok(id)
        }
    }

    /// Reads a type.
    pub fn ty(&mut self) -> (r: Result<Type, Error>)
        ensures
            final(self).input() == old(self).input(),
            old(self).pos() <= final(self).pos(),
            match dec_type(old(self).input(), old(self).pos()) {
                Ok((t, p)) => r matches Ok(x) && x@ == t && final(self).pos() == p,
                Err((e, p)) => r == Err::<Type, Error>(e) && final(self).pos() == p,
            },
        decreases remaining(old(self).input(), old(self).pos()), 0nat,
    {
        let b = self.u8()?;
        let tag = match Tag::from_u8(b) {
            Some(tag) => tag,
            None => {
                return Err(Error::Tag(b));
            },
        };
        Ok(
            match tag {
                Tag::Unknown => Type::Unknown,
                Tag::Unit => Type::Unit,
                Tag::Bool => Type::Bool,
                Tag::U8 => Type::U8,
                Tag::U16 => Type::U16,
                Tag::U32 => Type::U32,
                Tag::U64 => Type::U64,
                Tag::I8 => Type::I8,
                Tag::I16 => Type::I16,
                Tag::I32 => Type::I32,
                Tag::I64 => Type::I64,
                Tag::F16 => Type::F16,
                Tag::F32 => Type::F32,
                Tag::F64 => Type::F64,
                Tag::String => Type::String,
                Tag::Bytes => Type::Bytes,
                Tag::Type => Type::Type,
                Tag::TypeId => Type::TypeId,
                Tag::Option => {
                    let t = self.ty()?;
                    Type::Option(Box::new(t))
                },
                Tag::List => {
                    let t = self.ty()?;
                    Type::List(Box::new(t))
                },
                Tag::Dict => {
                    let tk = self.ty()?;
                    let tv = self.ty()?;
                    Type::Dict(Box::new(tk), Box::new(tv))
                },
                Tag::Tuple => {
                    let size = self.u8()? as usize;
                    let s = self.ty_seq(size)?;
                    let t = Type::Tuple(s);
                    t
                },
                Tag::Alias => {
                    let r = self.typeid()?;
                    Type::Alias(r)
                },
                Tag::CEnum => {
                    let r = self.typeid()?;
                    Type::CEnum(r)
                },
                Tag::Enum => {
                    let r = self.typeid()?;
                    Type::Enum(r)
                },
                Tag::Struct => {
                    let r = self.typeid()?;
                    Type::Struct(r)
                },
            },
        )
    }

    /// Reads `size` types.
    pub fn ty_seq(&mut self, size: usize) -> (r: Result<Vec<Type>, Error>)
        ensures
            final(self).input() == old(self).input(),
            old(self).pos() <= final(self).pos(),
            match dec_types(old(self).input(), old(self).pos(), size as nat) {
                Ok((ts, p)) => r matches Ok(x) && Type::views(x@) == ts && final(self).pos() == p,
                Err((e, p)) => r == Err::<Vec<Type>, Error>(e) && final(self).pos() == p,
            },
        decreases remaining(old(self).input(), old(self).pos()), size + 1,
    {
        let ghost s = self.input();
        let ghost start = self.pos();
        let mut out: Vec<Type> = Vec::new();
        let mut i: usize = 0;
        while i < size
            invariant
                i <= size,
                out.len() == i,
                self.input() == s,
                s == old(self).input(),
                start == old(self).pos(),
                start <= self.pos(),
                remaining(s, self.pos()) <= remaining(s, start),
                dec_types(s, start, size as nat) == after(
                    Type::views(out@),
                    dec_types(s, self.pos(), (size - i) as nat),
                ),
            decreases size - i,
        {
            let ghost done = Type::views(out@);
            let t = match self.ty() {
                Ok(t) => t,
                Err(e) => {
                    return Err(e);
                },
            };
            out.push(t);
            i += 1;
            proof {
                let rest = dec_types(s, self.pos(), (size - i) as nat);
                assert(Type::views(out@) =~= done.push(t@));
                match rest {
                    Ok((ts, p)) => {
                        assert(done + (seq![t@] + ts) =~= done.push(t@) + ts);
                    },
                    Err(_) => {},
                }
            }
        }
        Ok(out)
    }

    /// Reads a quantity written under the low nibble `l4`.
    pub fn extvar(&mut self, l4: L4) -> (r: Result<u64, Error>)
        ensures
            final(self).input() == old(self).input(),
            old(self).pos() <= final(self).pos(),
            match dec_extvar(old(self).input(), old(self).pos(), l4) {
                Ok((u, p)) => r == Ok::<u64, Error>(u) && final(self).pos() == p,
                Err((e, p)) => r == Err::<u64, Error>(e) && final(self).pos() == p,
            },
            r matches Ok(u) ==> extvar_l4(u) == l4,
    {
        reveal(dec_extvar);
        let u: u64 = if l4 == EXT8 {
            self.u8()? as u64
        } else if l4 == EXT16 {
            self.u16()? as u64
        } else if l4 == EXT32 {
            self.u32()? as u64
        } else if l4 == EXT64 {
            self.u64()?
        } else {
            l4.to_u8() as u64
        };
        let expected_l4 = if u < 12 {
            match L4::from_u8(u as u8) {
                Some(l) => l,
                None => {
                    return Err(Error::Fatal(Fatal::L4(u as u8)));
                },
            }
        } else if u <= 0xff {
            EXT8
        } else if u <= 0xffff {
            EXT16
        } else if u <= 0xffff_ffff {
            EXT32
        } else {
            EXT64
        };
        if expected_l4 != l4 {
            Err(Error::ExtvarTooLong { l4, expected_l4, u })
        } else {
            Ok(u)
        }
    }

    /// Reads a length written under the low nibble `l4`.
    pub fn extszvar(&mut self, l4: L4) -> (r: Result<usize, Error>)
        ensures
            final(self).input() == old(self).input(),
            old(self).pos() <= final(self).pos(),
            match dec_size(old(self).input(), old(self).pos(), l4) {
                Ok((sz, p)) => r == Ok::<usize, Error>(sz) && final(self).pos() == p,
                Err((e, p)) => r == Err::<usize, Error>(e) && final(self).pos() == p,
            },
            r matches Ok(sz) ==> sz <= SIZE_MAX,
    {
        reveal(dec_size);
        let u = self.extvar(l4)?;
        if u > usize::MAX as u64 {
            return Err(Error::Fatal(Fatal::ToSize(u)));
        }
        let sz = u as usize;
        if sz <= SIZE_MAX {
            Ok(sz)
        } else {
            Err(Error::TooLongLen(sz))
        }
    }
}

impl<I: Input> Reader<I> {
    /// Reads `len` bytes into an eight-byte buffer of zeros, from `start` on.
    fn buf_at(&mut self, start: usize, len: usize) -> (r: Result<[u8; 8], Error>)
        requires
            start + len <= 8,
        ensures
            final(self).input() == old(self).input(),
            old(self).pos() <= final(self).pos(),
            match dec_span(old(self).input(), old(self).pos(), len) {
                Ok((b, p)) => r matches Ok(buf) && buf@ == zeros(start as int) + b + zeros(
                    8 - start - len,
                ) && final(self).pos() == p,
                Err((e, p)) => r == Err::<[u8; 8], Error>(e) && final(self).pos() == p,
            },
    {
        let src = match self.split_out(len) {
            Ok(part) => part,
            Err(e) => {
                return Err(Error::from_read(e));
            },
        };
        let bytes = src.as_slice();
        let mut buf = [0u8;8];
        let mut i: usize = 0;
        while i < len
            invariant
                i <= len,
                start + len <= 8,
                bytes@.len() == len,
                forall|j: int| 0 <= j < start ==> buf@[j] == 0,
                forall|j: int| start <= j < start + i ==> buf@[j] == bytes@[j - start],
                forall|j: int| start + i <= j < 8 ==> buf@[j] == 0,
            decreases len - i,
        {
            buf[start + i] = bytes[i];
            i += 1;
        }
        Ok(buf)
    }

    /// Reads an integer of `nlen` bytes that a header of family `h4`
    /// announced: the number and the buffer it was read into.
    pub fn bytevar_u(&mut self, h4: H4, nlen: usize) -> (r: Result<(u64, [u8; 8]), Error>)
        requires
            1 <= nlen <= 8,
        ensures
            final(self).input() == old(self).input(),
            old(self).pos() <= final(self).pos(),
            match dec_scalar_u(old(self).input(), old(self).pos(), h4, nlen) {
                Ok(((u, buf), p)) => r matches Ok((x, b)) && x == u && b@ == buf && u < pow256(
                    nlen as nat,
                ) && final(self).pos() == p,
                Err((e, p)) => r == Err::<(u64, [u8; 8]), Error>(e) && final(self).pos() == p,
            },
    {
        reveal(dec_scalar_u);
        let len = match h4.to_bytevar_len() {
            Ok(len) => len,
            Err(f) => {
                return Err(Error::Fatal(f));
            },
        };
        let range = bytevar_urange(len);
        let buf = self.buf_at(range.start, len)?;
        proof {
            lemma_buf_array(buf);
        }
        if len > nlen {
            return Err(Error::BytevarLongerThanType { len, nlen, buf });
        }
        let exp_len = bytevar_ulen(&buf);
        if len != exp_len {
            return Err(Error::BytevarLongerThanExpected { len, nlen, exp_len, buf });
        }
        let urange = bytevar_urange(nlen);
        let u = uint_from_bytes(slice_subrange(buf.as_slice(), urange.start, urange.end));
        Ok((u, buf))
    }

    /// Reads a bit pattern of `nlen` bytes that a header of family `h4`
    /// announced.
    pub fn bytevar_f(&mut self, h4: H4, nlen: usize) -> (r: Result<u64, Error>)
        requires
            1 <= nlen <= 8,
        ensures
            final(self).input() == old(self).input(),
            old(self).pos() <= final(self).pos(),
            match dec_scalar_f(old(self).input(), old(self).pos(), h4, nlen) {
                Ok((f, p)) => r matches Ok(x) && x == f && f < pow256(nlen as nat)
                    && final(self).pos() == p,
                Err((e, p)) => r == Err::<u64, Error>(e) && final(self).pos() == p,
            },
    {
        reveal(dec_scalar_f);
        let len = match h4.to_bytevar_len() {
            Ok(len) => len,
            Err(f) => {
                return Err(Error::Fatal(f));
            },
        };
        let range = bytevar_frange(len);
        let buf = self.buf_at(range.start, len)?;
        proof {
            lemma_buf_array(buf);
        }
        if len > nlen {
            return Err(Error::BytevarLongerThanType { len, nlen, buf });
        }
        let exp_len = bytevar_flen(&buf);
        if len != exp_len {
            return Err(Error::BytevarLongerThanExpected { len, nlen, exp_len, buf });
        }
        let frange = bytevar_frange(nlen);
        let f = uint_from_bytes(slice_subrange(buf.as_slice(), frange.start, frange.end));
        Ok(f)
    }

    /// Reads the magnitude of a signed integer of `nlen` bytes and gives the
    /// integer: `negative` is the sign, `max` the greatest magnitude that
    /// the type holds.
    pub fn bytevar_i(&mut self, h4: H4, nlen: usize, negative: bool, max: u64) -> (r: Result<
        i64,
        Error,
    >)
        requires
            1 <= nlen <= 8,
            max <= i64::MAX,
        ensures
            final(self).input() == old(self).input(),
            old(self).pos() <= final(self).pos(),
            match dec_signed(old(self).input(), old(self).pos(), h4, nlen, negative, max as int) {
                Ok((i, p)) => r matches Ok(x) && x == i && -max <= i <= max && final(self).pos()
                    == p,
                Err((e, p)) => r == Err::<i64, Error>(e) && final(self).pos() == p,
            },
    {
        reveal(dec_signed);
        let (u, buf) = self.bytevar_u(h4, nlen)?;
        proof {
            lemma_buf_array(buf);
        }
        if negative && u == 0 {
            return Err(Error::BytevarNegZero { buf });
        }
        if u > max {
            return Err(Error::BytevarIntSign { buf });
        }
        let i = u as i64;
        if negative {
            Ok(-i)
        } else {
            Ok(i)
        }
    }
}

impl<I: Input> Reader<I> {
    /// Reads what a header of the numeric family `h4` opens: a scalar of
    /// the kind `l4`, or a symbol.
    pub fn num(&mut self, h4: H4, l4: L4) -> (r: Result<Value<I::Storage>, Error>)
        requires
            h4.numeric(),
        ensures
            final(self).input() == old(self).input(),
            old(self).pos() <= final(self).pos(),
            match dec_body(old(self).input(), old(self).pos(), h4, l4) {
                Ok((v, p)) => r matches Ok(x) && x@ == v && final(self).pos() == p,
                Err((e, p)) => r == Err::<Value<I::Storage>, Error>(e) && final(self).pos() == p,
            },
        decreases remaining(old(self).input(), old(self).pos()), 2nat, 0nat,
    {
        match l4 {
            L4::EXT1 => self.symbol(h4),
            L4::EXT2 => Err(Error::Ext2NotImplemented),
            l4 => self.scalar(h4, l4),
        }
    }

    /// Reads a scalar of the kind `l4` that a header of the numeric family
    /// `h4` announced.
    pub fn scalar(&mut self, h4: H4, l4: L4) -> (r: Result<Value<I::Storage>, Error>)
        requires
            scalar_kind(l4),
        ensures
            final(self).input() == old(self).input(),
            old(self).pos() <= final(self).pos(),
            match dec_scalar(old(self).input(), old(self).pos(), h4, l4) {
                Ok((v, p)) => r matches Ok(x) && x@ == v && final(self).pos() == p,
                Err((e, p)) => r == Err::<Value<I::Storage>, Error>(e) && final(self).pos() == p,
            },
    {
        proof {
            lemma_pow256_values();
        }
        Ok(
            match l4 {
                L4::U8 => {
                    let (u, _) = self.bytevar_u(h4, 1)?;
                    Value::U8(u as u8)
                },
                L4::U16 => {
                    let (u, _) = self.bytevar_u(h4, 2)?;
                    Value::U16(u as u16)
                },
                L4::U32 => {
                    let (u, _) = self.bytevar_u(h4, 4)?;
                    Value::U32(u as u32)
                },
                L4::U64 => {
                    let (u, _) = self.bytevar_u(h4, 8)?;
                    Value::U64(u)
                },
                L4::I8 => {
                    let (u, _) = self.bytevar_u(h4, 1)?;
                    let i: i8 = if u < 128 {
                        u as i8
                    } else {
                        (u as i16 - 256) as i8
                    };
                    Value::I8(i)
                },
                L4::P16 => {
                    let i = self.bytevar_i(h4, 2, false, 0x7fff)?;
                    Value::I16(i as i16)
                },
                L4::P32 => {
                    let i = self.bytevar_i(h4, 4, false, 0x7fff_ffff)?;
                    Value::I32(i as i32)
                },
                L4::P64 => {
                    let i = self.bytevar_i(h4, 8, false, 0x7fff_ffff_ffff_ffff)?;
                    Value::I64(i)
                },
                L4::N16 => {
                    let i = self.bytevar_i(h4, 2, true, 0x7fff)?;
                    Value::I16(i as i16)
                },
                L4::N32 => {
                    let i = self.bytevar_i(h4, 4, true, 0x7fff_ffff)?;
                    Value::I32(i as i32)
                },
                L4::N64 => {
                    let i = self.bytevar_i(h4, 8, true, 0x7fff_ffff_ffff_ffff)?;
                    Value::I64(i)
                },
                L4::F16 => {
                    let f = self.bytevar_f(h4, 2)?;
                    Value::F16(f as u16)
                },
                L4::F32 => {
                    let f = self.bytevar_f(h4, 4)?;
                    Value::F32(f as u32)
                },
                L4::F64 => {
                    let f = self.bytevar_f(h4, 8)?;
                    Value::F64(f)
                },
                _ => vstd::pervasive::unreached(),
            },
        )
    }

    /// Reads what a header of the numeric family `h4` under `L4::EXT1`
    /// opens.
    pub fn symbol(&mut self, h4: H4) -> (r: Result<Value<I::Storage>, Error>)
        ensures
            final(self).input() == old(self).input(),
            old(self).pos() <= final(self).pos(),
            match dec_symbol(old(self).input(), old(self).pos(), h4) {
                Ok((v, p)) => r matches Ok(x) && x@ == v && final(self).pos() == p,
                Err((e, p)) => r == Err::<Value<I::Storage>, Error>(e) && final(self).pos() == p,
            },
        decreases remaining(old(self).input(), old(self).pos()), 1nat, 0nat,
    {
        let ext1 = match h4.to_ext1() {
            Ok(ext1) => ext1,
            Err(f) => {
                return Err(Error::Fatal(f));
            },
        };
        Ok(
            match ext1 {
                Ext1::Unit => Value::Unit,
                Ext1::True => Value::Bool(true),
                Ext1::False => Value::Bool(false),
                Ext1::OptNone => {
                    let t = self.ty()?;
                    Value::Option(t, Box::new(None))
                },
                Ext1::OptSome => {
                    let t = self.ty()?;
                    let v = self.val()?;
                    Value::Option(t, Box::new(Some(v)))
                },
                Ext1::Alias => {
                    let r = self.typeid()?;
                    let v = self.val()?;
                    Value::Alias(r, Box::new(v))
                },
                Ext1::Type => {
                    let t = self.ty()?;
                    Value::Type(t)
                },
                Ext1::TypeId => {
                    let r = self.typeid()?;
                    Value::TypeId(r)
                },
            },
        )
    }

    /// Reads a string after its header.
    pub fn string(&mut self, l4: L4) -> (r: Result<Value<I::Storage>, Error>)
        ensures
            final(self).input() == old(self).input(),
            old(self).pos() <= final(self).pos(),
            match dec_string(old(self).input(), old(self).pos(), l4) {
                Ok((v, p)) => r matches Ok(x) && x@ == v && final(self).pos() == p,
                Err((e, p)) => r == Err::<Value<I::Storage>, Error>(e) && final(self).pos() == p,
            },
    {
        let len = self.extszvar(l4)?;
        let b = match self.bytes(len) {
            Ok(b) => b,
            Err(e) => {
                return Err(Error::from_read(e));
            },
        };
        match ByteStr::from_utf8(b) {
            Ok(s) => Ok(Value::String(s)),
            Err(e) => Err(Error::Utf8(e)),
        }
    }

    /// Reads a byte blob after its header.
    pub fn blob(&mut self, l4: L4) -> (r: Result<Value<I::Storage>, Error>)
        ensures
            final(self).input() == old(self).input(),
            old(self).pos() <= final(self).pos(),
            match dec_bytes(old(self).input(), old(self).pos(), l4) {
                Ok((v, p)) => r matches Ok(x) && x@ == v && final(self).pos() == p,
                Err((e, p)) => r == Err::<Value<I::Storage>, Error>(e) && final(self).pos() == p,
            },
    {
        let len = self.extszvar(l4)?;
        let b = match self.bytes(len) {
            Ok(b) => b,
            Err(e) => {
                return Err(Error::from_read(e));
            },
        };
        Ok(Value::Bytes(b))
    }

    /// Reads a list after its header.
    pub fn list(&mut self, l4: L4) -> (r: Result<Value<I::Storage>, Error>)
        ensures
            final(self).input() == old(self).input(),
            old(self).pos() <= final(self).pos(),
            match dec_list(old(self).input(), old(self).pos(), l4) {
                Ok((v, p)) => r matches Ok(x) && x@ == v && final(self).pos() == p,
                Err((e, p)) => r == Err::<Value<I::Storage>, Error>(e) && final(self).pos() == p,
            },
        decreases remaining(old(self).input(), old(self).pos()), 1nat, 0nat,
    {
        let len = self.extszvar(l4)?;
        let t = self.ty()?;
        let s = self.val_seq(len)?;
        Ok(Value::List(t, s))
    }

    /// Reads a map after its header.
    pub fn dict(&mut self, l4: L4) -> (r: Result<Value<I::Storage>, Error>)
        ensures
            final(self).input() == old(self).input(),
            old(self).pos() <= final(self).pos(),
            match dec_dict(old(self).input(), old(self).pos(), l4) {
                Ok((v, p)) => r matches Ok(x) && x@ == v && final(self).pos() == p,
                Err((e, p)) => r == Err::<Value<I::Storage>, Error>(e) && final(self).pos() == p,
            },
        decreases remaining(old(self).input(), old(self).pos()), 1nat, 0nat,
    {
        let len = self.extszvar(l4)?;
        let tk = self.ty()?;
        let tv = self.ty()?;
        let s = self.val_seq_map(len)?;
        Ok(Value::Dict(tk, tv, s))
    }

    /// Reads a tuple after its header.
    pub fn tuple(&mut self, l4: L4) -> (r: Result<Value<I::Storage>, Error>)
        ensures
            final(self).input() == old(self).input(),
            old(self).pos() <= final(self).pos(),
            match dec_tuple(old(self).input(), old(self).pos(), l4) {
                Ok((v, p)) => r matches Ok(x) && x@ == v && final(self).pos() == p,
                Err((e, p)) => r == Err::<Value<I::Storage>, Error>(e) && final(self).pos() == p,
            },
        decreases remaining(old(self).input(), old(self).pos()), 1nat, 0nat,
    {
        let len = self.extszvar(l4)?;
        let s = self.val_seq(len)?;
        Ok(Value::Tuple(s))
    }

    /// Reads a variant without payload after its header.
    pub fn c_enum(&mut self, l4: L4) -> (r: Result<Value<I::Storage>, Error>)
        ensures
            final(self).input() == old(self).input(),
            old(self).pos() <= final(self).pos(),
            match dec_cenum(old(self).input(), old(self).pos(), l4) {
                Ok((v, p)) => r matches Ok(x) && x@ == v && final(self).pos() == p,
                Err((e, p)) => r == Err::<Value<I::Storage>, Error>(e) && final(self).pos() == p,
            },
    {
        let ev = self.extvar(l4)?;
        let r = self.typeid()?;
        Ok(Value::CEnum(r, ev))
    }

    /// Reads a variant with payload after its header.
    pub fn variant(&mut self, l4: L4) -> (r: Result<Value<I::Storage>, Error>)
        ensures
            final(self).input() == old(self).input(),
            old(self).pos() <= final(self).pos(),
            match dec_enum(old(self).input(), old(self).pos(), l4) {
                Ok((v, p)) => r matches Ok(x) && x@ == v && final(self).pos() == p,
                Err((e, p)) => r == Err::<Value<I::Storage>, Error>(e) && final(self).pos() == p,
            },
        decreases remaining(old(self).input(), old(self).pos()), 1nat, 0nat,
    {
        let ev = self.extvar(l4)?;
        let r = self.typeid()?;
        let v = self.val()?;
        Ok(Value::Enum(r, ev, Box::new(v)))
    }

    /// Reads a struct after its header.
    pub fn structure(&mut self, l4: L4) -> (r: Result<Value<I::Storage>, Error>)
        ensures
            final(self).input() == old(self).input(),
            old(self).pos() <= final(self).pos(),
            match dec_struct(old(self).input(), old(self).pos(), l4) {
                Ok((v, p)) => r matches Ok(x) && x@ == v && final(self).pos() == p,
                Err((e, p)) => r == Err::<Value<I::Storage>, Error>(e) && final(self).pos() == p,
            },
        decreases remaining(old(self).input(), old(self).pos()), 1nat, 0nat,
    {
        let len = self.extszvar(l4)?;
        let r = self.typeid()?;
        let s = self.val_seq(len)?;
        Ok(Value::Struct(r, s))
    }

    /// Reads one value: the header byte, then what it opens.
    pub fn val(&mut self) -> (r: Result<Value<I::Storage>, Error>)
        ensures
            final(self).input() == old(self).input(),
            old(self).pos() <= final(self).pos(),
            match dec_value(old(self).input(), old(self).pos()) {
                Ok((v, p)) => r matches Ok(x) && x@ == v && final(self).pos() == p,
                Err((e, p)) => r == Err::<Value<I::Storage>, Error>(e) && final(self).pos() == p,
            },
        decreases remaining(old(self).input(), old(self).pos()), 0nat, 0nat,
    {
        let n = self.u8()?;
        let (h4, l4) = to_h4l4(n)?;
        match h4 {
            H4::String => self.string(l4),
            H4::Bytes => self.blob(l4),
            H4::List => self.list(l4),
            H4::Dict => self.dict(l4),
            H4::Tuple => self.tuple(l4),
            H4::CEnum => self.c_enum(l4),
            H4::Enum => self.variant(l4),
            H4::Struct => self.structure(l4),
            h4 => self.num(h4, l4),
        }
    }

    /// Reads `size` values.
    pub fn val_seq(&mut self, size: usize) -> (r: Result<Vec<Value<I::Storage>>, Error>)
        ensures
            final(self).input() == old(self).input(),
            old(self).pos() <= final(self).pos(),
            match dec_values(old(self).input(), old(self).pos(), size as nat) {
                Ok((vs, p)) => r matches Ok(x) && Value::views(x@) == vs && final(self).pos() == p,
                Err((e, p)) => r == Err::<Vec<Value<I::Storage>>, Error>(e) && final(self).pos()
                    == p,
            },
        decreases remaining(old(self).input(), old(self).pos()), 0nat, size + 1,
    {
        let ghost s = self.input();
        let ghost start = self.pos();
        let mut out: Vec<Value<I::Storage>> = Vec::new();
        let mut i: usize = 0;
        while i < size
            invariant
                i <= size,
                out.len() == i,
                self.input() == s,
                s == old(self).input(),
                start == old(self).pos(),
                start <= self.pos(),
                remaining(s, self.pos()) <= remaining(s, start),
                dec_values(s, start, size as nat) == after(
                    Value::views(out@),
                    dec_values(s, self.pos(), (size - i) as nat),
                ),
            decreases size - i,
        {
            let ghost done = Value::views(out@);
            let v = match self.val() {
                Ok(v) => v,
                Err(e) => {
                    return Err(e);
                },
            };
            out.push(v);
            i += 1;
            proof {
                let rest = dec_values(s, self.pos(), (size - i) as nat);
                assert(Value::views(out@) =~= done.push(v@));
                match rest {
                    Ok((vs, p)) => {
                        assert(done + (seq![v@] + vs) =~= done.push(v@) + vs);
                    },
                    Err(_) => {},
                }
            }
        }
        Ok(out)
    }

    /// Reads `size` entries, each a key and then its value.
    pub fn val_seq_map(&mut self, size: usize) -> (r: Result<
        Vec<(Value<I::Storage>, Value<I::Storage>)>,
        Error,
    >)
        ensures
            final(self).input() == old(self).input(),
            old(self).pos() <= final(self).pos(),
            match dec_entries(old(self).input(), old(self).pos(), size as nat) {
                Ok((es, p)) => r matches Ok(x) && Value::entry_views(x@) == es && final(self).pos()
                    == p,
                Err((e, p)) => r == Err::<Vec<(Value<I::Storage>, Value<I::Storage>)>, Error>(e)
                    && final(self).pos() == p,
            },
        decreases remaining(old(self).input(), old(self).pos()), 0nat, 2 * size + 1,
    {
        let ghost s = self.input();
        let ghost start = self.pos();
        let mut out: Vec<(Value<I::Storage>, Value<I::Storage>)> = Vec::new();
        let mut i: usize = 0;
        while i < size
            invariant
                i <= size,
                out.len() == i,
                self.input() == s,
                s == old(self).input(),
                start == old(self).pos(),
                start <= self.pos(),
                remaining(s, self.pos()) <= remaining(s, start),
                dec_entries(s, start, size as nat) == after(
                    Value::entry_views(out@),
                    dec_entries(s, self.pos(), (size - i) as nat),
                ),
            decreases size - i,
        {
            let ghost done = Value::entry_views(out@);
            let k = match self.val() {
                Ok(k) => k,
                Err(e) => {
                    return Err(e);
                },
            };
            let v = match self.val() {
                Ok(v) => v,
                Err(e) => {
                    return Err(e);
                },
            };
            let ghost kv = (k@, v@);
            out.push((k, v));
            i += 1;
            proof {
                let rest = dec_entries(s, self.pos(), (size - i) as nat);
                assert(Value::entry_views(out@) =~= done.push(kv));
                match rest {
                    Ok((es, p)) => {
                        assert(done + (seq![kv] + es) =~= done.push(kv) + es);
                    },
                    Err(_) => {},
                }
            }
        }
        assert(Value::entry_views(out@) + Seq::<(ValueView, ValueView)>::empty()
            =~= Value::entry_views(out@));
        Ok(out)
    }
}

impl<B: ByteStorage> Value<B> {
    /// Decodes exactly one value from all of `buf`.
    ///
    /// There is an answer for every input: the value that `buf` is the
    /// encoding of, or the reason why it is none.
    pub fn decode<I: Input<Storage = B>>(buf: B) -> (r: Result<Value<B>, Error>)
        ensures
            match decode(buf.content()) {
                Ok(v) => r matches Ok(x) && x@ == v,
                Err(e) => r == Err::<Value<B>, Error>(e),
            },
            r matches Ok(x) ==> x.wf() && x@.has_magnitudes() && enc_value(x@) == buf.content(),
    {
        proof {
            law_canonical(buf.content());
        }
        let mut reader = Reader::<I>::new(buf);
        let val = reader.val()?;
        match reader.finish() {
            Ok(_) => Ok(val),
            Err(e) => Err(Error::from_read(e)),
        }
    }

    /// Decodes one value from the start of `buf` and hands back what
    /// decoding did not read. After an error that is what follows the
    /// position at which decoding stopped.
    pub fn decode_first_value<I: Input<Storage = B>>(buf: B) -> (r: (Result<Value<B>, Error>, B))
        ensures
            match dec_value(buf.content(), 0) {
                Ok((v, p)) => r.0 matches Ok(x) && x@ == v && r.1.content()
                    == buf.content().subrange(p, buf.content().len() as int),
                Err((e, p)) => r.0 == Err::<Value<B>, Error>(e) && r.1.content()
                    == buf.content().subrange(p, buf.content().len() as int),
            },
    {
        let mut reader = Reader::<I>::new(buf);
        let res = reader.val();
        (res, reader.into_rest().leak())
    }
}

} // verus!
