//! Copies of values, checks of what the format admits, and the way from a
//! value to what it holds.

use vstd::prelude::*;
use crate::storage::bytestr::{ByteStr, clone_keeps_content};
use crate::storage::marker::ByteStorage;
use crate::storage::utf8::check_utf8;
use crate::typeid::{SCHEMA_ANONYMOUS, SCHEMA_HASH, TypeId};
use crate::value::{EnumVariantId, SIZE_MAX, Type, Value, ValueView};

verus! {

impl<B: ByteStorage + Clone> Clone for Value<B> {
    /// A copy of the value. Where cloning the storage keeps its bytes, the
    /// copy has the same view.
    fn clone(&self) -> (r: Value<B>)
        ensures
            clone_keeps_content::<B>() ==> r@ == self@,
        decreases self,
    {
        match self {
            Value::Unit => Value::Unit,
            Value::Bool(b) => Value::Bool(*b),
            Value::U8(u) => Value::U8(*u),
            Value::U16(u) => Value::U16(*u),
            Value::U32(u) => Value::U32(*u),
            Value::U64(u) => Value::U64(*u),
            Value::I8(i) => Value::I8(*i),
            Value::I16(i) => Value::I16(*i),
            Value::I32(i) => Value::I32(*i),
            Value::I64(i) => Value::I64(*i),
            Value::F16(x) => Value::F16(*x),
            Value::F32(x) => Value::F32(*x),
            Value::F64(x) => Value::F64(*x),
            Value::String(s) => Value::String(s.clone()),
            Value::Bytes(b) => {
                let bytes = b.clone();
                assert(cloned::<B>(*b, bytes));
                Value::Bytes(bytes)
            },
            Value::Option(t, o) => {
                match &**o {
                    Some(v) => Value::Option(t.clone(), Box::new(Some(v.clone()))),
                    None => Value::Option(t.clone(), Box::new(None)),
                }
            },
            Value::List(t, vs) => Value::List(t.clone(), Value::clone_seq(vs)),
            Value::Dict(tk, tv, es) => Value::Dict(
                tk.clone(),
                tv.clone(),
                Value::clone_entries(es),
            ),
            Value::Tuple(vs) => Value::Tuple(Value::clone_seq(vs)),
            Value::Alias(id, v) => Value::Alias(*id, Box::new((&**v).clone())),
            Value::CEnum(id, ev) => Value::CEnum(*id, *ev),
            Value::Enum(id, ev, v) => Value::Enum(*id, *ev, Box::new((&**v).clone())),
            Value::Struct(id, vs) => Value::Struct(*id, Value::clone_seq(vs)),
            Value::Type(t) => Value::Type(t.clone()),
            Value::TypeId(id) => Value::TypeId(*id),
        }
    }
}

impl<B: ByteStorage + Clone> Value<B> {
    /// Copies of the values of a sequence.
    pub fn clone_seq(vs: &Vec<Value<B>>) -> (r: Vec<Value<B>>)
        ensures
            r@.len() == vs@.len(),
            clone_keeps_content::<B>() ==> Value::views(r@) == Value::views(vs@),
        decreases vs,
    {
        let mut out: Vec<Value<B>> = Vec::new();
        let mut i: usize = 0;
        while i < vs.len()
            invariant
                i <= vs.len(),
                out.len() == i,
                clone_keeps_content::<B>() ==> forall|j: int|
                    0 <= j < i ==> (#[trigger] out@[j])@ == vs@[j]@,
            decreases vs.len() - i,
        {
            out.push(vs[i].clone());
            i += 1;
        }
        out
    }

    /// Copies of the entries of a sequence.
    pub fn clone_entries(es: &Vec<(Value<B>, Value<B>)>) -> (r: Vec<(Value<B>, Value<B>)>)
        ensures
            r@.len() == es@.len(),
            clone_keeps_content::<B>() ==> Value::entry_views(r@) == Value::entry_views(es@),
        decreases es,
    {
        let mut out: Vec<(Value<B>, Value<B>)> = Vec::new();
        let mut i: usize = 0;
        while i < es.len()
            invariant
                i <= es.len(),
                out.len() == i,
                clone_keeps_content::<B>() ==> forall|j: int|
                    0 <= j < i ==> (#[trigger] out@[j]).0@ == es@[j].0@ && out@[j].1@ == es@[j].1@,
            decreases es.len() - i,
        {
            let entry = &es[i];
            out.push((entry.0.clone(), entry.1.clone()));
            i += 1;
        }
        out
    }
}

impl TypeId {
    /// Whether the identifier is well formed.
    pub fn is_wf(&self) -> (r: bool)
        ensures
            r == self.wf(),
    {
        proof {
            self.lemma_view();
        }
        match self {
            TypeId::Std(std_id) => {
                let schema = std_id.schema();
                schema != SCHEMA_ANONYMOUS && schema != SCHEMA_HASH
            },
            _ => true,
        }
    }
}

impl Type {
    /// Whether the format admits the type.
    pub fn is_wf(&self) -> (r: bool)
        ensures
            r == self.wf(),
        decreases self,
    {
        match self {
            Type::Option(t) => t.is_wf(),
            Type::List(t) => t.is_wf(),
            Type::Dict(tk, tv) => tk.is_wf() && tv.is_wf(),
            Type::Tuple(ts) => {
                if ts.len() > 255 {
                    return false;
                }
                let mut i: usize = 0;
                while i < ts.len()
                    invariant
                        i <= ts.len(),
                        self is Tuple,
                        self->Tuple_0 == *ts,
                        forall|j: int| 0 <= j < i ==> (#[trigger] ts@[j])@.wf(),
                    decreases ts.len() - i,
                {
                    if !ts[i].is_wf() {
                        assert(Type::views(ts@)[i as int] == ts@[i as int]@);
                        return false;
                    }
                    i += 1;
                }
                assert forall|j: int| 0 <= j < ts@.len() implies (#[trigger] Type::views(
                    ts@,
                )[j]).wf() by {
                    assert(Type::views(ts@)[j] == ts@[j]@);
                }
                true
            },
            Type::Alias(id) => id.is_wf(),
            Type::CEnum(id) => id.is_wf(),
            Type::Enum(id) => id.is_wf(),
            Type::Struct(id) => id.is_wf(),
            _ => true,
        }
    }
}

impl<B: ByteStorage> Value<B> {
    /// Whether the format admits the value: whether `encode` may be called
    /// on it.
    pub fn is_wf(&self) -> (r: bool)
        ensures
            r == self.wf(),
        decreases self,
    {
        match self {
            Value::String(s) => {
                let bytes = s.as_bytes();
                if bytes.len() > SIZE_MAX {
                    return false;
                }
                match check_utf8(bytes) {
                    Ok(_) => true,
                    Err(_) => false,
                }
            },
            Value::Bytes(b) => b.as_slice().len() <= SIZE_MAX,
            Value::Option(t, o) => {
                match &**o {
                    Some(v) => {
                        let r = t.is_wf() && v.is_wf();
                        r
                    },
                    None => {
                        t.is_wf()
                    },
                }
            },
            Value::List(t, vs) => {
                assert(self@ == ValueView::List(t@, Value::views(vs@)));
                t.is_wf() && Value::are_wf(vs)
            },
            Value::Dict(tk, tv, es) => {
                assert(self@ == ValueView::Dict(tk@, tv@, Value::entry_views(es@)));
                tk.is_wf() && tv.is_wf() && Value::entries_are_wf(es)
            },
            Value::Tuple(vs) => {
                assert(self@ == ValueView::Tuple(Value::views(vs@)));
                Value::are_wf(vs)
            },
            Value::Alias(id, v) => {
                id.is_wf() && v.is_wf()
            },
            Value::CEnum(id, _) => id.is_wf(),
            Value::Enum(id, ev, v) => {
                id.is_wf() && v.is_wf()
            },
            Value::Struct(id, vs) => {
                assert(self@ == ValueView::Struct(id@, Value::views(vs@)));
                id.is_wf() && Value::are_wf(vs)
            },
            Value::Type(t) => t.is_wf(),
            Value::TypeId(id) => id.is_wf(),
            _ => true,
        }
    }

    /// Whether no signed integer in the value is the least of its type:
    /// whether the value comes back from its encoding.
    pub fn has_magnitudes(&self) -> (r: bool)
        ensures
            r == self@.has_magnitudes(),
        decreases self,
    {
        match self {
            Value::I16(i) => *i != i16::MIN,
            Value::I32(i) => *i != i32::MIN,
            Value::I64(i) => *i != i64::MIN,
            Value::Option(t, o) => {
                match &**o {
                    Some(v) => {
                        v.has_magnitudes()
                    },
                    None => {
                        true
                    },
                }
            },
            Value::List(t, vs) => {
                assert(self@->List_1 == Value::views(vs@));
                Value::have_magnitudes(vs)
            },
            Value::Dict(tk, tv, es) => {
                assert(self@->Dict_2 == Value::entry_views(es@));
                Value::entries_have_magnitudes(es)
            },
            Value::Tuple(vs) => {
                assert(self@->Tuple_0 == Value::views(vs@));
                Value::have_magnitudes(vs)
            },
            Value::Alias(id, v) => {
                v.has_magnitudes()
            },
            Value::Enum(id, ev, v) => {
                v.has_magnitudes()
            },
            Value::Struct(id, vs) => {
                assert(self@->Struct_1 == Value::views(vs@));
                Value::have_magnitudes(vs)
            },
            _ => true,
        }
    }

    /// Whether no signed integer in the values of a sequence is the least
    /// of its type.
    pub fn have_magnitudes(vs: &Vec<Value<B>>) -> (r: bool)
        ensures
            r == (forall|j: int|
                0 <= j < vs@.len() ==> (#[trigger] Value::views(vs@)[j]).has_magnitudes()),
        decreases vs,
    {
        let mut i: usize = 0;
        while i < vs.len()
            invariant
                i <= vs.len(),
                forall|j: int| 0 <= j < i ==> (#[trigger] vs@[j])@.has_magnitudes(),
            decreases vs.len() - i,
        {
            if !vs[i].has_magnitudes() {
                assert(Value::views(vs@)[i as int] == vs@[i as int]@);
                return false;
            }
            i += 1;
        }
        assert forall|j: int| 0 <= j < vs@.len() implies (#[trigger] Value::views(
            vs@,
        )[j]).has_magnitudes() by {}
        true
    }

    /// Whether no signed integer in the entries of a sequence is the least
    /// of its type.
    pub fn entries_have_magnitudes(es: &Vec<(Value<B>, Value<B>)>) -> (r: bool)
        ensures
            r == (forall|j: int|
                0 <= j < es@.len() ==> (#[trigger] Value::entry_views(es@)[j]).0.has_magnitudes()
                    && Value::entry_views(es@)[j].1.has_magnitudes()),
        decreases es,
    {
        let mut i: usize = 0;
        while i < es.len()
            invariant
                i <= es.len(),
                forall|j: int|
                    0 <= j < i ==> (#[trigger] es@[j]).0@.has_magnitudes()
                        && es@[j].1@.has_magnitudes(),
            decreases es.len() - i,
        {
            let entry = &es[i];
            if !entry.0.has_magnitudes() || !entry.1.has_magnitudes() {
                assert(Value::entry_views(es@)[i as int] == (es@[i as int].0@, es@[i as int].1@));
                return false;
            }
            i += 1;
        }
        assert forall|j: int| 0 <= j < es@.len() implies (#[trigger] Value::entry_views(
            es@,
        )[j]).0.has_magnitudes() && Value::entry_views(es@)[j].1.has_magnitudes() by {}
        true
    }

    /// Whether a sequence is no longer than `SIZE_MAX` and the format
    /// admits each of its values.
    pub fn are_wf(vs: &Vec<Value<B>>) -> (r: bool)
        ensures
            r == (vs@.len() <= SIZE_MAX && forall|j: int|
                0 <= j < vs@.len() ==> (#[trigger] Value::views(vs@)[j]).wf()),
        decreases vs,
    {
        if vs.len() > SIZE_MAX {
            return false;
        }
        let mut i: usize = 0;
        while i < vs.len()
            invariant
                i <= vs.len(),
                forall|j: int| 0 <= j < i ==> (#[trigger] vs@[j])@.wf(),
            decreases vs.len() - i,
        {
            if !vs[i].is_wf() {
                assert(Value::views(vs@)[i as int] == vs@[i as int]@);
                return false;
            }
            i += 1;
        }
        assert forall|j: int| 0 <= j < vs@.len() implies (#[trigger] Value::views(vs@)[j]).wf() by {}
        true
    }

    /// Whether a sequence is no longer than `SIZE_MAX` and the format
    /// admits each of its entries.
    pub fn entries_are_wf(es: &Vec<(Value<B>, Value<B>)>) -> (r: bool)
        ensures
            r == (es@.len() <= SIZE_MAX && forall|j: int|
                0 <= j < es@.len() ==> (#[trigger] Value::entry_views(es@)[j]).0.wf()
                    && Value::entry_views(es@)[j].1.wf()),
        decreases es,
    {
        if es.len() > SIZE_MAX {
            return false;
        }
        let mut i: usize = 0;
        while i < es.len()
            invariant
                i <= es.len(),
                forall|j: int| 0 <= j < i ==> (#[trigger] es@[j]).0@.wf() && es@[j].1@.wf(),
            decreases es.len() - i,
        {
            let entry = &es[i];
            if !entry.0.is_wf() || !entry.1.is_wf() {
                assert(Value::entry_views(es@)[i as int] == (es@[i as int].0@, es@[i as int].1@));
                return false;
            }
            i += 1;
        }
        assert forall|j: int| 0 <= j < es@.len() implies (#[trigger] Value::entry_views(
            es@,
        )[j]).0.wf() && Value::entry_views(es@)[j].1.wf() by {}
        true
    }
}

impl<B: ByteStorage> Value<B> {
    /// Takes the unit apart: there is nothing in it.
    pub fn into_unit(self)
        requires
            self is Unit,
    {
    }

    /// The boolean that the value holds.
    pub fn into_bool(self) -> (r: bool)
        requires
            self is Bool,
        ensures
            self@ == ValueView::Bool(r),
    {
        match self {
            Value::Bool(x) => x,
            _ => vstd::pervasive::unreached(),
        }
    }

    /// The integer that the value holds.
    pub fn into_u8(self) -> (r: u8)
        requires
            self is U8,
        ensures
            self@ == ValueView::U8(r),
    {
        match self {
            Value::U8(x) => x,
            _ => vstd::pervasive::unreached(),
        }
    }

    /// The integer that the value holds.
    pub fn into_u16(self) -> (r: u16)
        requires
            self is U16,
        ensures
            self@ == ValueView::U16(r),
    {
        match self {
            Value::U16(x) => x,
            _ => vstd::pervasive::unreached(),
        }
    }

    /// The integer that the value holds.
    pub fn into_u32(self) -> (r: u32)
        requires
            self is U32,
        ensures
            self@ == ValueView::U32(r),
    {
        match self {
            Value::U32(x) => x,
            _ => vstd::pervasive::unreached(),
        }
    }

    /// The integer that the value holds.
    pub fn into_u64(self) -> (r: u64)
        requires
            self is U64,
        ensures
            self@ == ValueView::U64(r),
    {
        match self {
            Value::U64(x) => x,
            _ => vstd::pervasive::unreached(),
        }
    }

    /// The integer that the value holds.
    pub fn into_i8(self) -> (r: i8)
        requires
            self is I8,
        ensures
            self@ == ValueView::I8(r),
    {
        match self {
            Value::I8(x) => x,
            _ => vstd::pervasive::unreached(),
        }
    }

    /// The integer that the value holds.
    pub fn into_i16(self) -> (r: i16)
        requires
            self is I16,
        ensures
            self@ == ValueView::I16(r),
    {
        match self {
            Value::I16(x) => x,
            _ => vstd::pervasive::unreached(),
        }
    }

    /// The integer that the value holds.
    pub fn into_i32(self) -> (r: i32)
        requires
            self is I32,
        ensures
            self@ == ValueView::I32(r),
    {
        match self {
            Value::I32(x) => x,
            _ => vstd::pervasive::unreached(),
        }
    }

    /// The integer that the value holds.
    pub fn into_i64(self) -> (r: i64)
        requires
            self is I64,
        ensures
            self@ == ValueView::I64(r),
    {
        match self {
            Value::I64(x) => x,
            _ => vstd::pervasive::unreached(),
        }
    }

    /// The bit pattern of the float that the value holds.
    pub fn into_f16(self) -> (r: u16)
        requires
            self is F16,
        ensures
            self@ == ValueView::F16(r),
    {
        match self {
            Value::F16(x) => x,
            _ => vstd::pervasive::unreached(),
        }
    }

    /// The bit pattern of the float that the value holds.
    pub fn into_f32(self) -> (r: u32)
        requires
            self is F32,
        ensures
            self@ == ValueView::F32(r),
    {
        match self {
            Value::F32(x) => x,
            _ => vstd::pervasive::unreached(),
        }
    }

    /// The bit pattern of the float that the value holds.
    pub fn into_f64(self) -> (r: u64)
        requires
            self is F64,
        ensures
            self@ == ValueView::F64(r),
    {
        match self {
            Value::F64(x) => x,
            _ => vstd::pervasive::unreached(),
        }
    }

    /// The string that the value holds.
    pub fn into_string(self) -> (r: ByteStr<B>)
        requires
            self is String,
        ensures
            self@ == ValueView::String(r@),
    {
        match self {
            Value::String(x) => x,
            _ => vstd::pervasive::unreached(),
        }
    }

    /// The byte blob that the value holds.
    pub fn into_bytes(self) -> (r: B)
        requires
            self is Bytes,
        ensures
            self@ == ValueView::Bytes(r.content()),
    {
        match self {
            Value::Bytes(x) => x,
            _ => vstd::pervasive::unreached(),
        }
    }

    /// The type that the value holds.
    pub fn into_type(self) -> (r: Type)
        requires
            self is Type,
        ensures
            self@ == ValueView::Type(r@),
    {
        match self {
            Value::Type(x) => x,
            _ => vstd::pervasive::unreached(),
        }
    }

    /// The type identifier that the value holds.
    pub fn into_type_id(self) -> (r: TypeId)
        requires
            self is TypeId,
        ensures
            self@ == ValueView::TypeId(r@),
    {
        match self {
            Value::TypeId(x) => x,
            _ => vstd::pervasive::unreached(),
        }
    }

    /// The value that the option holds, if it holds one.
    pub fn into_option(self) -> (r: Option<Value<B>>)
        requires
            self is Option,
        ensures
            match r {
                Some(v) => self@->Option_1 == Some(Box::new(v@)),
                None => self@->Option_1 is None,
            },
    {
        match self {
            Value::Option(_, v) => *v,
            _ => vstd::pervasive::unreached(),
        }
    }

    /// The items of the list.
    pub fn into_list(self) -> (r: Vec<Value<B>>)
        requires
            self is List,
        ensures
            self@->List_1 == Value::views(r@),
    {
        match self {
            Value::List(_, s) => s,
            _ => vstd::pervasive::unreached(),
        }
    }

    /// The entries of the map.
    pub fn into_map(self) -> (r: Vec<(Value<B>, Value<B>)>)
        requires
            self is Dict,
        ensures
            self@->Dict_2 == Value::entry_views(r@),
    {
        match self {
            Value::Dict(_, _, s) => s,
            _ => vstd::pervasive::unreached(),
        }
    }

    /// The items of the tuple.
    pub fn into_tuple(self) -> (r: Vec<Value<B>>)
        requires
            self is Tuple,
        ensures
            self@ == ValueView::Tuple(Value::views(r@)),
    {
        match self {
            Value::Tuple(s) => s,
            _ => vstd::pervasive::unreached(),
        }
    }

    /// The value that the alias wraps.
    pub fn into_alias(self) -> (r: Value<B>)
        requires
            self is Alias,
        ensures
            self@->Alias_1 == Box::new(r@),
    {
        match self {
            Value::Alias(_, v) => *v,
            _ => vstd::pervasive::unreached(),
        }
    }

    /// The index of the variant.
    pub fn into_c_enum(self) -> (r: EnumVariantId)
        requires
            self is CEnum,
        ensures
            self@->CEnum_1 == r,
    {
        match self {
            Value::CEnum(_, ev) => ev,
            _ => vstd::pervasive::unreached(),
        }
    }

    /// The index of the variant and its payload.
    pub fn into_enum(self) -> (r: (EnumVariantId, Value<B>))
        requires
            self is Enum,
        ensures
            self@->Enum_1 == r.0,
            self@->Enum_2 == Box::new(r.1@),
    {
        match self {
            Value::Enum(_, ev, v) => (ev, *v),
            _ => vstd::pervasive::unreached(),
        }
    }

    /// The fields of the struct.
    pub fn into_struct(self) -> (r: Vec<Value<B>>)
        requires
            self is Struct,
        ensures
            self@->Struct_1 == Value::views(r@),
    {
        match self {
            Value::Struct(_, s) => s,
            _ => vstd::pervasive::unreached(),
        }
    }
}

} // verus!
