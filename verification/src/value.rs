//! The data model: structural types, the values that inhabit them, and the
//! mathematical view of both.

use vstd::prelude::*;
use vstd::utf8::valid_utf8;
use crate::storage::bytestr::ByteStr;
use crate::storage::marker::ByteStorage;
use crate::typeid::{TypeId, TypeIdView};

verus! {

/// The index of a variant of an enum.
pub type EnumVariantId = u64;

/// The index of an item of a tuple type.
pub type TupleItemId = u8;

/// The largest length that a string, a byte blob or a sequence may have.
pub const SIZE_MAX: usize = 65535;

/// A structural type.
#[derive(Debug, PartialEq, Eq)]
pub enum Type {
    Unknown,
    Unit,
    Bool,
    U8,
    U16,
    U32,
    U64,
    I8,
    I16,
    I32,
    I64,
    F16,
    F32,
    F64,
    String,
    Bytes,
    Option(Box<Type>),
    List(Box<Type>),
    Dict(Box<Type>, Box<Type>),
    Tuple(Vec<Type>),
    Alias(TypeId),
    CEnum(TypeId),
    Enum(TypeId),
    Struct(TypeId),
    Type,
    TypeId,
}

/// A value, together with what is needed to tell its type.
///
/// Floats are kept as their bit patterns. `B` is the storage of strings and
/// byte blobs.
#[derive(Debug, PartialEq, Eq)]
pub enum Value<B: ByteStorage> {
    Unit,
    Bool(bool),
    U8(u8),
    U16(u16),
    U32(u32),
    U64(u64),
    I8(i8),
    I16(i16),
    I32(i32),
    I64(i64),
    F16(u16),
    F32(u32),
    F64(u64),
    String(ByteStr<B>),
    Bytes(B),
    Option(Type, Box<Option<Value<B>>>),
    List(Type, Vec<Value<B>>),
    Dict(Type, Type, Vec<(Value<B>, Value<B>)>),
    Tuple(Vec<Value<B>>),
    Alias(TypeId, Box<Value<B>>),
    CEnum(TypeId, EnumVariantId),
    Enum(TypeId, EnumVariantId, Box<Value<B>>),
    Struct(TypeId, Vec<Value<B>>),
    Type(Type),
    TypeId(TypeId),
}

/// What a type is, mathematically.
pub enum TypeView {
    Unknown,
    Unit,
    Bool,
    U8,
    U16,
    U32,
    U64,
    I8,
    I16,
    I32,
    I64,
    F16,
    F32,
    F64,
    String,
    Bytes,
    Option(Box<TypeView>),
    List(Box<TypeView>),
    Dict(Box<TypeView>, Box<TypeView>),
    Tuple(Seq<TypeView>),
    Alias(TypeIdView),
    CEnum(TypeIdView),
    Enum(TypeIdView),
    Struct(TypeIdView),
    Type,
    TypeId,
}

/// What a value is, mathematically.
pub enum ValueView {
    Unit,
    Bool(bool),
    U8(u8),
    U16(u16),
    U32(u32),
    U64(u64),
    I8(i8),
    I16(i16),
    I32(i32),
    I64(i64),
    F16(u16),
    F32(u32),
    F64(u64),
    String(Seq<u8>),
    Bytes(Seq<u8>),
    Option(TypeView, Option<Box<ValueView>>),
    List(TypeView, Seq<ValueView>),
    Dict(TypeView, TypeView, Seq<(ValueView, ValueView)>),
    Tuple(Seq<ValueView>),
    Alias(TypeIdView, Box<ValueView>),
    CEnum(TypeIdView, u64),
    Enum(TypeIdView, u64, Box<ValueView>),
    Struct(TypeIdView, Seq<ValueView>),
    Type(TypeView),
    TypeId(TypeIdView),
}

impl TypeView {
    /// Every identifier in the type is well formed, and no tuple type has
    /// more than 255 items.
    pub open spec fn wf(self) -> bool
        decreases self,
    {
        match self {
            TypeView::Option(t) => t.wf(),
            TypeView::List(t) => t.wf(),
            TypeView::Dict(tk, tv) => tk.wf() && tv.wf(),
            TypeView::Tuple(ts) => ts.len() <= 255 && forall|i: int|
                0 <= i < ts.len() ==> (#[trigger] ts[i]).wf(),
            TypeView::Alias(id) => id.wf(),
            TypeView::CEnum(id) => id.wf(),
            TypeView::Enum(id) => id.wf(),
            TypeView::Struct(id) => id.wf(),
            _ => true,
        }
    }
}

impl ValueView {
    /// What the format admits: strings are UTF-8, identifiers and types are
    /// well formed, and no length exceeds `SIZE_MAX`.
    pub open spec fn wf(self) -> bool
        decreases self,
    {
        match self {
            ValueView::String(s) => s.len() <= SIZE_MAX && valid_utf8(s),
            ValueView::Bytes(b) => b.len() <= SIZE_MAX,
            ValueView::Option(t, o) => t.wf() && match o {
                Some(v) => v.wf(),
                None => true,
            },
            ValueView::List(t, vs) => t.wf() && vs.len() <= SIZE_MAX && forall|i: int|
                0 <= i < vs.len() ==> (#[trigger] vs[i]).wf(),
            ValueView::Dict(tk, tv, es) => tk.wf() && tv.wf() && es.len() <= SIZE_MAX && forall|
                i: int,
            |
                0 <= i < es.len() ==> (#[trigger] es[i]).0.wf() && es[i].1.wf(),
            ValueView::Tuple(vs) => vs.len() <= SIZE_MAX && forall|i: int|
                0 <= i < vs.len() ==> (#[trigger] vs[i]).wf(),
            ValueView::Alias(id, v) => id.wf() && v.wf(),
            ValueView::CEnum(id, ev) => id.wf(),
            ValueView::Enum(id, ev, v) => id.wf() && v.wf(),
            ValueView::Struct(id, vs) => id.wf() && vs.len() <= SIZE_MAX && forall|i: int|
                0 <= i < vs.len() ==> (#[trigger] vs[i]).wf(),
            ValueView::Type(t) => t.wf(),
            ValueView::TypeId(id) => id.wf(),
            _ => true,
        }
    }

    /// No signed integer in the value is the least of its type. Such an
    /// integer has no magnitude that its own type can hold, and the format
    /// stores magnitudes.
    pub open spec fn has_magnitudes(self) -> bool
        decreases self,
    {
        match self {
            ValueView::I16(i) => i != i16::MIN,
            ValueView::I32(i) => i != i32::MIN,
            ValueView::I64(i) => i != i64::MIN,
            ValueView::Option(t, o) => match o {
                Some(v) => v.has_magnitudes(),
                None => true,
            },
            ValueView::List(t, vs) => forall|i: int|
                0 <= i < vs.len() ==> (#[trigger] vs[i]).has_magnitudes(),
            ValueView::Dict(tk, tv, es) => forall|i: int|
                0 <= i < es.len() ==> (#[trigger] es[i]).0.has_magnitudes()
                    && es[i].1.has_magnitudes(),
            ValueView::Tuple(vs) => forall|i: int|
                0 <= i < vs.len() ==> (#[trigger] vs[i]).has_magnitudes(),
            ValueView::Alias(id, v) => v.has_magnitudes(),
            ValueView::Enum(id, ev, v) => v.has_magnitudes(),
            ValueView::Struct(id, vs) => forall|i: int|
                0 <= i < vs.len() ==> (#[trigger] vs[i]).has_magnitudes(),
            _ => true,
        }
    }

    /// The type that structurally describes the value.
    pub open spec fn type_of(self) -> TypeView
        decreases self,
    {
        match self {
            ValueView::Unit => TypeView::Unit,
            ValueView::Bool(_) => TypeView::Bool,
            ValueView::U8(_) => TypeView::U8,
            ValueView::U16(_) => TypeView::U16,
            ValueView::U32(_) => TypeView::U32,
            ValueView::U64(_) => TypeView::U64,
            ValueView::I8(_) => TypeView::I8,
            ValueView::I16(_) => TypeView::I16,
            ValueView::I32(_) => TypeView::I32,
            ValueView::I64(_) => TypeView::I64,
            ValueView::F16(_) => TypeView::F16,
            ValueView::F32(_) => TypeView::F32,
            ValueView::F64(_) => TypeView::F64,
            ValueView::String(_) => TypeView::String,
            ValueView::Bytes(_) => TypeView::Bytes,
            ValueView::Option(t, _) => TypeView::Option(Box::new(t)),
            ValueView::List(t, _) => TypeView::List(Box::new(t)),
            ValueView::Dict(tk, tv, _) => TypeView::Dict(Box::new(tk), Box::new(tv)),
            ValueView::Tuple(vs) => TypeView::Tuple(
                Seq::new(
                    vs.len(),
                    |i: int|
                        if 0 <= i < vs.len() {
                            vs[i].type_of()
                        } else {
                            TypeView::Unknown
                        },
                ),
            ),
            ValueView::Alias(id, _) => TypeView::Alias(id),
            ValueView::CEnum(id, _) => TypeView::CEnum(id),
            ValueView::Enum(id, _, _) => TypeView::Enum(id),
            ValueView::Struct(id, _) => TypeView::Struct(id),
            ValueView::Type(_) => TypeView::Type,
            ValueView::TypeId(_) => TypeView::TypeId,
        }
    }
}

impl Type {
    /// The mathematical view of the type.
    pub open spec fn view(&self) -> TypeView
        decreases self,
    {
        match self {
            Type::Unknown => TypeView::Unknown,
            Type::Unit => TypeView::Unit,
            Type::Bool => TypeView::Bool,
            Type::U8 => TypeView::U8,
            Type::U16 => TypeView::U16,
            Type::U32 => TypeView::U32,
            Type::U64 => TypeView::U64,
            Type::I8 => TypeView::I8,
            Type::I16 => TypeView::I16,
            Type::I32 => TypeView::I32,
            Type::I64 => TypeView::I64,
            Type::F16 => TypeView::F16,
            Type::F32 => TypeView::F32,
            Type::F64 => TypeView::F64,
            Type::String => TypeView::String,
            Type::Bytes => TypeView::Bytes,
            Type::Option(t) => TypeView::Option(Box::new(t.view())),
            Type::List(t) => TypeView::List(Box::new(t.view())),
            Type::Dict(tk, tv) => TypeView::Dict(Box::new(tk.view()), Box::new(tv.view())),
            Type::Tuple(ts) => TypeView::Tuple(Type::views(ts@)),
            Type::Alias(id) => TypeView::Alias(id@),
            Type::CEnum(id) => TypeView::CEnum(id@),
            Type::Enum(id) => TypeView::Enum(id@),
            Type::Struct(id) => TypeView::Struct(id@),
            Type::Type => TypeView::Type,
            Type::TypeId => TypeView::TypeId,
        }
    }

    /// The views of a sequence of types, item by item.
    pub open spec fn views(ts: Seq<Type>) -> Seq<TypeView>
        decreases ts,
    {
        Seq::new(
            ts.len(),
            |i: int|
                if 0 <= i < ts.len() {
                    ts[i].view()
                } else {
                    TypeView::Unknown
                },
        )
    }

    /// Whether the format admits the type.
    pub open spec fn wf(&self) -> bool {
        self@.wf()
    }
}

impl<B: ByteStorage> Value<B> {
    /// The mathematical view of the value.
    pub open spec fn view(&self) -> ValueView
        decreases self,
    {
        match self {
            Value::Unit => ValueView::Unit,
            Value::Bool(b) => ValueView::Bool(*b),
            Value::U8(u) => ValueView::U8(*u),
            Value::U16(u) => ValueView::U16(*u),
            Value::U32(u) => ValueView::U32(*u),
            Value::U64(u) => ValueView::U64(*u),
            Value::I8(i) => ValueView::I8(*i),
            Value::I16(i) => ValueView::I16(*i),
            Value::I32(i) => ValueView::I32(*i),
            Value::I64(i) => ValueView::I64(*i),
            Value::F16(f) => ValueView::F16(*f),
            Value::F32(f) => ValueView::F32(*f),
            Value::F64(f) => ValueView::F64(*f),
            Value::String(s) => ValueView::String(s@),
            Value::Bytes(b) => ValueView::Bytes(b.content()),
            Value::Option(t, o) => ValueView::Option(
                t@,
                match **o {
                    Some(v) => Some(Box::new(v.view())),
                    None => None,
                },
            ),
            Value::List(t, vs) => ValueView::List(t@, Value::views(vs@)),
            Value::Dict(tk, tv, es) => ValueView::Dict(
                tk@,
                tv@,
                Value::entry_views(es@),
            ),
            Value::Tuple(vs) => ValueView::Tuple(Value::views(vs@)),
            Value::Alias(id, v) => ValueView::Alias(id@, Box::new(v.view())),
            Value::CEnum(id, ev) => ValueView::CEnum(id@, *ev),
            Value::Enum(id, ev, v) => ValueView::Enum(id@, *ev, Box::new(v.view())),
            Value::Struct(id, vs) => ValueView::Struct(id@, Value::views(vs@)),
            Value::Type(t) => ValueView::Type(t@),
            Value::TypeId(id) => ValueView::TypeId(id@),
        }
    }

    /// The views of a sequence of values, item by item.
    pub open spec fn views(vs: Seq<Value<B>>) -> Seq<ValueView>
        decreases vs,
    {
        Seq::new(
            vs.len(),
            |i: int|
                if 0 <= i < vs.len() {
                    vs[i].view()
                } else {
                    ValueView::Unit
                },
        )
    }

    /// The views of a sequence of entries, item by item.
    pub open spec fn entry_views(es: Seq<(Value<B>, Value<B>)>) -> Seq<(ValueView, ValueView)>
        decreases es,
    {
        Seq::new(
            es.len(),
            |i: int|
                if 0 <= i < es.len() {
                    (es[i].0.view(), es[i].1.view())
                } else {
                    (ValueView::Unit, ValueView::Unit)
                },
        )
    }

    /// Whether the format admits the value.
    pub open spec fn wf(&self) -> bool {
        self@.wf()
    }
}

} // verus!
