//! The surface through which user types become values and back.

use vstd::prelude::*;
use crate::storage::marker::ByteStorage;
use crate::typeid::TypeId;
use crate::value::Value;

verus! {

/// A type that can be written as a value and read back from one.
pub trait Schema<B: ByteStorage>: Sized {
    /// The identifier under which the type is known.
    const ID: TypeId;

    /// The value that stands for `self`.
    fn serialize(self) -> Value<B>;

    /// The inhabitant that `val` stands for.
    fn deserialize(val: Value<B>) -> Self;
}

impl<B: ByteStorage> Value<B> {
    /// The value that stands for `val`: whatever `T::serialize` gives.
    pub fn serialize_from<T: Schema<B>>(val: T) -> (r: Value<B>)
        ensures
            call_ensures(T::serialize, (val,), r),
    {
        val.serialize()
    }

    /// The inhabitant of `T` that the value stands for: whatever
    /// `T::deserialize` gives.
    pub fn deserialize_into<T: Schema<B>>(self) -> (r: T)
        ensures
            call_ensures(T::deserialize, (self,), r),
    {
        T::deserialize(self)
    }
}

} // verus!
