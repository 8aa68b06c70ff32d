//! The capability shared by everything that stores bytes.

use vstd::prelude::*;
use crate::storage::shared::{shared_as_slice, shared_content};

verus! {

/// A value that owns or borrows a stable run of bytes.
///
/// `content` is the mathematical view of those bytes; `as_slice` hands them
/// out. Implementors promise that the bytes never change behind a shared
/// reference.
pub trait ByteStorage {
    spec fn content(&self) -> Seq<u8>;

    fn as_slice(&self) -> (r: &[u8])
        ensures
            r@ == self.content(),
    ;
}

impl ByteStorage for [u8] {
    open spec fn content(&self) -> Seq<u8> {
        self@
    }

    fn as_slice(&self) -> (r: &[u8]) {
        self
    }
}

impl<const N: usize> ByteStorage for [u8; N] {
    open spec fn content(&self) -> Seq<u8> {
        self@
    }

    fn as_slice(&self) -> (r: &[u8]) {
        self.as_slice()
    }
}

impl ByteStorage for Vec<u8> {
    open spec fn content(&self) -> Seq<u8> {
        self@
    }

    fn as_slice(&self) -> (r: &[u8]) {
        self.as_slice()
    }
}

impl ByteStorage for str {
    open spec fn content(&self) -> Seq<u8> {
        vstd::utf8::encode_utf8(self@)
    }

    fn as_slice(&self) -> (r: &[u8]) {
        self.as_bytes()
    }
}

impl ByteStorage for String {
    open spec fn content(&self) -> Seq<u8> {
        vstd::utf8::encode_utf8(self@)
    }

    fn as_slice(&self) -> (r: &[u8]) {
        self.as_str().as_bytes()
    }
}

impl ByteStorage for bytes::Bytes {
    open spec fn content(&self) -> Seq<u8> {
        shared_content(*self)
    }

    fn as_slice(&self) -> (r: &[u8]) {
        shared_as_slice(self)
    }
}

impl<'a, B: ?Sized + ByteStorage> ByteStorage for &'a B {
    open spec fn content(&self) -> Seq<u8> {
        (**self).content()
    }

    fn as_slice(&self) -> (r: &[u8]) {
        (**self).as_slice()
    }
}

impl<'a, B: ?Sized + ByteStorage> ByteStorage for &'a mut B {
    open spec fn content(&self) -> Seq<u8> {
        (**self).content()
    }

    fn as_slice(&self) -> (r: &[u8]) {
        (**self).as_slice()
    }
}

impl<B: ?Sized + ByteStorage> ByteStorage for Box<B> {
    open spec fn content(&self) -> Seq<u8> {
        (**self).content()
    }

    fn as_slice(&self) -> (r: &[u8]) {
        (**self).as_slice()
    }
}

} // verus!
