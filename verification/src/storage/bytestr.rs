//! Byte storage that is known to hold UTF-8.

use vstd::prelude::*;
use vstd::utf8::{decode_utf8, encode_utf8, valid_utf8};
use crate::storage::marker::ByteStorage;
use crate::storage::shared::{shared_copy_from_slice, shared_from_static, shared_from_vec};
use crate::storage::utf8::{check_utf8, text_of_utf8, utf8_check, Utf8Error};

verus! {

broadcast use vstd::utf8::encode_utf8_valid_utf8;

/// A byte buffer whose content is valid UTF-8.
#[derive(Debug, PartialEq, Eq, PartialOrd, Ord, Hash)]
pub struct ByteStr<B: ByteStorage> {
    bytes: B,
}

/// Cloning storage of type `B` keeps its bytes.
pub open spec fn clone_keeps_content<B: ByteStorage + Clone>() -> bool {
    forall|a: B, b: B| cloned::<B>(a, b) ==> b.content() == a.content()
}

impl<B: ByteStorage + Clone> Clone for ByteStr<B> {
    /// A string over a clone of the storage.
    fn clone(&self) -> (r: Self)
        ensures
            clone_keeps_content::<B>() ==> r@ == self@ && r.wf() == self.wf(),
    {
        let bytes = self.bytes.clone();
        assert(cloned::<B>(self.bytes, bytes));
        ByteStr { bytes }
    }
}

/// `String::into_bytes`: the string's UTF-8 encoding, as a vector.
#[verifier::external_body]
fn string_into_bytes(value: String) -> (r: Vec<u8>)
    ensures
        r@ == encode_utf8(value@),
{
    value.into_bytes()
}

impl<B: ByteStorage> ByteStr<B> {
    /// Whether the bytes are valid UTF-8, as every string made by this
    /// library's constructors is.
    pub open spec fn wf(&self) -> bool {
        valid_utf8(self@)
    }

    /// The bytes of the string.
    pub closed spec fn view(&self) -> Seq<u8> {
        self.bytes.content()
    }

    /// Wraps `bytes` if they are valid UTF-8, and says why not otherwise.
    pub fn from_utf8(bytes: B) -> (r: Result<Self, Utf8Error>)
        ensures
            match utf8_check(bytes.content()) {
                Ok(_) => r matches Ok(s) && s@ == bytes.content() && s.wf(),
                Err(e) => r == Err::<Self, Utf8Error>(e),
            },
    {
        match check_utf8(bytes.as_slice()) {
            Ok(_) => Ok(ByteStr { bytes }),
            Err(e) => Err(e),
        }
    }

    /// Wraps `bytes` without looking at them; the caller vouches for them.
    pub fn from_utf8_unchecked(bytes: B) -> (r: Self)
        requires
            valid_utf8(bytes.content()),
        ensures
            r@ == bytes.content(),
            r.wf(),
    {
        ByteStr { bytes }
    }

    /// Gives the storage back.
    pub fn leak_bytes(self) -> (r: B)
        ensures
            r.content() == self@,
    {
        self.bytes
    }

    /// The bytes of the string, borrowed.
    pub fn as_bytes(&self) -> (r: &[u8])
        ensures
            r@ == self@,
    {
        self.bytes.as_slice()
    }

    /// The text of the string.
    pub fn as_str(&self) -> (r: &str)
        requires
            self.wf(),
        ensures
            r@ == decode_utf8(self@),
    {
        text_of_utf8(self.bytes.as_slice())
    }

    /// Moves the string into another kind of storage. `f` must keep the
    /// bytes as they are.
    pub fn map_bytes<B2: ByteStorage, F: Fn(B) -> B2>(self, f: F) -> (r: ByteStr<B2>)
        requires
            forall|b: B| call_requires(f, (b,)),
            forall|b: B, b2: B2| call_ensures(f, (b,), b2) ==> b2.content() == b.content(),
        ensures
            r@ == self@,
            r.wf() == self.wf(),
    {
        ByteStr { bytes: f(self.bytes) }
    }
}

impl<B: ByteStorage> AsRef<[u8]> for ByteStr<B> {
    /// The bytes of the string, borrowed.
    fn as_ref(&self) -> (r: &[u8])
        ensures
            r@ == self@,
    {
        self.bytes.as_slice()
    }
}

impl<B: ByteStorage> ByteStorage for ByteStr<B> {
    open spec fn content(&self) -> Seq<u8> {
        self@
    }

    fn as_slice(&self) -> (r: &[u8]) {
        self.as_bytes()
    }
}

impl ByteStr<bytes::Bytes> {
    /// A string over a shared buffer that points at static text.
    pub fn from_static(value: &'static str) -> (r: Self)
        ensures
            r@ == encode_utf8(value@),
            r.wf(),
    {
        ByteStr { bytes: shared_from_static(value.as_bytes()) }
    }
}

impl<'a> vstd::std_specs::convert::FromSpecImpl<&'a str> for ByteStr<&'a [u8]> {
    open spec fn obeys_from_spec() -> bool {
        false
    }

    open spec fn from_spec(v: &'a str) -> Self {
        arbitrary()
    }
}

impl<'a> From<&'a str> for ByteStr<&'a [u8]> {
    /// A string that borrows the bytes of `value`.
    fn from(value: &'a str) -> (r: Self)
        ensures
            r@ == encode_utf8(value@),
            r.wf(),
    {
        ByteStr { bytes: value.as_bytes() }
    }
}

impl vstd::std_specs::convert::FromSpecImpl<String> for ByteStr<Vec<u8>> {
    open spec fn obeys_from_spec() -> bool {
        false
    }

    open spec fn from_spec(v: String) -> Self {
        arbitrary()
    }
}

impl From<String> for ByteStr<Vec<u8>> {
    /// A string that takes over the bytes of `value`.
    fn from(value: String) -> (r: Self)
        ensures
            r@ == encode_utf8(value@),
            r.wf(),
    {
        ByteStr { bytes: string_into_bytes(value) }
    }
}

impl<'a> vstd::std_specs::convert::FromSpecImpl<&'a str> for ByteStr<bytes::Bytes> {
    open spec fn obeys_from_spec() -> bool {
        false
    }

    open spec fn from_spec(v: &'a str) -> Self {
        arbitrary()
    }
}

impl<'a> From<&'a str> for ByteStr<bytes::Bytes> {
    /// A string over a shared buffer holding a copy of `value`.
    fn from(value: &'a str) -> (r: Self)
        ensures
            r@ == encode_utf8(value@),
            r.wf(),
    {
        ByteStr { bytes: shared_copy_from_slice(value.as_bytes()) }
    }
}

impl vstd::std_specs::convert::FromSpecImpl<String> for ByteStr<bytes::Bytes> {
    open spec fn obeys_from_spec() -> bool {
        false
    }

    open spec fn from_spec(v: String) -> Self {
        arbitrary()
    }
}

impl From<String> for ByteStr<bytes::Bytes> {
    /// A string over a shared buffer that takes over the bytes of `value`.
    fn from(value: String) -> (r: Self)
        ensures
            r@ == encode_utf8(value@),
            r.wf(),
    {
        ByteStr { bytes: shared_from_vec(string_into_bytes(value)) }
    }
}

} // verus!
