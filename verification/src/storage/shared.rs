//! The reference-counted buffer `bytes::Bytes`, as far as this library uses
//! it. Nothing in this file is proved: each function states what the `bytes`
//! crate does.

use vstd::prelude::*;

verus! {

/// `bytes::Bytes`: a cheaply cloneable handle onto a run of bytes. The
/// library carries it around and reaches its bytes through the functions
/// below.
#[verifier::external_type_specification]
#[verifier::external_body]
pub struct ExBytes(bytes::Bytes);

/// The bytes that a `bytes::Bytes` handle gives access to, in order.
pub uninterp spec fn shared_content(b: bytes::Bytes) -> Seq<u8>;

/// `Bytes::as_ref`: the handle's bytes as a slice.
#[verifier::external_body]
pub(crate) fn shared_as_slice(b: &bytes::Bytes) -> (r: &[u8])
    ensures
        r@ == shared_content(*b),
{
    b.as_ref()
}

/// `Bytes::len`: the number of bytes the handle gives access to.
#[verifier::external_body]
pub(crate) fn shared_len(b: &bytes::Bytes) -> (r: usize)
    ensures
        r == shared_content(*b).len(),
{
    b.len()
}

/// `Bytes::slice`: a new handle onto the bytes from `start` up to `end`.
/// The crate panics unless `start <= end <= len`, so that is required.
#[verifier::external_body]
pub(crate) fn shared_slice(b: &bytes::Bytes, start: usize, end: usize) -> (r: bytes::Bytes)
    requires
        start <= end <= shared_content(*b).len(),
    ensures
        shared_content(r) == shared_content(*b).subrange(start as int, end as int),
{
    b.slice(start..end)
}

/// `Bytes::from_static`: a handle onto a static slice, holding its bytes.
#[verifier::external_body]
pub(crate) fn shared_from_static(bytes: &'static [u8]) -> (r: bytes::Bytes)
    ensures
        shared_content(r) == bytes@,
{
    bytes::Bytes::from_static(bytes)
}

/// `Bytes::copy_from_slice`: a handle onto a fresh copy of the slice.
#[verifier::external_body]
pub(crate) fn shared_copy_from_slice(data: &[u8]) -> (r: bytes::Bytes)
    ensures
        shared_content(r) == data@,
{
    bytes::Bytes::copy_from_slice(data)
}

/// `Bytes::from(Vec<u8>)`: a handle that takes over the vector's bytes.
#[verifier::external_body]
pub(crate) fn shared_from_vec(data: Vec<u8>) -> (r: bytes::Bytes)
    ensures
        shared_content(r) == data@,
{
    bytes::Bytes::from(data)
}

} // verus!
