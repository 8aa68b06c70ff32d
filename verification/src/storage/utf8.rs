//! UTF-8 validation of byte runs.

use vstd::prelude::*;
use vstd::utf8::{decode_utf8, valid_utf8};

verus! {

/// Why a run of bytes is not UTF-8.
#[derive(Clone, Copy, Debug, PartialEq, Eq)]
pub struct Utf8Error {
    /// Length of the longest prefix that is valid UTF-8.
    pub valid_up_to: usize,
    /// Length of the offending byte sequence after that prefix, or `None`
    /// when the input ends in the middle of a character.
    pub error_len: Option<usize>,
}

/// The `error_len` that the standard library reports for a byte run that is
/// not UTF-8.
pub uninterp spec fn utf8_error_len(bytes: Seq<u8>) -> Option<usize>;

/// `k` is the length of the longest UTF-8 prefix of `bytes`.
pub open spec fn is_utf8_valid_up_to(bytes: Seq<u8>, k: int) -> bool {
    &&& 0 <= k <= bytes.len()
    &&& valid_utf8(bytes.subrange(0, k))
    &&& forall|j: int| k < j <= bytes.len() ==> !valid_utf8(#[trigger] bytes.subrange(0, j))
}

/// The length of the longest UTF-8 prefix of `bytes`.
pub open spec fn utf8_valid_up_to(bytes: Seq<u8>) -> int {
    choose|k: int| is_utf8_valid_up_to(bytes, k)
}

/// The error that checking `bytes` reports when they are not UTF-8.
pub open spec fn utf8_error(bytes: Seq<u8>) -> Utf8Error {
    Utf8Error { valid_up_to: utf8_valid_up_to(bytes) as usize, error_len: utf8_error_len(bytes) }
}

/// `core::str::from_utf8`. It succeeds exactly on valid UTF-8, with the
/// text whose encoding the bytes are; otherwise the error carries what
/// `Utf8Error::valid_up_to` and `Utf8Error::error_len` report of the
/// standard library's error.
#[verifier::external_body]
fn str_from_utf8(bytes: &[u8]) -> (r: Result<&str, Utf8Error>)
    ensures
        r is Ok <==> valid_utf8(bytes@),
        r matches Ok(s) ==> s@ == decode_utf8(bytes@),
        r matches Err(e) ==> is_utf8_valid_up_to(bytes@, e.valid_up_to as int),
        r matches Err(e) ==> e.error_len == utf8_error_len(bytes@),
{
    match core::str::from_utf8(bytes) {
        Ok(s) => Ok(s),
        Err(e) => Err(Utf8Error { valid_up_to: e.valid_up_to(), error_len: e.error_len() }),
    }
}

/// What checking `bytes` for UTF-8 answers.
pub open spec fn utf8_check(bytes: Seq<u8>) -> Result<(), Utf8Error> {
    if valid_utf8(bytes) {
        Ok(())
    } else {
        Err(utf8_error(bytes))
    }
}

/// Checks that `bytes` is valid UTF-8.
pub fn check_utf8(bytes: &[u8]) -> (r: Result<(), Utf8Error>)
    ensures
        r == utf8_check(bytes@),
{
    match str_from_utf8(bytes) {
        Ok(_) => Ok(()),
        Err(e) => Err(e),
    }
}

/// The text that valid UTF-8 encodes.
pub fn text_of_utf8(bytes: &[u8]) -> (r: &str)
    requires
        valid_utf8(bytes@),
    ensures
        r@ == decode_utf8(bytes@),
{
    match str_from_utf8(bytes) {
        Ok(s) => s,
        Err(_) => vstd::pervasive::unreached(),
    }
}

} // verus!
