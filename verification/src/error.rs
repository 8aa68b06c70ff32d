//! What can go wrong: malformed input, and states that only a defect in the
//! codec could reach.

use vstd::prelude::*;
use crate::header::{H4, L4};
use crate::storage::input::ReadError;
use crate::storage::utf8::Utf8Error;

verus! {

/// A state that no input can drive the codec into.
#[derive(Clone, Debug, PartialEq, Eq)]
pub enum Fatal {
    /// A nibble that is no `H4`.
    H4(u8),
    /// A nibble that is no `L4`.
    L4(u8),
    /// A nibble that is no `Ext1`.
    Ext1(u8),
    /// A family that is not numeric was asked for its byte count.
    H4ToN(H4),
    /// A byte count outside `1..=8` was asked for its family.
    NToH4(usize),
    /// A family that is not numeric was asked for its symbol.
    H4ToExt1(H4),
    /// A quantity that does not fit the machine's sizes.
    ToSize(u64),
    /// A size that does not fit the format's quantities.
    FromSize(usize),
    /// A slice of the scalar buffer had the wrong length.
    BytevarSlicing,
}

/// Why bytes could not be decoded.
#[derive(Clone, Debug, PartialEq, Eq)]
pub enum Error {
    /// `expected` bytes were needed and only `rest` were left.
    TooShort { rest: usize, expected: usize },
    /// A value was decoded and `rest` bytes were left over.
    TooLong { rest: usize },
    /// A length above `SIZE_MAX`.
    TooLongLen(usize),
    /// A read so long that its end cannot be addressed.
    TooLongReadLen(usize),
    /// A byte that is no type tag.
    Tag(u8),
    /// A magnitude that the signed type cannot hold.
    BytevarIntSign { buf: [u8; 8] },
    /// A scalar of `nlen` bytes was given `len` bytes.
    BytevarLongerThanType { len: usize, nlen: usize, buf: [u8; 8] },
    /// A scalar that needs `exp_len` bytes was given `len` bytes.
    BytevarLongerThanExpected { len: usize, nlen: usize, exp_len: usize, buf: [u8; 8] },
    /// A negative sign on the magnitude zero.
    BytevarNegZero { buf: [u8; 8] },
    /// A quantity written in length class `l4` that fits `expected_l4`.
    ExtvarTooLong { l4: L4, expected_l4: L4, u: u64 },
    /// A header under `L4::EXT2`, which stands for nothing.
    Ext2NotImplemented,
    /// A string that is not UTF-8.
    Utf8(Utf8Error),
    /// A defect of the codec.
    Fatal(Fatal),
}

impl Error {
    /// The decoding error that a failed read amounts to.
    pub open spec fn of_read(e: ReadError) -> Error {
        match e {
            ReadError::TooShort { rest, expected } => Error::TooShort { rest, expected },
            ReadError::TooLong { rest } => Error::TooLong { rest },
            ReadError::TooLongReadLen(n) => Error::TooLongReadLen(n),
        }
    }

    /// The decoding error that a failed read amounts to.
    pub fn from_read(e: ReadError) -> (r: Error)
        ensures
            r == Error::of_read(e),
    {
        match e {
            ReadError::TooShort { rest, expected } => Error::TooShort { rest, expected },
            ReadError::TooLong { rest } => Error::TooLong { rest },
            ReadError::TooLongReadLen(n) => Error::TooLongReadLen(n),
        }
    }
}

} // verus!
