//! Sources of bytes, and a cursor that reads them strictly forward without
//! ever panicking.

use vstd::prelude::*;
use vstd::slice::slice_subrange;
use core::ops::Range;
use crate::storage::marker::ByteStorage;
use crate::storage::shared::{shared_as_slice, shared_len, shared_slice};

verus! {

/// A byte source that can be measured, indexed and cut into pieces.
///
/// None of the operations panics: going past the end is answered with `None`.
pub trait Input: Sized + ByteStorage {
    /// What the input was made from and can be turned back into.
    type Storage: ByteStorage;

    /// An input over all of `storage`.
    fn from_storage(storage: Self::Storage) -> (r: Self)
        ensures
            r.content() == storage.content(),
            r.content().len() <= usize::MAX,
    ;

    /// The byte at `pos`, if there is one.
    fn byte(&self, pos: usize) -> (r: Option<&u8>)
        ensures
            self.content().len() <= usize::MAX,
            r == (if pos < self.content().len() {
                Some(&self.content()[pos as int])
            } else {
                None
            }),
    ;

    /// The input restricted to `range`, if the range lies inside it.
    fn bytes(&self, range: Range<usize>) -> (r: Option<Self>)
        ensures
            range.start <= range.end <= self.content().len() ==> (r matches Some(part)
                && part.content() == self.content().subrange(
                range.start as int,
                range.end as int,
            )),
            !(range.start <= range.end <= self.content().len()) ==> r is None,
    ;

    /// The number of bytes.
    fn len(&self) -> (r: usize)
        ensures
            r == self.content().len(),
    ;

    /// Whether there are no bytes.
    fn is_empty(&self) -> (r: bool)
        ensures
            r == (self.content().len() == 0),
    {
        self.len() == 0
    }

    /// Gives up the input for its storage.
    fn leak(self) -> (r: Self::Storage)
        ensures
            r.content() == self.content(),
    ;

    /// Copies the input, which must hold exactly `N` bytes, into an array.
    fn leak_as_array<const N: usize>(self) -> (r: [u8; N])
        requires
            self.content().len() == N,
        ensures
            r@ == self.content(),
    ;
}

/// Copies a slice of exactly `N` bytes into an array.
pub fn array_from_slice<const N: usize>(bytes: &[u8]) -> (r: [u8; N])
    requires
        bytes@.len() == N,
    ensures
        r@ == bytes@,
{
    let mut r = [0u8;N];
    let mut i: usize = 0;
    while i < N
        invariant
            i <= N,
            bytes@.len() == N,
            forall|j: int| 0 <= j < i ==> r@[j] == bytes@[j],
        decreases N - i,
    {
        r[i] = bytes[i];
        i += 1;
    }
    r
}

/// An input that borrows a slice.
pub struct SliceInput<'a> {
    bytes: &'a [u8],
}

impl<'a> ByteStorage for SliceInput<'a> {
    closed spec fn content(&self) -> Seq<u8> {
        self.bytes@
    }

    fn as_slice(&self) -> (r: &[u8]) {
        self.bytes
    }
}

impl<'a> vstd::std_specs::convert::FromSpecImpl<&'a [u8]> for SliceInput<'a> {
    open spec fn obeys_from_spec() -> bool {
        true
    }

    closed spec fn from_spec(bytes: &'a [u8]) -> Self {
        SliceInput { bytes }
    }
}

impl<'a> From<&'a [u8]> for SliceInput<'a> {
    /// An input over all of `bytes`.
    fn from(bytes: &'a [u8]) -> (r: Self)
        ensures
            r.content() == bytes@,
    {
        SliceInput { bytes }
    }
}

impl<'a> Input for SliceInput<'a> {
    type Storage = &'a [u8];

    fn from_storage(storage: &'a [u8]) -> (r: Self) {
        assert(storage@.len() == vstd::slice::spec_slice_len(storage));
        SliceInput { bytes: storage }
    }

    fn byte(&self, pos: usize) -> (r: Option<&u8>) {
        self.bytes.get(pos)
    }

    fn bytes(&self, range: Range<usize>) -> (r: Option<Self>) {
        if range.start > range.end || range.end > self.bytes.len() {
            None
        } else {
            Some(SliceInput { bytes: slice_subrange(self.bytes, range.start, range.end) })
        }
    }

    fn len(&self) -> (r: usize) {
        self.bytes.len()
    }

    fn leak(self) -> (r: &'a [u8]) {
        self.bytes
    }

    fn leak_as_array<const N: usize>(self) -> (r: [u8; N]) {
        array_from_slice(self.bytes)
    }
}

/// An input over a reference-counted buffer.
pub struct BytesInput {
    bytes: bytes::Bytes,
}

impl ByteStorage for BytesInput {
    closed spec fn content(&self) -> Seq<u8> {
        self.bytes.content()
    }

    fn as_slice(&self) -> (r: &[u8]) {
        shared_as_slice(&self.bytes)
    }
}

impl vstd::std_specs::convert::FromSpecImpl<bytes::Bytes> for BytesInput {
    open spec fn obeys_from_spec() -> bool {
        true
    }

    closed spec fn from_spec(bytes: bytes::Bytes) -> Self {
        BytesInput { bytes }
    }
}

impl From<bytes::Bytes> for BytesInput {
    /// An input over all of `bytes`.
    fn from(bytes: bytes::Bytes) -> (r: Self)
        ensures
            r.content() == bytes.content(),
    {
        BytesInput { bytes }
    }
}

impl Input for BytesInput {
    type Storage = bytes::Bytes;

    fn from_storage(storage: bytes::Bytes) -> (r: Self) {
        // Measuring the buffer shows that its length is a machine size.
        let _ = shared_len(&storage);
        BytesInput { bytes: storage }
    }

    fn byte(&self, pos: usize) -> (r: Option<&u8>) {
        shared_as_slice(&self.bytes).get(pos)
    }

    fn bytes(&self, range: Range<usize>) -> (r: Option<Self>) {
        if range.start > range.end || range.end > shared_len(&self.bytes) {
            None
        } else {
            Some(BytesInput { bytes: shared_slice(&self.bytes, range.start, range.end) })
        }
    }

    fn len(&self) -> (r: usize) {
        shared_len(&self.bytes)
    }

    fn leak(self) -> (r: bytes::Bytes) {
        self.bytes
    }

    fn leak_as_array<const N: usize>(self) -> (r: [u8; N]) {
        array_from_slice(shared_as_slice(&self.bytes))
    }
}

/// Why a read could not be served.
#[derive(Clone, Debug, PartialEq, Eq)]
pub enum ReadError {
    /// `expected` bytes were asked for and only `rest` were left.
    TooShort { rest: usize, expected: usize },
    /// The input was meant to be used up and `rest` bytes were left.
    TooLong { rest: usize },
    /// A read so long that its end cannot be addressed.
    TooLongReadLen(usize),
}

/// Where a read of `size` bytes at `pos` ends, or why it cannot be served.
pub open spec fn read_end(input: Seq<u8>, pos: int, size: usize) -> Result<int, ReadError> {
    if pos + size > usize::MAX {
        Err(ReadError::TooLongReadLen(size))
    } else if pos + size > input.len() {
        Err(ReadError::TooShort { rest: (input.len() - pos) as usize, expected: size })
    } else {
        Ok(pos + size)
    }
}

/// A cursor over an input. It only moves forward and never past the end.
pub struct Reader<I: Input> {
    input: I,
    pos: usize,
}

impl<I: Input> Reader<I> {
    #[verifier::type_invariant]
    spec fn within(&self) -> bool {
        self.pos <= self.input.content().len() <= usize::MAX
    }

    /// All the bytes of the input, read or not.
    pub closed spec fn input(&self) -> Seq<u8> {
        self.input.content()
    }

    /// How many bytes have been read.
    pub closed spec fn pos(&self) -> int {
        self.pos as int
    }

    /// A reader at the start of `bytes`.
    pub fn new(bytes: I::Storage) -> (r: Self)
        ensures
            r.input() == bytes.content(),
            r.pos() == 0,
    {
        Reader { input: I::from_storage(bytes), pos: 0 }
    }

    /// How many bytes are left to read.
    pub fn rest_len(&self) -> (r: usize)
        ensures
            0 <= self.pos() <= self.input().len() <= usize::MAX,
            r == self.input().len() - self.pos(),
    {
        proof {
            use_type_invariant(self);
        }
        self.input.len() - self.pos
    }

    /// Reads the next `size` bytes as an input of their own.
    pub fn split_out(&mut self, size: usize) -> (r: Result<I, ReadError>)
        ensures
            final(self).input() == old(self).input(),
            0 <= old(self).pos() <= final(self).pos() <= old(self).input().len() <= usize::MAX,
            match read_end(old(self).input(), old(self).pos(), size) {
                Ok(end) => r matches Ok(part) && final(self).pos() == end && part.content() == old(
                    self,
                ).input().subrange(old(self).pos(), end),
                Err(e) => r == Err::<I, ReadError>(e) && final(self).pos() == old(self).pos(),
            },
    {
        proof {
            use_type_invariant(&*self);
        }
        let new_pos = match self.pos.checked_add(size) {
            Some(p) => p,
            None => {
                return Err(ReadError::TooLongReadLen(size));
            },
        };
        let ret = match self.input.bytes(self.pos..new_pos) {
            Some(part) => part,
            None => {
                return Err(ReadError::TooShort { rest: self.rest_len(), expected: size });
            },
        };
        self.pos = new_pos;
        Ok(ret)
    }

    /// Reads the next byte.
    pub fn read_byte(&mut self) -> (r: Result<u8, ReadError>)
        ensures
            final(self).input() == old(self).input(),
            0 <= old(self).pos() <= final(self).pos() <= old(self).input().len() <= usize::MAX,
            old(self).pos() < old(self).input().len() ==> (r == Ok::<u8, ReadError>(
                old(self).input()[old(self).pos()],
            ) && final(self).pos() == old(self).pos() + 1),
            old(self).pos() >= old(self).input().len() ==> (r == Err::<u8, ReadError>(
                ReadError::TooShort { rest: 0, expected: 1 },
            ) && final(self).pos() == old(self).pos()),
    {
        proof {
            use_type_invariant(&*self);
        }
        match self.input.byte(self.pos) {
            Some(b) => {
                let b = *b;
                self.pos += 1;
                Ok(b)
            },
            None => Err(ReadError::TooShort { rest: 0, expected: 1 }),
        }
    }

    /// Succeeds if everything has been read.
    pub fn finish(self) -> (r: Result<(), ReadError>)
        ensures
            r == (if self.pos() == self.input().len() {
                Ok::<(), ReadError>(())
            } else {
                Err(ReadError::TooLong { rest: (self.input().len() - self.pos()) as usize })
            }),
    {
        let rest = self.rest_len();
        if rest == 0 {
            Ok(())
        } else {
            Err(ReadError::TooLong { rest })
        }
    }

    /// Everything that has not been read.
    pub fn into_rest(self) -> (r: I)
        ensures
            r.content() == self.input().subrange(self.pos(), self.input().len() as int),
    {
        let mut this = self;
        proof {
            use_type_invariant(&this);
        }
        let rest = this.rest_len();
        match this.split_out(rest) {
            Ok(part) => part,
            Err(_) => vstd::pervasive::unreached(),
        }
    }

    /// Reads the next `N` bytes into an array.
    pub fn split_out_array<const N: usize>(&mut self) -> (r: Result<[u8; N], ReadError>)
        ensures
            final(self).input() == old(self).input(),
            0 <= old(self).pos() <= final(self).pos() <= old(self).input().len() <= usize::MAX,
            match read_end(old(self).input(), old(self).pos(), N) {
                Ok(end) => r matches Ok(a) && final(self).pos() == end && a@ == old(
                    self,
                ).input().subrange(old(self).pos(), end),
                Err(e) => r == Err::<[u8; N], ReadError>(e) && final(self).pos() == old(self).pos(),
            },
    {
        match self.split_out(N) {
            Ok(part) => Ok(part.leak_as_array()),
            Err(e) => Err(e),
        }
    }

    /// Reads exactly as many bytes as `buf` holds, into `buf`.
    pub fn read_exact(&mut self, buf: &mut [u8])
        -> (r: Result<(), ReadError>)
        ensures
            final(self).input() == old(self).input(),
            0 <= old(self).pos() <= final(self).pos() <= old(self).input().len() <= usize::MAX,
            final(buf)@.len() == old(buf)@.len(),
            match read_end(old(self).input(), old(self).pos(), old(buf)@.len() as usize) {
                Ok(end) => r is Ok && final(self).pos() == end && final(buf)@ == old(
                    self,
                ).input().subrange(old(self).pos(), end),
                Err(e) => r == Err::<(), ReadError>(e) && final(self).pos() == old(self).pos()
                    && final(buf)@ == old(buf)@,
            },
    {
        let n = buf.len();
        let src = match self.split_out(n) {
            Ok(part) => part,
            Err(e) => {
                return Err(e);
            },
        };
        let bytes = src.as_slice();
        let mut i: usize = 0;
        while i < n
            invariant
                i <= n,
                n == bytes@.len(),
                n == buf@.len(),
                forall|j: int| 0 <= j < i ==> buf@[j] == bytes@[j],
            decreases n - i,
        {
            buf[i] = bytes[i];
            i += 1;
        }
        Ok(())
    }

    /// Reads the next `sz` bytes and hands out their storage.
    pub fn bytes(&mut self, sz: usize) -> (r: Result<I::Storage, ReadError>)
        ensures
            final(self).input() == old(self).input(),
            0 <= old(self).pos() <= final(self).pos() <= old(self).input().len() <= usize::MAX,
            match read_end(old(self).input(), old(self).pos(), sz) {
                Ok(end) => r matches Ok(b) && final(self).pos() == end && b.content() == old(
                    self,
                ).input().subrange(old(self).pos(), end),
                Err(e) => r == Err::<I::Storage, ReadError>(e) && final(self).pos() == old(
                    self,
                ).pos(),
            },
    {
        match self.split_out(sz) {
            Ok(part) => Ok(part.leak()),
            Err(e) => Err(e),
        }
    }

    /// Reads the next `N` bytes into an array.
    pub fn bytes_sized<const N: usize>(&mut self) -> (r: Result<[u8; N], ReadError>)
        ensures
            final(self).input() == old(self).input(),
            0 <= old(self).pos() <= final(self).pos() <= old(self).input().len() <= usize::MAX,
            match read_end(old(self).input(), old(self).pos(), N) {
                Ok(end) => r matches Ok(a) && final(self).pos() == end && a@ == old(
                    self,
                ).input().subrange(old(self).pos(), end),
                Err(e) => r == Err::<[u8; N], ReadError>(e) && final(self).pos() == old(self).pos(),
            },
    {
        self.split_out_array()
    }
}

} // verus!
