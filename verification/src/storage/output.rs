//! Sinks that encoded bytes are appended to.

use vstd::prelude::*;
use crate::storage::marker::ByteStorage;

verus! {

/// A byte sink: it starts empty, grows at the end, and is finally turned
/// into the storage it was filling.
pub trait Output: Sized {
    /// What the sink becomes when writing is over.
    type Storage: ByteStorage;

    /// Everything written so far, in order.
    spec fn written(&self) -> Seq<u8>;

    /// A sink that nothing has been written to.
    fn new() -> (r: Self)
        ensures
            r.written() == Seq::<u8>::empty(),
    ;

    /// Appends one byte.
    fn byte(&mut self, n: u8)
        ensures
            final(self).written() == old(self).written().push(n),
    ;

    /// Appends a run of bytes.
    fn bytes(&mut self, bytes: &[u8])
        ensures
            final(self).written() == old(self).written() + bytes@,
    ;

    /// Ends writing and hands out the storage.
    fn leak(self) -> (r: Self::Storage)
        ensures
            r.content() == self.written(),
            r.content().len() <= usize::MAX,
    ;
}

/// A sink that grows a vector.
pub struct VecOutput {
    bytes: Vec<u8>,
}

impl Default for VecOutput {
    fn default() -> (r: Self)
        ensures
            r.written() == Seq::<u8>::empty(),
    {
        VecOutput { bytes: Vec::new() }
    }
}

impl Output for VecOutput {
    type Storage = Vec<u8>;

    closed spec fn written(&self) -> Seq<u8> {
        self.bytes@
    }

    fn new() -> (r: Self) {
        VecOutput { bytes: Vec::new() }
    }

    fn byte(&mut self, n: u8) {
        self.bytes.push(n);
    }

    fn bytes(&mut self, bytes: &[u8]) {
        self.bytes.extend_from_slice(bytes);
    }

    fn leak(self) -> (r: Vec<u8>) {
        assert(self.bytes@.len() == self.bytes.len());
        self.bytes
    }
}

} // verus!
