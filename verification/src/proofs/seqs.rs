//! Byte runs at positions of a byte sequence.

use vstd::prelude::*;

verus! {

/// The bytes `x` stand in `s` from `pos` on.
pub open spec fn at(s: Seq<u8>, pos: int, x: Seq<u8>) -> bool {
    &&& 0 <= pos
    &&& pos + x.len() <= s.len()
    &&& s.subrange(pos, pos + x.len()) == x
}

/// Two runs stand one after the other exactly if their concatenation
/// stands at the place of the first.
pub proof fn lemma_at_concat(s: Seq<u8>, pos: int, x: Seq<u8>, y: Seq<u8>)
    ensures
        at(s, pos, x + y) <==> at(s, pos, x) && at(s, pos + x.len(), y),
{
    if at(s, pos, x + y) {
        assert(s.subrange(pos, pos + x.len()) =~= (x + y).subrange(0, x.len() as int));
        assert((x + y).subrange(0, x.len() as int) =~= x);
        assert(s.subrange(pos + x.len(), pos + x.len() + y.len()) =~= (x + y).subrange(
            x.len() as int,
            (x + y).len() as int,
        ));
        assert((x + y).subrange(x.len() as int, (x + y).len() as int) =~= y);
    }
    if at(s, pos, x) && at(s, pos + x.len(), y) {
        assert(s.subrange(pos, pos + (x + y).len()) =~= s.subrange(pos, pos + x.len())
            + s.subrange(pos + x.len(), pos + x.len() + y.len()));
    }
}

/// A run of one byte stands where that byte is.
pub proof fn lemma_at_one(s: Seq<u8>, pos: int, b: u8)
    ensures
        at(s, pos, seq![b]) <==> 0 <= pos < s.len() && s[pos] == b,
{
    if at(s, pos, seq![b]) {
        assert(s.subrange(pos, pos + 1)[0] == b);
    }
    if 0 <= pos < s.len() && s[pos] == b {
        assert(s.subrange(pos, pos + 1) =~= seq![b]);
    }
}

/// The empty run stands at every position of the sequence.
pub proof fn lemma_at_empty(s: Seq<u8>, pos: int)
    ensures
        at(s, pos, Seq::<u8>::empty()) <==> 0 <= pos <= s.len(),
{
    if 0 <= pos <= s.len() {
        assert(s.subrange(pos, pos) =~= Seq::<u8>::empty());
    }
}

} // verus!
