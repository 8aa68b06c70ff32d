//! Big-endian byte representations of the unsigned integers.

use vstd::prelude::*;

verus! {

/// `256` to the power `k`: how many numbers `k` bytes can tell apart.
pub open spec fn pow256(k: nat) -> nat
    decreases k,
{
    if k == 0 {
        1
    } else {
        256 * pow256((k - 1) as nat)
    }
}

/// The `len` low bytes of `n`, most significant first.
pub open spec fn be_bytes(n: nat, len: nat) -> Seq<u8>
    decreases len,
{
    if len == 0 {
        Seq::empty()
    } else {
        be_bytes(n / 256, (len - 1) as nat).push((n % 256) as u8)
    }
}

/// The number that a run of bytes stands for, most significant first.
pub open spec fn be_value(b: Seq<u8>) -> nat
    decreases b.len(),
{
    if b.len() == 0 {
        0
    } else {
        be_value(b.drop_last()) * 256 + b.last() as nat
    }
}

/// The powers of `256` that the integer widths reach.
pub proof fn lemma_pow256_values()
    ensures
        pow256(0) == 1,
        pow256(1) == 0x100,
        pow256(2) == 0x1_0000,
        pow256(4) == 0x1_0000_0000,
        pow256(8) == 0x1_0000_0000_0000_0000,
{
    reveal_with_fuel(pow256, 9);
}

/// `be_bytes` gives as many bytes as it is asked for.
pub proof fn lemma_be_bytes_len(n: nat, len: nat)
    ensures
        be_bytes(n, len).len() == len,
    decreases len,
{
    if len > 0 {
        lemma_be_bytes_len(n / 256, (len - 1) as nat);
    }
}

/// A run of `k` bytes stands for a number below `256^k`.
pub proof fn lemma_be_value_bound(b: Seq<u8>)
    ensures
        be_value(b) < pow256(b.len()),
    decreases b.len(),
{
    if b.len() > 0 {
        lemma_be_value_bound(b.drop_last());
    }
}

/// Reading back the bytes of a number that fits them gives the number.
pub proof fn lemma_be_value_of_bytes(n: nat, len: nat)
    requires
        n < pow256(len),
    ensures
        be_value(be_bytes(n, len)) == n,
    decreases len,
{
    if len > 0 {
        let shorter = be_bytes(n / 256, (len - 1) as nat);
        lemma_be_value_of_bytes(n / 256, (len - 1) as nat);
        assert(be_bytes(n, len).drop_last() =~= shorter);
    }
}

/// Writing the number that a run of bytes stands for gives the bytes.
pub proof fn lemma_be_bytes_of_value(b: Seq<u8>)
    ensures
        be_bytes(be_value(b), b.len()) == b,
    decreases b.len(),
{
    if b.len() > 0 {
        lemma_be_bytes_of_value(b.drop_last());
    }
}

/// The big-endian bytes of `n`.
pub fn u16_to_bytes(n: u16) -> (r: [u8; 2])
    ensures
        r@ == be_bytes(n as nat, 2),
{
    let r = [(n / 0x100) as u8, (n % 0x100) as u8];
    proof {
        reveal_with_fuel(be_bytes, 3);
    }
    r
}

/// The number whose big-endian bytes are `b`.
pub fn u16_from_bytes(b: [u8; 2]) -> (r: u16)
    ensures
        r == be_value(b@),
{
    proof {
        lemma_be_value_unfold(b@.take(1));
    }
    (b[0] as u16) * 0x100 + (b[1] as u16)
}

/// One step of `be_value`, for a run that is not empty.
pub proof fn lemma_be_value_unfold(b: Seq<u8>)
    requires
        b.len() > 0,
    ensures
        be_value(b) == be_value(b.drop_last()) * 256 + b.last(),
        be_value(Seq::<u8>::empty()) == 0,
{
}

/// The big-endian bytes of `n`.
pub fn u32_to_bytes(n: u32) -> (r: [u8; 4])
    ensures
        r@ == be_bytes(n as nat, 4),
{
    let n1 = n / 0x100;
    let n2 = n1 / 0x100;
    let n3 = n2 / 0x100;
    let r = [(n3 % 0x100) as u8, (n2 % 0x100) as u8, (n1 % 0x100) as u8, (n % 0x100) as u8];
    proof {
        reveal_with_fuel(be_bytes, 5);
    }
    r
}

/// The number whose big-endian bytes are `b`.
pub fn u32_from_bytes(b: [u8; 4]) -> (r: u32)
    ensures
        r == be_value(b@),
{
    proof {
        lemma_be_value_unfold(b@.take(1));
        lemma_be_value_unfold(b@.take(3));
        assert(b@.take(3).drop_last() =~= b@.take(2));
        assert(b@.take(2).drop_last() =~= b@.take(1));
    }
    let v1 = b[0] as u32;
    let v2 = v1 * 0x100 + (b[1] as u32);
    let v3 = v2 * 0x100 + (b[2] as u32);
    v3 * 0x100 + (b[3] as u32)
}

/// The big-endian bytes of `n`.
pub fn u64_to_bytes(n: u64) -> (r: [u8; 8])
    ensures
        r@ == be_bytes(n as nat, 8),
{
    let n1 = n / 0x100;
    let n2 = n1 / 0x100;
    let n3 = n2 / 0x100;
    let n4 = n3 / 0x100;
    let n5 = n4 / 0x100;
    let n6 = n5 / 0x100;
    let n7 = n6 / 0x100;
    let r = [
        (n7 % 0x100) as u8,
        (n6 % 0x100) as u8,
        (n5 % 0x100) as u8,
        (n4 % 0x100) as u8,
        (n3 % 0x100) as u8,
        (n2 % 0x100) as u8,
        (n1 % 0x100) as u8,
        (n % 0x100) as u8,
    ];
    proof {
        reveal_with_fuel(be_bytes, 9);
    }
    r
}

/// The number whose big-endian bytes are `b`.
pub fn u64_from_bytes(b: [u8; 8]) -> (r: u64)
    ensures
        r == be_value(b@),
{
    proof {
        lemma_be_value_unfold(b@.take(1));
        lemma_be_value_unfold(b@.take(3));
        lemma_be_value_unfold(b@.take(5));
        lemma_be_value_unfold(b@.take(7));
        assert(b@.take(7).drop_last() =~= b@.take(6));
        assert(b@.take(6).drop_last() =~= b@.take(5));
        assert(b@.take(5).drop_last() =~= b@.take(4));
        assert(b@.take(4).drop_last() =~= b@.take(3));
        assert(b@.take(3).drop_last() =~= b@.take(2));
        assert(b@.take(2).drop_last() =~= b@.take(1));
    }
    let v1 = b[0] as u64;
    let v2 = v1 * 0x100 + (b[1] as u64);
    let v3 = v2 * 0x100 + (b[2] as u64);
    let v4 = v3 * 0x100 + (b[3] as u64);
    let v5 = v4 * 0x100 + (b[4] as u64);
    let v6 = v5 * 0x100 + (b[5] as u64);
    let v7 = v6 * 0x100 + (b[6] as u64);
    v7 * 0x100 + (b[7] as u64)
}

/// A number that fits `k` bytes, written in more, has zeros in front.
pub proof fn lemma_be_bytes_pad(n: nat, k: nat, len: nat)
    requires
        k <= len,
        n < pow256(k),
    ensures
        be_bytes(n, len) == Seq::new((len - k) as nat, |i: int| 0u8) + be_bytes(n, k),
    decreases len,
{
    if len > 0 && k == 0 {
        lemma_be_bytes_pad(0, 0, (len - 1) as nat);
    } else if len > 0 {
        lemma_be_bytes_pad(n / 256, (k - 1) as nat, (len - 1) as nat);
    }
}

/// More bytes tell more numbers apart.
pub proof fn lemma_pow256_increases(j: nat, k: nat)
    requires
        j <= k,
    ensures
        1 <= pow256(j) <= pow256(k),
    decreases k,
{
    if j < k {
        lemma_pow256_increases(j, (k - 1) as nat);
    } else if k > 0 {
        lemma_pow256_increases((j - 1) as nat, (k - 1) as nat);
    }
}

/// The number whose big-endian bytes are `bytes`, for up to eight bytes.
pub fn uint_from_bytes(bytes: &[u8]) -> (r: u64)
    requires
        bytes@.len() <= 8,
    ensures
        r == be_value(bytes@),
        r < pow256(bytes@.len()),
{
    let n = bytes.len();
    let mut acc: u64 = 0;
    let mut i: usize = 0;
    while i < n
        invariant
            i <= n,
            n == bytes@.len(),
            n <= 8,
            acc == be_value(bytes@.take(i as int)),
            acc < pow256(i as nat),
        decreases n - i,
    {
        proof {
            lemma_pow256_increases(i as nat, 7);
            lemma_pow256_values();
            assert(bytes@.take(i + 1).drop_last() =~= bytes@.take(i as int));
        }
        acc = acc * 0x100 + (bytes[i] as u64);
        i += 1;
    }
    assert(bytes@.take(n as int) =~= bytes@);
    acc
}

} // verus!
