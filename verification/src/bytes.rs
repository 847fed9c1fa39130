//! Byte-string building blocks: big-endian integers and appending slices.

use vstd::prelude::*;

verus! {

/// The `n` low bytes of `x`, most significant first (as `to_be_bytes` lays
/// out an `n`-byte integer).
pub open spec fn be_bytes(x: nat, n: nat) -> Seq<u8>
    decreases n,
{
    if n == 0 {
        Seq::empty()
    } else {
        be_bytes(x / 256, (n - 1) as nat).push((x % 256) as u8)
    }
}

/// The number whose big-endian bytes are `bytes`.
pub open spec fn be_value(bytes: Seq<u8>) -> nat
    decreases bytes.len(),
{
    if bytes.len() == 0 {
        0
    } else {
        be_value(bytes.drop_last()) * 256 + bytes.last() as nat
    }
}

/// Appends the `n` low bytes of `x`, most significant first.
pub fn push_be(out: &mut Vec<u8>, x: u128, n: usize)
    requires
        n <= 16,
    ensures
        final(out)@ == old(out)@ + be_bytes(x as nat, n as nat),
    decreases n,
{
    if n > 0 {
        push_be(out, x / 256, n - 1);
        out.push((x % 256) as u8);
        proof {
            assert(final(out)@ =~= old(out)@ + be_bytes(x as nat, n as nat));
        }
    } else {
        assert(out@ =~= old(out)@ + be_bytes(x as nat, n as nat));
    }
}

/// Appends every byte of `src`.
pub fn append_bytes(out: &mut Vec<u8>, src: &[u8])
    ensures
        final(out)@ == old(out)@ + src@,
{
    let ghost start = out@;
    let mut i: usize = 0;
    while i < src.len()
        invariant
            i <= src@.len(),
            out@ == start + src@.subrange(0, i as int),
        decreases src@.len() - i,
    {
        out.push(src[i]);
        i = i + 1;
        assert(out@ =~= start + src@.subrange(0, i as int));
    }
    assert(src@.subrange(0, i as int) =~= src@);
}

/// The unsigned integer whose big-endian bytes are the first eight of `bytes`
/// (`u64::from_be_bytes`).
pub fn u64_from_be(bytes: &[u8]) -> (res: u64)
    requires
        bytes@.len() == 8,
    ensures
        res as nat == be_value(bytes@),
{
    let mut acc: u64 = 0;
    let mut i: usize = 0;
    while i < 8
        invariant
            i <= 8,
            bytes@.len() == 8,
            acc as nat == be_value(bytes@.subrange(0, i as int)),
            acc < pow256(i as nat),
        decreases 8 - i,
    {
        let ghost prefix = bytes@.subrange(0, i as int);
        assert(bytes@.subrange(0, (i + 1) as int).drop_last() =~= prefix);
        proof {
            lemma_pow256_step(i as nat);
            lemma_pow256_le8(i as nat);
        }
        acc = acc * 256 + bytes[i] as u64;
        i = i + 1;
    }
    assert(bytes@.subrange(0, 8) =~= bytes@);
    acc
}

/// 256 to the power `n`.
pub open spec fn pow256(n: nat) -> nat
    decreases n,
{
    if n == 0 {
        1
    } else {
        256 * pow256((n - 1) as nat)
    }
}

proof fn lemma_pow256_step(n: nat)
    ensures
        pow256(n + 1) == 256 * pow256(n),
{
}

proof fn lemma_pow256_mono(n: nat, m: nat)
    requires
        n <= m,
    ensures
        pow256(n) <= pow256(m),
    decreases m - n,
{
    if n < m {
        lemma_pow256_mono(n, (m - 1) as nat);
    }
}

proof fn lemma_pow256_le8(n: nat)
    requires
        n < 8,
    ensures
        256 * pow256(n) <= 0x1_0000_0000_0000_0000,
{
    reveal_with_fuel(pow256, 9);
    lemma_pow256_mono(n, 7);
}

} // verus!
