//! The three hash functions that the engine uses to identify names:
//! FNV-1a (64 and 32 bit) and the engine's CRC-32 variant.

use vstd::prelude::*;

verus! {

/// Offset basis used by the engine's 64-bit FNV-1a (the usual basis with its
/// last digit missing).
pub const FNV64_BASIS: u64 = 0x14650fb0739d0383u64;

/// 64-bit FNV prime.
pub const FNV64_PRIME: u64 = 0x100000001b3u64;

/// 32-bit FNV-1a offset basis.
pub const FNV32_BASIS: u32 = 0x811c9dc5u32;

/// 32-bit FNV prime.
pub const FNV32_PRIME: u32 = 0x1000193u32;

/// Polynomial of the engine's CRC-32, applied to the right-shifted register.
pub const CRC32_POLY: u32 = 0x04c11db7u32;

/// One FNV-1a 64 round: xor in the byte, then multiply modulo 2^64.
pub open spec fn fnv1a64_step(h: u64, b: u8) -> u64 {
    (h ^ (b as u64)).wrapping_mul(FNV64_PRIME)
}

/// FNV-1a 64 state after absorbing `bytes`, starting from state `h`.
pub open spec fn fnv1a64_fold(h: u64, bytes: Seq<u8>) -> u64
    decreases bytes.len(),
{
    if bytes.len() == 0 {
        h
    } else {
        fnv1a64_step(fnv1a64_fold(h, bytes.drop_last()), bytes.last())
    }
}

/// The engine's FNV-1a 64 hash of `bytes`.
pub open spec fn spec_fnv1a64(bytes: Seq<u8>) -> u64 {
    fnv1a64_fold(FNV64_BASIS, bytes)
}

/// One FNV-1a 32 round.
pub open spec fn fnv1a32_step(h: u32, b: u8) -> u32 {
    (h ^ (b as u32)).wrapping_mul(FNV32_PRIME)
}

/// FNV-1a 32 state after absorbing `bytes`, starting from state `h`.
pub open spec fn fnv1a32_fold(h: u32, bytes: Seq<u8>) -> u32
    decreases bytes.len(),
{
    if bytes.len() == 0 {
        h
    } else {
        fnv1a32_step(fnv1a32_fold(h, bytes.drop_last()), bytes.last())
    }
}

/// FNV-1a 32 hash of `bytes`.
pub open spec fn spec_fnv1a32(bytes: Seq<u8>) -> u32 {
    fnv1a32_fold(FNV32_BASIS, bytes)
}

/// One bit step of the CRC register: shift right, xor the polynomial when the
/// bit shifted out was set.
pub open spec fn crc32_bit(h: u32) -> u32 {
    if h & 1 == 1 {
        (h >> 1u32) ^ CRC32_POLY
    } else {
        h >> 1u32
    }
}

/// `n` bit steps of the CRC register.
pub open spec fn crc32_bits(h: u32, n: nat) -> u32
    decreases n,
{
    if n == 0 {
        h
    } else {
        crc32_bit(crc32_bits(h, (n - 1) as nat))
    }
}

/// The CRC register after absorbing one byte.
pub open spec fn crc32_step(h: u32, b: u8) -> u32 {
    crc32_bits(h ^ (b as u32), 8)
}

/// The CRC register after absorbing `bytes`, starting from register `h`.
pub open spec fn crc32_fold(h: u32, bytes: Seq<u8>) -> u32
    decreases bytes.len(),
{
    if bytes.len() == 0 {
        h
    } else {
        crc32_step(crc32_fold(h, bytes.drop_last()), bytes.last())
    }
}

/// The engine's CRC-32 of `bytes`: register starts all ones, result is inverted.
pub open spec fn spec_crc32(bytes: Seq<u8>) -> u32 {
    !crc32_fold(0xffff_ffffu32, bytes)
}

/// Hashes `bytes` with the engine's 64-bit FNV-1a.
pub fn fnv1a64(bytes: &[u8]) -> (hash: u64)
    ensures
        hash == spec_fnv1a64(bytes@),
{
    let mut hash: u64 = FNV64_BASIS;
    let mut index: usize = 0;
    while index < bytes.len()
        invariant
            index <= bytes@.len(),
            hash == fnv1a64_fold(FNV64_BASIS, bytes@.take(index as int)),
        decreases bytes@.len() - index,
    {
        assert(bytes@.take(index as int + 1).drop_last() =~= bytes@.take(index as int));
        hash ^= bytes[index] as u64;
        hash = hash.wrapping_mul(FNV64_PRIME);
        index += 1;
    }
    assert(bytes@.take(index as int) =~= bytes@);
    hash
}

/// Hashes `bytes` with 32-bit FNV-1a.
pub fn fnv1a32(bytes: &[u8]) -> (hash: u32)
    ensures
        hash == spec_fnv1a32(bytes@),
{
    let mut hash: u32 = FNV32_BASIS;
    let mut index: usize = 0;
    while index < bytes.len()
        invariant
            index <= bytes@.len(),
            hash == fnv1a32_fold(FNV32_BASIS, bytes@.take(index as int)),
        decreases bytes@.len() - index,
    {
        assert(bytes@.take(index as int + 1).drop_last() =~= bytes@.take(index as int));
        hash ^= bytes[index] as u32;
        hash = hash.wrapping_mul(FNV32_PRIME);
        index += 1;
    }
    assert(bytes@.take(index as int) =~= bytes@);
    hash
}

/// Computes the engine's CRC-32 of `bytes`.
pub fn crc32(bytes: &[u8]) -> (hash: u32)
    ensures
        hash == spec_crc32(bytes@),
{
    let mut hash: u32 = u32::MAX;
    let mut index: usize = 0;
    while index < bytes.len()
        invariant
            index <= bytes@.len(),
            hash == crc32_fold(0xffff_ffffu32, bytes@.take(index as int)),
        decreases bytes@.len() - index,
    {
        assert(bytes@.take(index as int + 1).drop_last() =~= bytes@.take(index as int));
        let ghost start: u32 = hash ^ (bytes[index as int] as u32);
        hash ^= bytes[index] as u32;
        index += 1;
        let mut inner_index: u32 = 0;
        while inner_index < 8
            invariant
                inner_index <= 8,
                hash == crc32_bits(start, inner_index as nat),
            decreases 8 - inner_index,
        {
            if (hash & 1) == 1 {
                hash = hash >> 1 ^ CRC32_POLY;
            } else {
                hash >>= 1;
            }
            inner_index += 1;
        }
    }
    assert(bytes@.take(index as int) =~= bytes@);
    !hash
}

/// Hashing a concatenation is hashing the second part from the state left by
/// the first: the 64-bit FNV-1a can be computed incrementally.
pub proof fn lemma_fnv1a64_concat(h: u64, a: Seq<u8>, b: Seq<u8>)
    ensures
        fnv1a64_fold(h, a + b) == fnv1a64_fold(fnv1a64_fold(h, a), b),
    decreases b.len(),
{
    if b.len() == 0 {
        assert(a + b =~= a);
    } else {
        assert((a + b).drop_last() =~= a + b.drop_last());
        lemma_fnv1a64_concat(h, a, b.drop_last());
    }
}

/// The 32-bit FNV-1a can be computed incrementally.
pub proof fn lemma_fnv1a32_concat(h: u32, a: Seq<u8>, b: Seq<u8>)
    ensures
        fnv1a32_fold(h, a + b) == fnv1a32_fold(fnv1a32_fold(h, a), b),
    decreases b.len(),
{
    if b.len() == 0 {
        assert(a + b =~= a);
    } else {
        assert((a + b).drop_last() =~= a + b.drop_last());
        lemma_fnv1a32_concat(h, a, b.drop_last());
    }
}

/// The CRC register can be computed incrementally.
pub proof fn lemma_crc32_concat(h: u32, a: Seq<u8>, b: Seq<u8>)
    ensures
        crc32_fold(h, a + b) == crc32_fold(crc32_fold(h, a), b),
    decreases b.len(),
{
    if b.len() == 0 {
        assert(a + b =~= a);
    } else {
        assert((a + b).drop_last() =~= a + b.drop_last());
        lemma_crc32_concat(h, a, b.drop_last());
    }
}

} // verus!
