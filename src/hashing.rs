//! A stable, documented hash for deterministic draws.
//!
//! The hash is FNV-1a over 64 bits, fed one Unicode scalar value per step,
//! followed by an avalanche finaliser so that the low bits used by `%` draws
//! depend on every input bit. It never changes between builds or platforms.

use vstd::prelude::*;

verus! {

/// FNV-1a offset basis (64-bit).
pub const FNV_OFFSET: u64 = 0xcbf2_9ce4_8422_2325;

/// FNV-1a prime (64-bit).
pub const FNV_PRIME: u64 = 0x0000_0100_0000_01b3;

/// Multiplier of the finaliser.
pub const MIX_MULT: u64 = 0xff51_afd7_ed55_8ccd;

/// One FNV-1a step: xor the unit in, multiply by the prime modulo 2^64.
pub open spec fn fnv_step(h: u64, unit: u64) -> u64 {
    (((h ^ unit) as nat * FNV_PRIME as nat) % 0x1_0000_0000_0000_0000nat) as u64
}

/// FNV-1a state after feeding every character of `cs`, starting from `h`.
pub open spec fn fnv_chars(h: u64, cs: Seq<char>) -> u64
    decreases cs.len(),
{
    if cs.len() == 0 {
        h
    } else {
        fnv_step(fnv_chars(h, cs.drop_last()), cs.last() as u32 as u64)
    }
}

/// Avalanche finaliser: xor-shift, multiply, xor-shift.
pub open spec fn finish(h: u64) -> u64 {
    let a = h ^ (h >> 33u64);
    let b = ((a as nat * MIX_MULT as nat) % 0x1_0000_0000_0000_0000nat) as u64;
    b ^ (b >> 33u64)
}

/// Hash of a character sequence.
pub open spec fn hash_of(cs: Seq<char>) -> u64 {
    finish(fnv_chars(FNV_OFFSET, cs))
}

/// Hash of a character sequence followed by an integer.
pub open spec fn indexed_hash_of(cs: Seq<char>, i: u64) -> u64 {
    finish(fnv_step(fnv_chars(FNV_OFFSET, cs), i))
}

fn fnv_step_exec(h: u64, unit: u64) -> (r: u64)
    ensures
        r == fnv_step(h, unit),
{
    (h ^ unit).wrapping_mul(FNV_PRIME)
}

fn finish_exec(h: u64) -> (r: u64)
    ensures
        r == finish(h),
{
    let a = h ^ (h >> 33u64);
    let b = a.wrapping_mul(MIX_MULT);
    b ^ (b >> 33u64)
}

fn fnv_chars_exec(cs: &[char]) -> (r: u64)
    ensures
        r == fnv_chars(FNV_OFFSET, cs@),
{
    let mut h: u64 = FNV_OFFSET;
    let mut i: usize = 0;
    while i < cs.len()
        invariant
            i <= cs@.len(),
            h == fnv_chars(FNV_OFFSET, cs@.subrange(0, i as int)),
        decreases cs.len() - i,
    {
        proof {
            let next = cs@.subrange(0, i as int + 1);
            assert(next.drop_last() =~= cs@.subrange(0, i as int));
        }
        h = fnv_step_exec(h, cs[i] as u32 as u64);
        i = i + 1;
    }
    assert(cs@.subrange(0, cs@.len() as int) =~= cs@);
    h
}

/// Hash of a word given as its characters.
pub fn hash_chars(cs: &[char]) -> (r: u64)
    ensures
        r == hash_of(cs@),
{
    finish_exec(fnv_chars_exec(cs))
}

/// Hash of a word followed by an integer, for the `i`-th draw keyed by a word.
pub fn indexed_hash(cs: &[char], i: u64) -> (r: u64)
    ensures
        r == indexed_hash_of(cs@, i),
{
    finish_exec(fnv_step_exec(fnv_chars_exec(cs), i))
}

} // verus!
