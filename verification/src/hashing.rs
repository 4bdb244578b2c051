//! FNV-1a 64-bit hashing and ASCII decimal rendering: the stable,
//! deterministic byte-level helpers the proxy ring and the Postgres advisory
//! lock key derivation are built on.
use vstd::prelude::*;
use vstd::string::*;

verus! {

/// FNV-1a 64-bit offset basis.
pub const FNV_OFFSET: u64 = 0xcbf2_9ce4_8422_2325;

/// FNV-1a 64-bit prime.
pub const FNV_PRIME: u64 = 0x100_0000_01b3;

/// One FNV-1a round: xor the byte in, then multiply by the prime modulo 2^64.
pub open spec fn fnv_step(h: u64, b: u8) -> u64 {
    (((h ^ (b as u64)) as nat * FNV_PRIME as nat) % 0x1_0000_0000_0000_0000nat) as u64
}

/// FNV-1a state after absorbing `bytes`, starting from state `h`.
pub open spec fn fnv_fold(h: u64, bytes: Seq<u8>) -> u64
    decreases bytes.len(),
{
    if bytes.len() == 0 {
        h
    } else {
        fnv_step(fnv_fold(h, bytes.drop_last()), bytes.last())
    }
}

/// FNV-1a 64-bit hash of `bytes`.
pub open spec fn fnv1a(bytes: Seq<u8>) -> u64 {
    fnv_fold(FNV_OFFSET, bytes)
}

/// Absorbing `a + b` is absorbing `a`, then `b`.
pub proof fn lemma_fnv_fold_concat(h: u64, a: Seq<u8>, b: Seq<u8>)
    ensures
        fnv_fold(h, a + b) == fnv_fold(fnv_fold(h, a), b),
    decreases b.len(),
{
    if b.len() == 0 {
        assert(a + b =~= a);
    } else {
        lemma_fnv_fold_concat(h, a, b.drop_last());
        assert((a + b).drop_last() =~= a + b.drop_last());
        assert((a + b).last() == b.last());
    }
}

/// Absorb `bytes` into the running FNV-1a state `h`.
pub fn fnv_absorb(h: u64, bytes: &[u8]) -> (r: u64)
    ensures
        r == fnv_fold(h, bytes@),
{
    let mut acc = h;
    let mut i: usize = 0;
    while i < bytes.len()
        invariant
            i <= bytes@.len(),
            acc == fnv_fold(h, bytes@.take(i as int)),
        decreases bytes@.len() - i,
    {
        let b = bytes[i];
        proof {
            assert(bytes@.take(i as int + 1).drop_last() =~= bytes@.take(i as int));
            assert(bytes@.take(i as int + 1).last() == b);
        }
        acc = (acc ^ (b as u64)).wrapping_mul(FNV_PRIME);
        i = i + 1;
    }
    assert(bytes@.take(i as int) =~= bytes@);
    acc
}

/// FNV-1a 64-bit hash of a string's UTF-8 bytes.
pub fn hash64(s: &str) -> (r: u64)
    ensures
        r == fnv1a(s.spec_bytes()),
{
    fnv_absorb(FNV_OFFSET, s.as_bytes())
}

/// Stable, deterministic string → i64 mapping: FNV-1a 64 of the key's bytes,
/// reinterpreted as a two's-complement `i64` (the Postgres advisory-lock key).
pub fn key_to_i64(key: &str) -> (r: i64)
    ensures
        r == fnv1a(key.spec_bytes()) as i64,
{
    let h = hash64(key);
    h as i64
}

/// ASCII decimal digits of `n` (no sign, no leading zeros; `0` is `"0"`).
pub open spec fn dec_digits(n: nat) -> Seq<u8>
    decreases n,
{
    if n < 10 {
        seq![(48 + n) as u8]
    } else {
        dec_digits(n / 10).push((48 + n % 10) as u8)
    }
}

/// Append the ASCII decimal digits of `n` to `out`.
pub fn push_decimal(out: &mut Vec<u8>, n: u64)
    ensures
        final(out)@ == old(out)@ + dec_digits(n as nat),
    decreases n,
{
    if n < 10 {
        out.push((48 + n) as u8);
        assert(dec_digits(n as nat) =~= seq![(48 + n) as u8]);
    } else {
        push_decimal(out, n / 10);
        out.push((48 + n % 10) as u8);
    }
}

} // verus!
