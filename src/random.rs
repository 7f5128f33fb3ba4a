//! Draws from the thread-local generator of `rand`.
use rand::Rng;
use vstd::prelude::*;

verus! {

/// Relies on `rand::thread_rng` and `Rng::gen_range` over `lo..=hi`: a value of
/// that range, which must not be empty (`gen_range` panics on an empty range).
#[verifier::external_body]
pub(crate) fn random_u64_inclusive(lo: u64, hi: u64) -> (r: u64)
    requires
        lo <= hi,
    ensures
        lo <= r <= hi,
{
    rand::thread_rng().gen_range(lo..=hi)
}

/// Relies on `rand::thread_rng` and `Rng::fill` on a byte slice: `n` bytes, each
/// of any value (`fill` panics only on a generator error, and the thread-local
/// block generator reports none).
#[verifier::external_body]
pub(crate) fn random_bytes(n: usize) -> (r: Vec<u8>)
    ensures
        r@.len() == n,
{
    let mut out = vec![0u8; n];
    rand::thread_rng().fill(&mut out[..]);
    out
}

} // verus!
