//! Trusted access to the process-wide random number generator.
//!
//! Randomness is deliberately opaque: nothing is promised of a draw except
//! the guaranteed cases that the generator's documentation states, so every
//! caller is verified for every possible outcome.

use vstd::prelude::*;

verus! {

/// Relies on `rand::Rng::gen_ratio` on the thread-local generator: the
/// result is `true` with probability `num / den`; it is guaranteed `false`
/// when `num` is `0` and guaranteed `true` when `num` equals `den`.
/// `gen_ratio` panics when `den` is `0` or `num` exceeds `den`.
#[verifier::external_body]
pub(crate) fn coin(num: u32, den: u32) -> (r: bool)
    requires
        den > 0,
        num <= den,
    ensures
        num == 0 ==> !r,
        num == den ==> r,
{
    rand::Rng::gen_ratio(&mut rand::thread_rng(), num, den)
}

/// Relies on `rand::Rng::gen_range` on the thread-local generator: the
/// result is a uniformly drawn element of the non-empty range `lo..hi`.
/// `gen_range` panics on an empty range.
#[verifier::external_body]
pub(crate) fn pick(lo: usize, hi: usize) -> (r: usize)
    requires
        lo < hi,
    ensures
        lo <= r < hi,
{
    rand::Rng::gen_range(&mut rand::thread_rng(), lo..hi)
}

} // verus!
