//! Trusted boundary to the `rand` crate.
//!
//! The renderer owns a seeded `StdRng` and draws raw fixed-point values from
//! it; everything downstream of a draw is verified for every value the draw
//! could produce.

use vstd::prelude::*;

verus! {

#[verifier::external_type_specification]
#[verifier::external_body]
pub struct ExStdRng(rand::rngs::StdRng);

/// Relies on rand's `Rng::gen_range` over an integer range: a draw uniform in
/// `[lo, hi)`, which panics only when the range is empty.
#[verifier::external_body]
pub(crate) fn rng_range(rng: &mut rand::rngs::StdRng, lo: i64, hi: i64) -> (r: i64)
    requires
        lo < hi,
    ensures
        lo <= r < hi,
{
    rand::Rng::gen_range(rng, lo..hi)
}

} // verus!
