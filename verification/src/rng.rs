//! Trusted boundary to the `rand` crate.
//!
//! Every random draw the renderer makes comes through these two functions.
//! Nothing is promised of an individual draw beyond its range; callers state
//! what holds of every outcome.

use vstd::prelude::*;

verus! {

use crate::fixed::FX_ONE;

/// Relies on `rand::Rng::gen_range` over `0..FX_ONE`: a uniform draw in the
/// half-open range, i.e. a fixed-point scalar in `[0, 1)`.
#[verifier::external_body]
pub fn random_scalar() -> (r: i64)
    ensures 0 <= r < FX_ONE,
{
    rand::Rng::gen_range(&mut rand::thread_rng(), 0..FX_ONE)
}

/// Relies on `rand::Rng::gen_range` over `min..max`: a uniform draw in the
/// half-open range. The range must be non-empty, as `gen_range` panics on an
/// empty one.
#[verifier::external_body]
pub fn random_scalar_range(min: i64, max: i64) -> (r: i64)
    requires min < max,
    ensures min <= r < max,
{
    rand::Rng::gen_range(&mut rand::thread_rng(), min..max)
}

} // verus!
