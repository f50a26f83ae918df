//! Randomness sources.
//!
//! The two trusted draws return plain integers; everything computed from
//! them is verified for every value they could hand back.

use vstd::prelude::*;

verus! {

/// Relies on rand's `Rng::gen_range` over an `i64` range: a uniformly
/// random integer in `[low, high)`; the range must be non-empty.
#[verifier::external_body]
pub fn randint(low: i64, high: i64) -> (r: i64)
    requires
        low < high,
    ensures
        low <= r < high,
{
    rand::Rng::gen_range(&mut rand::thread_rng(), low..high)
}

/// Relies on rand_distr's `Normal` distribution, sampled through rand's
/// thread rng, for a Gaussian draw with mean zero and standard deviation
/// `sigma` units, and on libm's `round` to take the sample to the nearest
/// whole count of units.  Beyond the degenerate case — a zero standard
/// deviation scales the finite standard-normal sample to exactly zero —
/// nothing is promised of the result: it is a fresh random value on
/// every call.
#[verifier::external_body]
pub fn normal(sigma: u32) -> (r: i64)
    ensures
        sigma == 0 ==> r == 0,
{
    let dist = rand_distr::Normal::new(0u32.into(), sigma.into()).unwrap();
    let x = libm::round(rand::Rng::sample(&mut rand::thread_rng(), dist));
    x as i64
}

/// Uniformly random fixed-point value in `[low, high)`.
pub fn uniform(low: i64, high: i64) -> (r: i64)
    requires
        low < high,
    ensures
        low <= r < high,
{
    randint(low, high)
}

} // verus!
