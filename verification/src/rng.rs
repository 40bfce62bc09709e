//! The crate's only door to the outside world: a seedable pseudorandom
//! generator from the `rand` crate. Every stochastic operator of the search
//! draws through the two wrappers below, so a caller that seeds the
//! generator gets a reproducible run.

use vstd::prelude::*;
use rand::Rng;

verus! {

/// `rand::rngs::StdRng`, opaque to the verifier: the search only ever draws
/// values out of it through the wrappers below.
#[verifier::external_type_specification]
#[verifier::external_body]
pub struct ExStdRng(rand::rngs::StdRng);

/// Relies on rand's `Rng::gen_range` over `lo..hi`: it returns a value of
/// the non-empty range and panics only on an empty one. Nothing more is
/// assumed: two calls on equal arguments may differ.
#[verifier::external_body]
pub(crate) fn rand_range_i64(rng: &mut rand::rngs::StdRng, lo: i64, hi: i64) -> (r: i64)
    requires
        lo < hi,
    ensures
        lo <= r < hi,
{
    rng.gen_range(lo..hi)
}

/// Relies on rand's `Rng::gen_ratio`: it returns true with probability
/// `num / den`, always true when `num == den`, always false when `num == 0`,
/// and accepts exactly the ratios with `num <= den`, `den > 0`.
#[verifier::external_body]
pub(crate) fn rand_ratio(rng: &mut rand::rngs::StdRng, num: u32, den: u32) -> (r: bool)
    requires
        0 < den,
        num <= den,
    ensures
        num == 0 ==> !r,
        num == den ==> r,
{
    rng.gen_ratio(num, den)
}

} // verus!
