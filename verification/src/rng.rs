//! Seeded randomness for offensive-line scoring.
//!
//! Offensive linemen have no season statistics, so their scores carry a
//! pseudorandom factor. The factors are drawn from a seeded generator and
//! handed to the pipeline as plain values, so that a fixed seed reproduces
//! the same run and the scoring itself is verified for every factor value.

use crate::scoring::OL_FACTOR_MAX;
use crate::scoring::OL_FACTOR_MIN;
use vstd::prelude::*;

verus! {

#[verifier::external_type_specification]
#[verifier::external_body]
pub struct ExStdRng(rand::rngs::StdRng);

/// Relies on rand's `StdRng::from_seed`: builds the deterministic generator
/// for a 32-byte seed.
#[verifier::external_body]
pub fn rng_from_seed(seed: [u8; 32]) -> rand::rngs::StdRng {
    <rand::rngs::StdRng as rand::SeedableRng>::from_seed(seed)
}

/// Relies on rand's `Rng::gen_range`: returns a uniform value inside the
/// given half-open range; it panics only on an empty range, which the
/// precondition excludes.
#[verifier::external_body]
fn gen_in_range(rng: &mut rand::rngs::StdRng, lo: u32, hi: u32) -> (r: u32)
    requires
        lo < hi,
    ensures
        lo <= r < hi,
{
    rand::Rng::gen_range(rng, lo..hi)
}

/// Draws `n` offensive-line scoring factors, each in
/// `[OL_FACTOR_MIN, OL_FACTOR_MAX)` ten-thousandths.
pub fn draw_ol_factors(rng: &mut rand::rngs::StdRng, n: usize) -> (r: Vec<u32>)
    ensures
        r@.len() == n,
        forall|i: int| 0 <= i < n ==> OL_FACTOR_MIN <= #[trigger] r@[i] < OL_FACTOR_MAX,
{
    let mut r: Vec<u32> = Vec::new();
    let mut i: usize = 0;
    while i < n
        invariant
            0 <= i <= n,
            r@.len() == i,
            forall|j: int| 0 <= j < i ==> OL_FACTOR_MIN <= #[trigger] r@[j] < OL_FACTOR_MAX,
        decreases n - i,
    {
        let f = gen_in_range(rng, OL_FACTOR_MIN, OL_FACTOR_MAX);
        r.push(f);
        i = i + 1;
    }
    r
}

} // verus!
