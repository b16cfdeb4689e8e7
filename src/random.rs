//! Uniform draws, as provided by rand.
use vstd::prelude::*;
use rand::Rng;

verus! {

/// Relies on rand's thread_rng and Rng::gen_range: a draw from `[0, n)`;
/// gen_range panics on an empty range, hence `n >= 1`.
#[verifier::external_body]
pub(crate) fn random_below(n: u64) -> (r: u64)
    requires
        n >= 1,
    ensures
        r < n,
{
    rand::thread_rng().gen_range(0..n)
}

} // verus!
