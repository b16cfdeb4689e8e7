//! The round's answer as drillx expects it: the digest and the nonce's
//! little-endian bytes.
use vstd::prelude::*;
use vstd::bytes::{spec_u64_to_le_bytes, spec_u64_to_le_bytes_to_open};
use drillx::Solution;
use crate::search::WorkerBest;

verus! {

/// drillx's solution, whose two public fields, the digest `d` and the nonce
/// bytes `n`, are visible to proofs.
#[verifier::external_type_specification]
pub struct ExSolution(drillx::Solution);

/// Relies on drillx's Solution::new, which stores the digest and the nonce
/// bytes as they are given.
pub assume_specification[ drillx::Solution::new ](digest: [u8; 16], nonce: [u8; 8]) -> (r:
    drillx::Solution)
    ensures
        r.d == digest,
        r.n == nonce,
;

/// The little-endian bytes of a nonce.
pub fn nonce_bytes(n: u64) -> (r: [u8; 8])
    ensures
        r@ == spec_u64_to_le_bytes(n),
{
    let r: [u8; 8] = [
        (n & 0xff) as u8,
        ((n >> 8) & 0xff) as u8,
        ((n >> 16) & 0xff) as u8,
        ((n >> 24) & 0xff) as u8,
        ((n >> 32) & 0xff) as u8,
        ((n >> 40) & 0xff) as u8,
        ((n >> 48) & 0xff) as u8,
        ((n >> 56) & 0xff) as u8,
    ];
    proof {
        spec_u64_to_le_bytes_to_open(n);
        assert(r@ =~= spec_u64_to_le_bytes(n));
    }
    r
}

/// The solution that submits the best candidate of a search.
pub fn solution_of(best: &WorkerBest) -> (r: Solution)
    ensures
        r.d@ == best.digest@,
        r.n@ == spec_u64_to_le_bytes(best.nonce),
{
    Solution::new(best.digest, nonce_bytes(best.nonce))
}

} // verus!
