//! The proof-of-work hash, its difficulty score and the clock the workers
//! read, as provided by drillx and std.
use vstd::prelude::*;

verus! {

/// equix's scratch memory for the solver, held opaque.
#[verifier::external_type_specification]
#[verifier::external_body]
pub struct ExSolverMemory(drillx::equix::SolverMemory);

/// Relies on equix's SolverMemory::new: allocates scratch memory for the solver.
pub assume_specification[ drillx::equix::SolverMemory::new ]() -> drillx::equix::SolverMemory;

/// std's monotonic clock reading, held opaque.
#[verifier::external_type_specification]
#[verifier::external_body]
pub struct ExInstant(std::time::Instant);

/// Relies on Instant::elapsed: the time since the instant, never negative.
pub assume_specification[ std::time::Instant::elapsed ](i: &std::time::Instant) -> core::time::Duration;

/// Relies on Duration::as_secs: the whole seconds of a duration.
pub assume_specification[ core::time::Duration::as_secs ](d: &core::time::Duration) -> u64;

/// What drillx makes of a challenge and a nonce: `None` where no equix
/// solution exists, else the digest and the hash.
pub uninterp spec fn drillx_hash(challenge: Seq<u8>, nonce: u64) -> Option<(Seq<u8>, Seq<u8>)>;

/// Relies on drillx::hash_with_memory: the result depends on the challenge and
/// the nonce (taken as little-endian bytes) alone; the memory is scratch space.
#[verifier::external_body]
pub(crate) fn hash_nonce(memory: &mut drillx::equix::SolverMemory, challenge: &[u8; 32], nonce: u64) -> (r:
    Option<([u8; 16], [u8; 32])>)
    ensures
        match drillx_hash(challenge@, nonce) {
            Some(p) => r matches Some(q) && q.0@ == p.0 && q.1@ == p.1,
            None => r is None,
        },
{
    match drillx::hash_with_memory(memory, challenge, &nonce.to_le_bytes()) {
        Ok(hx) => Some((hx.d, hx.h)),
        Err(_) => None,
    }
}

/// Leading zero bits of one byte.
pub open spec fn byte_leading_zeros(b: u8) -> nat {
    if b >= 128 {
        0
    } else if b >= 64 {
        1
    } else if b >= 32 {
        2
    } else if b >= 16 {
        3
    } else if b >= 8 {
        4
    } else if b >= 4 {
        5
    } else if b >= 2 {
        6
    } else if b >= 1 {
        7
    } else {
        8
    }
}

/// Leading zero bits of a byte string, read from its first byte on.
pub open spec fn leading_zero_bits(h: Seq<u8>) -> nat
    decreases h.len(),
{
    if h.len() == 0 {
        0
    } else if h[0] == 0 {
        8 + leading_zero_bits(h.drop_first())
    } else {
        byte_leading_zeros(h[0])
    }
}

/// Relies on drillx::difficulty: the number of leading zero bits of the hash.
#[verifier::external_body]
pub(crate) fn difficulty(hash: [u8; 32]) -> (r: u32)
    ensures
        r == leading_zero_bits(hash@),
{
    drillx::difficulty(hash)
}

} // verus!
