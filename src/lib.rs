//! Parallel nonce search for a proof-of-work mining client, with the policies
//! that surround one mining round: bus selection, epoch reset and cutoff.
pub mod bus;
pub mod hashing;
pub mod partition;
pub mod policy;
pub mod random;
pub mod search;
pub mod solution;
