//! An escrow-based reward engine: a sponsor funds a pool, and claimants are
//! paid proportionally to a monotonically increasing engagement metric
//! attached to a content item, gated by an ECDSA attestation from a trusted
//! verifier identity.

pub mod attestation;
pub mod errors;
pub mod identity;
pub mod laws;
pub mod pool;
