use vstd::prelude::*;

verus! {

/// Failure taxonomy of the reward pool. Every operation either commits all of
/// its effects or fails with one of these and changes nothing.
#[derive(Clone, Copy, Debug, PartialEq, Eq, Structural)]
pub enum PoolError {
    /// A non-owner invoked an owner-only operation.
    AuthorizationError,
    /// Double initialization, operating before initialization, or an invalid
    /// deadline ordering.
    StateError,
    /// A zero amount, a missing required content constraint, or a malformed
    /// signature encoding.
    ValidationError,
    /// The signature recovers to an identity other than the trusted verifier.
    ProofError,
    /// The claimed metric value is below the value already recorded for the
    /// item.
    MonotonicityError,
    /// Insufficient pool balance for a payout; a zero contribution on a refund
    /// attempt; a refund requested before the deadline.
    FundsError,
    /// The external token movement was rejected.
    TransferError,
}

} // verus!
