//! The ways in which an operation can be turned down.

use vstd::prelude::*;

verus! {

/// Why an operation was rejected. A rejected operation changes nothing.
#[derive(Clone, Copy, Debug, PartialEq, Eq, Structural)]
pub enum AttestationError {
    /// A deposit under the stake floor, a withdrawal over the locked stake or
    /// one that would leave dust, or an attestation by a provider whose stake
    /// is under the floor.
    InsufficientStake,
    /// A risk score over 100.
    InvalidRiskScore,
    /// A reason of more than 200 characters.
    ReasonTooLong,
    /// A withdrawal by someone other than the provider's authority.
    Unauthorized,
    /// A withdrawal before the cooldown since the last deposit has run out.
    WithdrawCooldown,
    /// An attestation for a (provider, transaction) pair that already has one.
    DuplicateAttestation,
    /// An operation on a provider or attestation that does not exist.
    NotFound,
}

} // verus!
