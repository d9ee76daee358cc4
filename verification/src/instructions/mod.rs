//! The four operations, each on the records it touches.
//!
//! Every operation has a struct that holds the records and the time it works
//! with, and a `handler` that carries the operation out on them. A handler
//! that fails leaves the struct as it was.

pub mod create_attestation;
pub mod stake_reputation;
pub mod vote_attestation;
pub mod withdraw_stake;

pub use create_attestation::CreateAttestation;
pub use stake_reputation::StakeReputation;
pub use vote_attestation::VoteAttestation;
pub use withdraw_stake::WithdrawStake;
