//! The two kinds of record that the ledger keeps.

pub mod attestation;
pub mod provider;

pub use attestation::{Attestation, AttestationView};
pub use provider::{ProviderView, SignalProvider};
