//! Voting: anyone says whether an attestation was accurate.

use crate::errors::AttestationError;
use crate::score::MAX_REPUTATION;
use crate::state::attestation::{vote, Attestation, AttestationView};
use crate::state::provider::{ProviderView, SignalProvider};
use vstd::prelude::*;

verus! {

/// What a vote works with.
#[derive(Clone, Debug, PartialEq, Eq)]
pub struct VoteAttestation {
    /// Who votes. Anyone may, and as often as they like.
    pub voter: [u8; 32],
    /// The attestation voted on.
    pub attestation: Attestation,
    /// The record of the provider that published the attestation.
    pub provider: SignalProvider,
}

impl VoteAttestation {
    /// The provider record is that of the attestation's provider.
    pub open spec fn resolved(&self) -> bool {
        self.provider.authority@ == self.attestation.provider@
    }
}

/// Counts the vote and judges the attestation's provider, not the voter, by
/// the share of accurate votes that results.
pub fn handler(ctx: &mut VoteAttestation, is_accurate: bool) -> (res: Result<(), AttestationError>)
    requires
        old(ctx).resolved(),
        old(ctx).attestation@.has_room_for(old(ctx).provider@, is_accurate),
    ensures
        res is Ok,
        (final(ctx).attestation@, final(ctx).provider@) == vote(
            old(ctx).attestation@,
            old(ctx).provider@,
            is_accurate,
        ),
        final(ctx).provider.reputation <= MAX_REPUTATION,
        final(ctx).voter == old(ctx).voter,
{
    ctx.attestation.record_vote(&mut ctx.provider, is_accurate);
    Ok(())
}

} // verus!
