//! Attesting: a staked provider publishes a risk score for a transaction.

use crate::errors::AttestationError;
use crate::state::attestation::{Attestation, AttestationView};
use crate::state::provider::{ProviderView, SignalProvider};
use vstd::prelude::*;

verus! {

/// What the publication of an attestation works with.
#[derive(Clone, Debug, PartialEq, Eq)]
pub struct CreateAttestation {
    /// The publishing provider's record.
    pub provider: SignalProvider,
    /// What is on record for the provider and the transaction: nothing
    /// before a publication that succeeds, the new attestation after it.
    pub attestation: Option<Attestation>,
    /// The time of the publication.
    pub now: i64,
}

impl CreateAttestation {
    /// What a publication makes of the two records, or why it is rejected.
    /// The provider's stake is looked at first, then the score, then the
    /// reason, and last whether the attestation is there already.
    pub open spec fn outcome(
        &self,
        transaction_hash: Seq<u8>,
        risk_score: nat,
        reason: Seq<char>,
    ) -> Result<(ProviderView, AttestationView), AttestationError> {
        if !self.provider@.can_attest() {
            Err(AttestationError::InsufficientStake)
        } else {
            match AttestationView::create(
                self.provider@.authority,
                transaction_hash,
                risk_score,
                reason,
                self.now as int,
            ) {
                Err(e) => Err(e),
                Ok(created) => if self.attestation is Some {
                    Err(AttestationError::DuplicateAttestation)
                } else {
                    Ok((self.provider@.attested(), created))
                },
            }
        }
    }
}

/// Publishes the provider's attestation for `transaction_hash` and counts it
/// on the provider's record.
pub fn handler(
    ctx: &mut CreateAttestation,
    transaction_hash: [u8; 32],
    risk_score: u8,
    reason: String,
) -> (res: Result<(), AttestationError>)
    requires
        old(ctx).outcome(transaction_hash@, risk_score as nat, reason@) is Ok ==> old(
            ctx,
        ).provider@.has_room_for_attestation(),
    ensures
        match old(ctx).outcome(transaction_hash@, risk_score as nat, reason@) {
            Ok((provider, attestation)) => res is Ok && final(ctx).provider@ == provider
                && final(ctx).attestation is Some && final(ctx).attestation->Some_0@
                == attestation && attestation.valid() && final(ctx).now == old(ctx).now,
            Err(e) => res == Err::<(), AttestationError>(e) && *final(ctx) == *old(ctx),
        },
{
    if ctx.provider.stake < SignalProvider::MIN_STAKE {
        return Err(AttestationError::InsufficientStake);
    }
    let created = match Attestation::create(
        ctx.provider.authority,
        transaction_hash,
        risk_score,
        reason,
        ctx.now,
    ) {
        Ok(created) => created,
        Err(e) => {
            return Err(e);
        },
    };
    if ctx.attestation.is_some() {
        return Err(AttestationError::DuplicateAttestation);
    }
    ctx.attestation = Some(created);
    ctx.provider.count_attestation();
    Ok(())
}

} // verus!
