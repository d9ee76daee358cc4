//! A reputation-and-attestation ledger.
//!
//! Signal providers lock a stake, publish risk attestations about
//! transactions, and have their reputation moved by votes on how accurate
//! those attestations were.
//!
//! The four functions of this module are the operations of the ledger. Each
//! finds the records it needs, hands them to its handler in
//! [`instructions`], and files what the handler made of them. An operation
//! that fails leaves the ledger as it was. Balances are not kept here: after
//! a stake or a withdrawal that succeeded, the caller moves the amount.

pub mod errors;
pub mod identity;
pub mod instructions;
pub mod ledger;
pub mod registry;
pub mod score;
pub mod state;
pub mod store;
pub mod table;

use crate::errors::AttestationError;
use crate::instructions::{CreateAttestation, StakeReputation, VoteAttestation, WithdrawStake};
use crate::ledger::{
    lemma_create_attestation_keeps_valid, lemma_stake_keeps_valid, lemma_vote_keeps_valid,
    lemma_withdraw_keeps_valid, Ledger, LedgerView,
};
use vstd::prelude::*;

verus! {

/// Publishes `provider_authority`'s attestation for `transaction_hash`.
pub fn create_attestation(
    ledger: &mut Ledger,
    provider_authority: [u8; 32],
    now: i64,
    transaction_hash: [u8; 32],
    risk_score: u8,
    reason: String,
) -> (res: Result<(), AttestationError>)
    requires
        old(ledger).wf(),
        old(ledger)@.create_attestation(
            provider_authority@,
            transaction_hash@,
            risk_score as nat,
            reason@,
            now as int,
        ) is Ok ==> old(ledger)@.providers[provider_authority@].has_room_for_attestation(),
    ensures
        final(ledger).wf(),
        match old(ledger)@.create_attestation(
            provider_authority@,
            transaction_hash@,
            risk_score as nat,
            reason@,
            now as int,
        ) {
            Ok(after) => res is Ok && final(ledger)@ == after,
            Err(e) => res == Err::<(), AttestationError>(e) && *final(ledger) == *old(ledger),
        },
{
    let provider = match ledger.providers.get(&provider_authority) {
        Some(provider) => provider,
        None => {
            return Err(AttestationError::NotFound);
        },
    };
    let attestation = ledger.attestations.get(&provider_authority, &transaction_hash);
    let mut ctx = CreateAttestation { provider, attestation, now };
    proof {
        lemma_create_attestation_keeps_valid(
            ledger@,
            provider_authority@,
            transaction_hash@,
            risk_score as nat,
            reason@,
            now as int,
        );
    }
    match instructions::create_attestation::handler(&mut ctx, transaction_hash, risk_score, reason) {
        Ok(()) => {
            let CreateAttestation { provider, attestation, now: _ } = ctx;
            match ledger.attestations.create(attestation.unwrap()) {
                Ok(()) => {
                    ledger.providers.put(provider);
                    Ok(())
                },
                Err(e) => Err(e),
            }
        },
        Err(e) => Err(e),
    }
}

/// Locks `amount` for `authority`, who becomes a provider with the first
/// deposit.
pub fn stake_reputation(ledger: &mut Ledger, authority: [u8; 32], now: i64, amount: u64) -> (res:
    Result<(), AttestationError>)
    requires
        old(ledger).wf(),
        old(ledger)@.provider(authority@).has_room_for_deposit(amount as nat),
    ensures
        final(ledger).wf(),
        match old(ledger)@.stake(authority@, amount as nat, now as int) {
            Ok(after) => res is Ok && final(ledger)@ == after,
            Err(e) => res == Err::<(), AttestationError>(e) && *final(ledger) == *old(ledger),
        },
{
    let mut ctx = StakeReputation { provider: ledger.providers.get_or_create(authority), now };
    proof {
        lemma_stake_keeps_valid(ledger@, authority@, amount as nat, now as int);
    }
    match instructions::stake_reputation::handler(&mut ctx, amount) {
        Ok(()) => {
            ledger.providers.put(ctx.provider);
            Ok(())
        },
        Err(e) => Err(e),
    }
}

/// Counts `voter`'s vote on the attestation by `provider` for
/// `transaction_hash`, and judges `provider` by the result.
pub fn vote_attestation(
    ledger: &mut Ledger,
    voter: [u8; 32],
    provider: [u8; 32],
    transaction_hash: [u8; 32],
    is_accurate: bool,
) -> (res: Result<(), AttestationError>)
    requires
        old(ledger).wf(),
        old(ledger)@.has_room_for_vote(provider@, transaction_hash@, is_accurate),
    ensures
        final(ledger).wf(),
        match old(ledger)@.vote(provider@, transaction_hash@, is_accurate) {
            Ok(after) => res is Ok && final(ledger)@ == after,
            Err(e) => res == Err::<(), AttestationError>(e) && *final(ledger) == *old(ledger),
        },
{
    let attestation = match ledger.attestations.get(&provider, &transaction_hash) {
        Some(attestation) => attestation,
        None => {
            return Err(AttestationError::NotFound);
        },
    };
    // A well-formed ledger has every attestation's provider on record, so
    // this lookup finds it.
    let owner = match ledger.providers.get(&provider) {
        Some(owner) => owner,
        None => {
            return Err(AttestationError::NotFound);
        },
    };
    let mut ctx = VoteAttestation { voter, attestation, provider: owner };
    proof {
        lemma_vote_keeps_valid(ledger@, provider@, transaction_hash@, is_accurate);
    }
    match instructions::vote_attestation::handler(&mut ctx, is_accurate) {
        Ok(()) => {
            let VoteAttestation { voter: _, attestation, provider } = ctx;
            ledger.attestations.put(attestation);
            ledger.providers.put(provider);
            Ok(())
        },
        Err(e) => Err(e),
    }
}

/// Releases `amount` of `authority`'s stake.
pub fn withdraw_stake(ledger: &mut Ledger, authority: [u8; 32], now: i64, amount: u64) -> (res:
    Result<(), AttestationError>)
    requires
        old(ledger).wf(),
    ensures
        final(ledger).wf(),
        match old(ledger)@.withdraw(authority@, amount as nat, now as int) {
            Ok(after) => res is Ok && final(ledger)@ == after,
            Err(e) => res == Err::<(), AttestationError>(e) && *final(ledger) == *old(ledger),
        },
{
    let provider = match ledger.providers.get(&authority) {
        Some(provider) => provider,
        None => {
            return Err(AttestationError::NotFound);
        },
    };
    let mut ctx = WithdrawStake { authority, provider, now };
    proof {
        lemma_withdraw_keeps_valid(ledger@, authority@, amount as nat, now as int);
    }
    match instructions::withdraw_stake::handler(&mut ctx, amount) {
        Ok(()) => {
            ledger.providers.put(ctx.provider);
            Ok(())
        },
        Err(e) => Err(e),
    }
}

} // verus!
