//! Withdrawing: a provider takes collateral back.

use crate::errors::AttestationError;
use crate::state::provider::{ProviderView, SignalProvider};
use vstd::prelude::*;

verus! {

/// What a withdrawal works with.
#[derive(Clone, Copy, Debug, PartialEq, Eq)]
pub struct WithdrawStake {
    /// Who asks for the withdrawal.
    pub authority: [u8; 32],
    /// The record to withdraw from.
    pub provider: SignalProvider,
    /// The time of the withdrawal.
    pub now: i64,
}

/// Releases `amount` of the provider's stake, if the one who asks is its
/// authority, the cooldown has run out, and the stake that remains is nothing
/// or at least the floor. On success the caller owes the authority a transfer
/// of `amount`.
pub fn handler(ctx: &mut WithdrawStake, amount: u64) -> (res: Result<(), AttestationError>)
    ensures
        match old(ctx).provider@.withdraw(old(ctx).authority@, amount as nat, old(ctx).now as int) {
            Ok(after) => res is Ok && final(ctx).provider@ == after && after.stake_ok()
                && final(ctx).authority == old(ctx).authority && final(ctx).now == old(ctx).now,
            Err(e) => res == Err::<(), AttestationError>(e) && *final(ctx) == *old(ctx),
        },
{
    let authority = ctx.authority;
    ctx.provider.withdraw_stake(&authority, amount, ctx.now)
}

} // verus!
