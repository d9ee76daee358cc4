//! Staking: a provider locks collateral.

use crate::errors::AttestationError;
use crate::state::provider::{ProviderView, SignalProvider};
use vstd::prelude::*;

verus! {

/// What a stake deposit works with.
#[derive(Clone, Copy, Debug, PartialEq, Eq)]
pub struct StakeReputation {
    /// The depositor's record; that of a provider who has never staked, if
    /// the depositor is new.
    pub provider: SignalProvider,
    /// The time of the deposit.
    pub now: i64,
}

/// Locks `amount` for the provider and starts its cooldown again. On success
/// the caller owes the ledger a transfer of `amount` from the depositor.
pub fn handler(ctx: &mut StakeReputation, amount: u64) -> (res: Result<(), AttestationError>)
    requires
        old(ctx).provider@.has_room_for_deposit(amount as nat),
    ensures
        match old(ctx).provider@.deposit(amount as nat, old(ctx).now as int) {
            Ok(after) => res is Ok && final(ctx).provider@ == after && after.stake_ok()
                && final(ctx).now == old(ctx).now,
            Err(e) => res == Err::<(), AttestationError>(e) && *final(ctx) == *old(ctx),
        },
{
    ctx.provider.deposit_stake(amount, ctx.now)
}

} // verus!
