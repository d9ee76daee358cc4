//! Provider records: the stake an authority has locked and the reputation
//! its attestations have earned.

use crate::errors::AttestationError;
use crate::identity::{same_key, KEY_LEN};
use crate::score::{
    apply_delta, clamped, cooldown_elapsed, delta, is_high, reputation_delta, Fraction, Ratio,
    MAX_REPUTATION, REWARD,
};
use vstd::prelude::*;

verus! {

/// The mathematical value of a [`SignalProvider`].
pub struct ProviderView {
    pub authority: Seq<u8>,
    pub stake: nat,
    pub reputation: nat,
    pub attestations_count: nat,
    pub accurate_attestations: nat,
    pub last_stake_at: int,
}

impl ProviderView {
    /// The record of an authority that has never staked.
    pub open spec fn fresh(authority: Seq<u8>) -> ProviderView {
        ProviderView {
            authority,
            stake: 0,
            reputation: SignalProvider::INITIAL_REPUTATION as nat,
            attestations_count: 0,
            accurate_attestations: 0,
            last_stake_at: 0,
        }
    }

    /// Nothing is locked, or at least the stake floor is.
    pub open spec fn stake_ok(self) -> bool {
        self.stake == 0 || self.stake >= SignalProvider::MIN_STAKE
    }

    /// The reputation lies in `0 ..= MAX_REPUTATION`.
    pub open spec fn reputation_ok(self) -> bool {
        self.reputation <= MAX_REPUTATION
    }

    /// What holds of every provider record the ledger keeps.
    pub open spec fn valid(self) -> bool {
        &&& self.authority.len() == KEY_LEN
        &&& self.stake_ok()
        &&& self.reputation_ok()
    }

    /// The stake is enough to publish attestations.
    pub open spec fn can_attest(self) -> bool {
        self.stake >= SignalProvider::MIN_STAKE
    }

    /// The cooldown since the last deposit has run out at `now`.
    pub open spec fn can_withdraw(self, now: int) -> bool {
        now - self.last_stake_at >= SignalProvider::WITHDRAW_COOLDOWN
    }

    /// The share of attestations counted as accurate; zero before the first
    /// attestation.
    pub open spec fn accuracy_rate(self) -> Fraction {
        if self.attestations_count == 0 {
            Fraction { num: 0, den: 1 }
        } else {
            Fraction {
                num: self.accurate_attestations as int,
                den: self.attestations_count as int,
            }
        }
    }

    /// A deposit of `amount` would not take the stake over the limit of what
    /// a record can hold.
    pub open spec fn has_room_for_deposit(self, amount: nat) -> bool {
        amount >= SignalProvider::MIN_STAKE ==> self.stake + amount <= u64::MAX
    }

    /// One more attestation can be counted.
    pub open spec fn has_room_for_attestation(self) -> bool {
        self.attestations_count < u32::MAX
    }

    /// A deposit of `amount` at `now`: rejected under the stake floor, else
    /// added to the stake, and the cooldown starts again.
    pub open spec fn deposit(self, amount: nat, now: int) -> Result<ProviderView, AttestationError> {
        if amount < SignalProvider::MIN_STAKE {
            Err(AttestationError::InsufficientStake)
        } else {
            Ok(ProviderView { stake: self.stake + amount, last_stake_at: now, ..self })
        }
    }

    /// A withdrawal of `amount` by `caller` at `now`. Only the authority may
    /// withdraw, only after the cooldown, at most what is locked, and only
    /// if what remains is nothing or at least the stake floor.
    pub open spec fn withdraw(self, caller: Seq<u8>, amount: nat, now: int) -> Result<
        ProviderView,
        AttestationError,
    > {
        if caller != self.authority {
            Err(AttestationError::Unauthorized)
        } else if !self.can_withdraw(now) {
            Err(AttestationError::WithdrawCooldown)
        } else if amount > self.stake {
            Err(AttestationError::InsufficientStake)
        } else if 0 < self.stake - amount < SignalProvider::MIN_STAKE {
            Err(AttestationError::InsufficientStake)
        } else {
            Ok(ProviderView { stake: (self.stake - amount) as nat, ..self })
        }
    }

    /// One more attestation published.
    pub open spec fn attested(self) -> ProviderView {
        ProviderView { attestations_count: self.attestations_count + 1, ..self }
    }

    /// The effect of a vote that left one of the provider's attestations with
    /// the vote share `share`: the reputation moves by the step the share
    /// earns, and a high share counts as one more accurate attestation, each
    /// time a vote leaves one.
    pub open spec fn judged(self, share: Fraction) -> ProviderView {
        ProviderView {
            reputation: clamped(self.reputation as int, delta(share)) as nat,
            accurate_attestations: if is_high(share) {
                self.accurate_attestations + 1
            } else {
                self.accurate_attestations
            },
            ..self
        }
    }
}

/// A signal provider, one per authority.
#[derive(Clone, Copy, Debug, PartialEq, Eq)]
pub struct SignalProvider {
    /// The identity that owns the record.
    pub authority: [u8; 32],
    /// The collateral locked at the moment.
    pub stake: u64,
    /// The reputation, in `0 ..= 1000`.
    pub reputation: u32,
    /// How many attestations the provider has published.
    pub attestations_count: u32,
    /// How many votes left one of them with a high share of accurate votes.
    pub accurate_attestations: u32,
    /// When the provider last deposited stake.
    pub last_stake_at: i64,
}

impl View for SignalProvider {
    type V = ProviderView;

    open spec fn view(&self) -> ProviderView {
        ProviderView {
            authority: self.authority@,
            stake: self.stake as nat,
            reputation: self.reputation as nat,
            attestations_count: self.attestations_count as nat,
            accurate_attestations: self.accurate_attestations as nat,
            last_stake_at: self.last_stake_at as int,
        }
    }
}

impl SignalProvider {
    /// The least amount that can be deposited, and the least nonzero stake.
    pub const MIN_STAKE: u64 = 1_000_000_000;

    /// Seconds between a deposit and the first withdrawal after it: 7 days.
    pub const WITHDRAW_COOLDOWN: i64 = 7 * 24 * 60 * 60;

    /// The reputation of a provider that has not been voted on.
    pub const INITIAL_REPUTATION: u32 = 500;

    /// The record of an authority that has never staked.
    pub fn new(authority: [u8; 32]) -> (provider: SignalProvider)
        ensures
            provider@ == ProviderView::fresh(authority@),
            provider.authority == authority,
    {
        SignalProvider {
            authority,
            stake: 0,
            reputation: Self::INITIAL_REPUTATION,
            attestations_count: 0,
            accurate_attestations: 0,
            last_stake_at: 0,
        }
    }

    /// The share of attestations counted as accurate.
    pub fn accuracy_rate(&self) -> (rate: Ratio)
        ensures
            rate@ == self@.accuracy_rate(),
            rate.denominator > 0,
    {
        if self.attestations_count == 0 {
            Ratio { numerator: 0, denominator: 1 }
        } else {
            Ratio {
                numerator: self.accurate_attestations as u64,
                denominator: self.attestations_count as u64,
            }
        }
    }

    /// Whether the cooldown since the last deposit has run out.
    pub fn can_withdraw(&self, current_time: i64) -> (ok: bool)
        ensures
            ok == self@.can_withdraw(current_time as int),
    {
        cooldown_elapsed(current_time, self.last_stake_at, Self::WITHDRAW_COOLDOWN)
    }

    /// Whether a deposit of `amount` would leave a stake that the record can
    /// hold. A deposit under the stake floor is rejected, and so fits.
    pub fn has_room_for_deposit(&self, amount: u64) -> (ok: bool)
        ensures
            ok == self@.has_room_for_deposit(amount as nat),
    {
        amount < Self::MIN_STAKE || amount <= u64::MAX - self.stake
    }

    /// Whether the record can count one more attestation.
    pub fn has_room_for_attestation(&self) -> (ok: bool)
        ensures
            ok == self@.has_room_for_attestation(),
    {
        self.attestations_count < u32::MAX
    }

    /// Locks `amount` more at `now`, unless it is under the stake floor.
    pub fn deposit_stake(&mut self, amount: u64, now: i64) -> (res: Result<(), AttestationError>)
        requires
            old(self)@.has_room_for_deposit(amount as nat),
        ensures
            match old(self)@.deposit(amount as nat, now as int) {
                Ok(after) => res is Ok && final(self)@ == after && final(self)@.stake_ok(),
                Err(e) => res == Err::<(), AttestationError>(e) && *final(self) == *old(self),
            },
    {
        if amount < Self::MIN_STAKE {
            return Err(AttestationError::InsufficientStake);
        }
        self.stake = self.stake + amount;
        self.last_stake_at = now;
        Ok(())
    }

    /// Releases `amount` to `caller` at `now`, if `caller` is the authority,
    /// the cooldown has run out, the stake covers the amount, and what stays
    /// locked is nothing or at least the stake floor.
    pub fn withdraw_stake(&mut self, caller: &[u8; 32], amount: u64, now: i64) -> (res: Result<
        (),
        AttestationError,
    >)
        ensures
            match old(self)@.withdraw(caller@, amount as nat, now as int) {
                Ok(after) => res is Ok && final(self)@ == after && final(self)@.stake_ok(),
                Err(e) => res == Err::<(), AttestationError>(e) && *final(self) == *old(self),
            },
    {
        if !same_key(caller, &self.authority) {
            return Err(AttestationError::Unauthorized);
        }
        if !self.can_withdraw(now) {
            return Err(AttestationError::WithdrawCooldown);
        }
        if amount > self.stake {
            return Err(AttestationError::InsufficientStake);
        }
        let remaining: u64 = self.stake - amount;
        if remaining != 0 && remaining < Self::MIN_STAKE {
            return Err(AttestationError::InsufficientStake);
        }
        self.stake = remaining;
        Ok(())
    }

    /// Counts one more published attestation.
    pub fn count_attestation(&mut self)
        requires
            old(self)@.has_room_for_attestation(),
        ensures
            final(self)@ == old(self)@.attested(),
    {
        self.attestations_count = self.attestations_count + 1;
    }

    /// Takes in a vote that left one of the provider's attestations with the
    /// vote share `ratio`.
    pub fn judge(&mut self, ratio: Ratio)
        requires
            is_high(ratio@) ==> old(self).accurate_attestations < u32::MAX,
        ensures
            final(self)@ == old(self)@.judged(ratio@),
            final(self).reputation <= MAX_REPUTATION,
    {
        let step: i32 = reputation_delta(ratio);
        self.reputation = apply_delta(self.reputation, step);
        if step == REWARD {
            self.accurate_attestations = self.accurate_attestations + 1;
        }
    }
}

} // verus!
