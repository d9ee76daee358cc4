//! Score arithmetic: vote shares, reputation steps and the withdrawal cooldown.
//!
//! A vote share is kept as an exact fraction, so every comparison against a
//! threshold is a comparison of integers.

use vstd::prelude::*;

verus! {

/// The highest reputation a provider can reach.
pub const MAX_REPUTATION: u32 = 1000;

/// The reputation step for a vote that leaves a high share of accurate votes.
pub const REWARD: i32 = 1;

/// The reputation step for a vote that leaves a low share of accurate votes.
pub const PENALTY: i32 = -2;

/// A fraction of integers, the mathematical value of a [`Ratio`].
pub struct Fraction {
    pub num: int,
    pub den: int,
}

impl Fraction {
    /// The fraction is greater than `n / d`, for positive `d` and `self.den`.
    pub open spec fn gt(self, n: int, d: int) -> bool {
        self.num * d > n * self.den
    }

    /// The fraction is less than `n / d`, for positive `d` and `self.den`.
    pub open spec fn lt(self, n: int, d: int) -> bool {
        self.num * d < n * self.den
    }
}

/// A share of votes, `numerator / denominator`, not reduced.
#[derive(Clone, Copy, Debug, PartialEq, Eq)]
pub struct Ratio {
    pub numerator: u64,
    pub denominator: u64,
}

impl View for Ratio {
    type V = Fraction;

    open spec fn view(&self) -> Fraction {
        Fraction { num: self.numerator as int, den: self.denominator as int }
    }
}

/// The share of `votes_for` among all votes; one half while nobody has voted.
pub open spec fn accuracy(votes_for: nat, votes_against: nat) -> Fraction {
    if votes_for + votes_against == 0 {
        Fraction { num: 1, den: 2 }
    } else {
        Fraction { num: votes_for as int, den: (votes_for + votes_against) as int }
    }
}

/// The share is strictly above seven tenths.
pub open spec fn is_high(share: Fraction) -> bool {
    share.gt(7, 10)
}

/// The share is strictly below three tenths.
pub open spec fn is_low(share: Fraction) -> bool {
    share.lt(3, 10)
}

/// The reputation step that a vote share earns: a reward for a high share, a
/// penalty for a low one, nothing in between.
pub open spec fn delta(share: Fraction) -> int {
    if is_high(share) {
        REWARD as int
    } else if is_low(share) {
        PENALTY as int
    } else {
        0
    }
}

/// `reputation + step`, held inside `0 ..= MAX_REPUTATION`.
pub open spec fn clamped(reputation: int, step: int) -> int {
    if reputation + step < 0 {
        0
    } else if reputation + step > MAX_REPUTATION {
        MAX_REPUTATION as int
    } else {
        reputation + step
    }
}

/// The share of accurate votes among `votes_for + votes_against` votes.
pub fn accuracy_ratio(votes_for: u32, votes_against: u32) -> (ratio: Ratio)
    ensures
        ratio@ == accuracy(votes_for as nat, votes_against as nat),
        ratio.denominator > 0,
{
    let total: u64 = votes_for as u64 + votes_against as u64;
    if total == 0 {
        Ratio { numerator: 1, denominator: 2 }
    } else {
        Ratio { numerator: votes_for as u64, denominator: total }
    }
}

/// The reputation step for a vote share.
pub fn reputation_delta(ratio: Ratio) -> (step: i32)
    ensures
        step == delta(ratio@),
        step == REWARD || step == PENALTY || step == 0,
{
    let num: u128 = ratio.numerator as u128 * 10;
    let den: u128 = ratio.denominator as u128;
    if num > 7 * den {
        REWARD
    } else if num < 3 * den {
        PENALTY
    } else {
        0
    }
}

/// Moves a reputation by `step` without leaving `0 ..= MAX_REPUTATION`.
pub fn apply_delta(reputation: u32, step: i32) -> (moved: u32)
    ensures
        moved == clamped(reputation as int, step as int),
        moved <= MAX_REPUTATION,
{
    let sum: i64 = reputation as i64 + step as i64;
    if sum < 0 {
        0
    } else if sum > MAX_REPUTATION as i64 {
        MAX_REPUTATION
    } else {
        sum as u32
    }
}

/// Whether at least `cooldown_duration` seconds lie between `last_stake_at`
/// and `now`.
pub fn cooldown_elapsed(now: i64, last_stake_at: i64, cooldown_duration: i64) -> (elapsed: bool)
    ensures
        elapsed == (now - last_stake_at >= cooldown_duration),
{
    now as i128 - last_stake_at as i128 >= cooldown_duration as i128
}

} // verus!
