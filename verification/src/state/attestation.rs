//! Attestation records: a provider's risk score for one transaction, and the
//! votes cast on it.

use crate::errors::AttestationError;
use crate::identity::KEY_LEN;
use crate::score::{
    accuracy, accuracy_ratio, is_high, reputation_delta, Fraction, Ratio, MAX_REPUTATION, REWARD,
};
use crate::state::provider::{ProviderView, SignalProvider};
use vstd::prelude::*;
use vstd::string::*;

verus! {

/// The mathematical value of an [`Attestation`].
pub struct AttestationView {
    pub provider: Seq<u8>,
    pub transaction_hash: Seq<u8>,
    pub risk_score: nat,
    pub reason: Seq<char>,
    pub created_at: int,
    pub votes_for: nat,
    pub votes_against: nat,
}

impl AttestationView {
    /// What the ledger files the attestation under: its provider and the
    /// transaction it is about.
    pub open spec fn key(self) -> (Seq<u8>, Seq<u8>) {
        (self.provider, self.transaction_hash)
    }

    /// What holds of every attestation the ledger keeps.
    pub open spec fn valid(self) -> bool {
        &&& self.provider.len() == KEY_LEN
        &&& self.transaction_hash.len() == KEY_LEN
        &&& self.risk_score <= Attestation::MAX_RISK_SCORE
        &&& self.reason.len() <= Attestation::MAX_REASON_LEN
    }

    /// A new attestation without votes, unless the score or the reason is
    /// out of bounds. The score is looked at first.
    pub open spec fn create(
        provider: Seq<u8>,
        transaction_hash: Seq<u8>,
        risk_score: nat,
        reason: Seq<char>,
        now: int,
    ) -> Result<AttestationView, AttestationError> {
        if risk_score > Attestation::MAX_RISK_SCORE {
            Err(AttestationError::InvalidRiskScore)
        } else if reason.len() > Attestation::MAX_REASON_LEN {
            Err(AttestationError::ReasonTooLong)
        } else {
            Ok(
                AttestationView {
                    provider,
                    transaction_hash,
                    risk_score,
                    reason,
                    created_at: now,
                    votes_for: 0,
                    votes_against: 0,
                },
            )
        }
    }

    /// How many votes have been cast.
    pub open spec fn total_votes(self) -> nat {
        self.votes_for + self.votes_against
    }

    /// The share of votes that call the attestation accurate.
    pub open spec fn accuracy_ratio(self) -> Fraction {
        accuracy(self.votes_for, self.votes_against)
    }

    /// The counters that one more vote would raise are not yet at the limit
    /// of what a record can hold.
    pub open spec fn has_room_for(self, owner: ProviderView, is_accurate: bool) -> bool {
        &&& is_accurate ==> self.votes_for < u32::MAX
        &&& !is_accurate ==> self.votes_against < u32::MAX
        &&& is_high(self.voted(is_accurate).accuracy_ratio()) ==> owner.accurate_attestations
            < u32::MAX
    }

    /// The attestation with one more vote.
    pub open spec fn voted(self, is_accurate: bool) -> AttestationView {
        if is_accurate {
            AttestationView { votes_for: self.votes_for + 1, ..self }
        } else {
            AttestationView { votes_against: self.votes_against + 1, ..self }
        }
    }
}

/// One vote on `attestation`: the vote is counted, and the share of accurate
/// votes that results is what `owner`, the attestation's provider, is judged
/// by.
pub open spec fn vote(attestation: AttestationView, owner: ProviderView, is_accurate: bool) -> (
    AttestationView,
    ProviderView,
) {
    let counted = attestation.voted(is_accurate);
    (counted, owner.judged(counted.accuracy_ratio()))
}

/// The votes `ballots`, taken in one after the other.
pub open spec fn tally(attestation: AttestationView, owner: ProviderView, ballots: Seq<bool>) -> (
    AttestationView,
    ProviderView,
)
    decreases ballots.len(),
{
    if ballots.len() == 0 {
        (attestation, owner)
    } else {
        let (counted, judged) = tally(attestation, owner, ballots.drop_last());
        vote(counted, judged, ballots.last())
    }
}

/// How many of `ballots` call the attestation accurate.
pub open spec fn accurate_ballots(ballots: Seq<bool>) -> nat {
    ballots.filter(|b: bool| b).len()
}

/// No vote is lost: after any number of votes, in whatever order they were
/// taken in, the two counters have grown by exactly the votes cast for and
/// against, so their sum has grown by the number of votes.
pub proof fn lemma_every_vote_counted(
    attestation: AttestationView,
    owner: ProviderView,
    ballots: Seq<bool>,
)
    ensures
        tally(attestation, owner, ballots).0.votes_for == attestation.votes_for + accurate_ballots(
            ballots,
        ),
        tally(attestation, owner, ballots).0.votes_against == attestation.votes_against
            + ballots.len() - accurate_ballots(ballots),
        tally(attestation, owner, ballots).0.total_votes() == attestation.total_votes()
            + ballots.len(),
        tally(attestation, owner, ballots).0 == (AttestationView {
            votes_for: tally(attestation, owner, ballots).0.votes_for,
            votes_against: tally(attestation, owner, ballots).0.votes_against,
            ..attestation
        }),
    decreases ballots.len(),
{
    if ballots.len() > 0 {
        let rest = ballots.drop_last();
        lemma_every_vote_counted(attestation, owner, rest);
        assert(ballots =~= rest.push(ballots.last()));
        rest.lemma_filter_push(ballots.last(), |b: bool| b);
    }
}

/// Votes never take a reputation out of bounds, and never change what a
/// provider has staked or published.
pub proof fn lemma_votes_keep_provider_valid(
    attestation: AttestationView,
    owner: ProviderView,
    ballots: Seq<bool>,
)
    requires
        owner.valid(),
    ensures
        tally(attestation, owner, ballots).1.valid(),
        tally(attestation, owner, ballots).1.accurate_attestations >= owner.accurate_attestations,
        tally(attestation, owner, ballots).1 == (ProviderView {
            reputation: tally(attestation, owner, ballots).1.reputation,
            accurate_attestations: tally(attestation, owner, ballots).1.accurate_attestations,
            ..owner
        }),
    decreases ballots.len(),
{
    if ballots.len() > 0 {
        lemma_votes_keep_provider_valid(attestation, owner, ballots.drop_last());
    }
}

/// A provider's claim about how risky one transaction is.
#[derive(Clone, Debug, PartialEq, Eq)]
pub struct Attestation {
    /// The identity of the provider that published the attestation.
    pub provider: [u8; 32],
    /// The transaction that the attestation is about.
    pub transaction_hash: [u8; 32],
    /// The risk score, in `0 ..= 100`; higher is safer.
    pub risk_score: u8,
    /// Why the provider chose the score, in at most 200 characters.
    pub reason: String,
    /// When the attestation was published.
    pub created_at: i64,
    /// Votes that call the attestation accurate.
    pub votes_for: u32,
    /// Votes that call it inaccurate.
    pub votes_against: u32,
}

impl View for Attestation {
    type V = AttestationView;

    open spec fn view(&self) -> AttestationView {
        AttestationView {
            provider: self.provider@,
            transaction_hash: self.transaction_hash@,
            risk_score: self.risk_score as nat,
            reason: self.reason@,
            created_at: self.created_at as int,
            votes_for: self.votes_for as nat,
            votes_against: self.votes_against as nat,
        }
    }
}

impl Attestation {
    /// The highest risk score.
    pub const MAX_RISK_SCORE: u8 = 100;

    /// The most characters a reason can have.
    pub const MAX_REASON_LEN: usize = 200;

    /// A new attestation without votes, unless the score or the reason is
    /// out of bounds.
    pub fn create(
        provider: [u8; 32],
        transaction_hash: [u8; 32],
        risk_score: u8,
        reason: String,
        now: i64,
    ) -> (res: Result<Attestation, AttestationError>)
        ensures
            match AttestationView::create(
                provider@,
                transaction_hash@,
                risk_score as nat,
                reason@,
                now as int,
            ) {
                Ok(created) => res is Ok && res->Ok_0@ == created && created.valid(),
                Err(e) => res == Err::<Attestation, AttestationError>(e),
            },
    {
        if risk_score > Self::MAX_RISK_SCORE {
            return Err(AttestationError::InvalidRiskScore);
        }
        if reason.as_str().unicode_len() > Self::MAX_REASON_LEN {
            return Err(AttestationError::ReasonTooLong);
        }
        Ok(
            Attestation {
                provider,
                transaction_hash,
                risk_score,
                reason,
                created_at: now,
                votes_for: 0,
                votes_against: 0,
            },
        )
    }

    /// A copy of the record.
    pub fn duplicate(&self) -> (copy: Attestation)
        ensures
            copy == *self,
    {
        Attestation {
            provider: self.provider,
            transaction_hash: self.transaction_hash,
            risk_score: self.risk_score,
            reason: self.reason.clone(),
            created_at: self.created_at,
            votes_for: self.votes_for,
            votes_against: self.votes_against,
        }
    }

    /// The share of votes that call the attestation accurate.
    pub fn accuracy_ratio(&self) -> (ratio: Ratio)
        ensures
            ratio@ == self@.accuracy_ratio(),
            ratio.denominator > 0,
    {
        accuracy_ratio(self.votes_for, self.votes_against)
    }

    /// Whether the counters that one more vote would raise, on this record
    /// and on `owner`'s, are not yet at their limit.
    pub fn has_room_for(&self, owner: &SignalProvider, is_accurate: bool) -> (ok: bool)
        ensures
            ok == self@.has_room_for(owner@, is_accurate),
    {
        if is_accurate {
            self.votes_for < u32::MAX && (owner.accurate_attestations < u32::MAX
                || reputation_delta(accuracy_ratio(self.votes_for + 1, self.votes_against))
                != REWARD)
        } else {
            self.votes_against < u32::MAX && (owner.accurate_attestations < u32::MAX
                || reputation_delta(accuracy_ratio(self.votes_for, self.votes_against + 1))
                != REWARD)
        }
    }

    /// Counts one vote and judges `owner`, the attestation's provider, by the
    /// share of accurate votes that results.
    pub fn record_vote(&mut self, owner: &mut SignalProvider, is_accurate: bool)
        requires
            old(owner).authority@ == old(self).provider@,
            old(self)@.has_room_for(old(owner)@, is_accurate),
        ensures
            (final(self)@, final(owner)@) == vote(old(self)@, old(owner)@, is_accurate),
            final(owner).reputation <= MAX_REPUTATION,
    {
        if is_accurate {
            self.votes_for = self.votes_for + 1;
        } else {
            self.votes_against = self.votes_against + 1;
        }
        let ratio = self.accuracy_ratio();
        owner.judge(ratio);
    }
}

} // verus!
