//! The ledger: every provider and every attestation on record, and what the
//! four operations make of them.

use crate::errors::AttestationError;
use crate::identity::KEY_LEN;
use crate::registry::ProviderRegistry;
use crate::state::attestation::{tally, vote, AttestationView};
use crate::state::provider::{ProviderView, SignalProvider};
use crate::store::AttestationStore;
use vstd::prelude::*;

verus! {

/// The mathematical value of a [`Ledger`]: the providers by authority, and
/// the attestations by provider and transaction.
pub struct LedgerView {
    pub providers: Map<Seq<u8>, ProviderView>,
    pub attestations: Map<(Seq<u8>, Seq<u8>), AttestationView>,
}

/// One request to the ledger, with everything it depends on.
pub enum Operation {
    Stake { authority: Seq<u8>, amount: nat, now: int },
    Withdraw { authority: Seq<u8>, amount: nat, now: int },
    CreateAttestation {
        authority: Seq<u8>,
        transaction_hash: Seq<u8>,
        risk_score: nat,
        reason: Seq<char>,
        now: int,
    },
    Vote { provider: Seq<u8>, transaction_hash: Seq<u8>, is_accurate: bool },
}

impl Operation {
    /// The identities and the transaction reference that the request names
    /// have the length of a key.
    pub open spec fn well_formed(self) -> bool {
        match self {
            Operation::Stake { authority, .. } => authority.len() == KEY_LEN,
            Operation::Withdraw { authority, .. } => authority.len() == KEY_LEN,
            Operation::CreateAttestation { authority, transaction_hash, .. } => authority.len()
                == KEY_LEN && transaction_hash.len() == KEY_LEN,
            Operation::Vote { provider, transaction_hash, .. } => provider.len() == KEY_LEN
                && transaction_hash.len() == KEY_LEN,
        }
    }
}

impl LedgerView {
    /// The ledger before the first operation.
    pub open spec fn empty() -> LedgerView {
        LedgerView { providers: Map::empty(), attestations: Map::empty() }
    }

    /// What holds of the ledger between any two operations: every record is
    /// valid and filed under its own key, and every attestation's provider
    /// is on record.
    pub open spec fn valid(self) -> bool {
        &&& forall|authority: Seq<u8>| #[trigger]
            self.providers.contains_key(authority) ==> self.providers[authority].valid()
                && self.providers[authority].authority == authority
        &&& forall|key: (Seq<u8>, Seq<u8>)| #[trigger]
            self.attestations.contains_key(key) ==> self.attestations[key].valid()
                && self.attestations[key].key() == key && self.providers.contains_key(key.0)
    }

    /// Nothing that was on record in `before` has been lost: every provider
    /// is still there with counters that have not gone down, and every
    /// attestation is still there, unchanged but for votes that have not
    /// gone down.
    pub open spec fn extends(self, before: LedgerView) -> bool {
        &&& forall|authority: Seq<u8>| #[trigger]
            before.providers.contains_key(authority) ==> {
                let was = before.providers[authority];
                let is = self.providers[authority];
                &&& self.providers.contains_key(authority)
                &&& is.authority == was.authority
                &&& is.attestations_count >= was.attestations_count
                &&& is.accurate_attestations >= was.accurate_attestations
            }
        &&& forall|key: (Seq<u8>, Seq<u8>)| #[trigger]
            before.attestations.contains_key(key) ==> {
                let was = before.attestations[key];
                let is = self.attestations[key];
                &&& self.attestations.contains_key(key)
                &&& is.votes_for >= was.votes_for
                &&& is.votes_against >= was.votes_against
                &&& is == AttestationView {
                    votes_for: is.votes_for,
                    votes_against: is.votes_against,
                    ..was
                }
            }
    }

    /// The record of `authority`; that of a provider that has never staked,
    /// if it has none.
    pub open spec fn provider(self, authority: Seq<u8>) -> ProviderView {
        if self.providers.contains_key(authority) {
            self.providers[authority]
        } else {
            ProviderView::fresh(authority)
        }
    }

    /// `authority` deposits `amount` at `now`. A first deposit puts the
    /// provider on record.
    pub open spec fn stake(self, authority: Seq<u8>, amount: nat, now: int) -> Result<
        LedgerView,
        AttestationError,
    > {
        match self.provider(authority).deposit(amount, now) {
            Ok(provider) => Ok(
                LedgerView { providers: self.providers.insert(authority, provider), ..self },
            ),
            Err(e) => Err(e),
        }
    }

    /// `authority` withdraws `amount` at `now`.
    pub open spec fn withdraw(self, authority: Seq<u8>, amount: nat, now: int) -> Result<
        LedgerView,
        AttestationError,
    > {
        if !self.providers.contains_key(authority) {
            Err(AttestationError::NotFound)
        } else {
            match self.providers[authority].withdraw(authority, amount, now) {
                Ok(provider) => Ok(
                    LedgerView { providers: self.providers.insert(authority, provider), ..self },
                ),
                Err(e) => Err(e),
            }
        }
    }

    /// `authority` publishes an attestation for `transaction_hash` at `now`.
    /// The provider must be on record with at least the stake floor locked,
    /// the score and the reason must be in bounds, and the provider must not
    /// have attested the transaction before; the first of these that fails
    /// names the error.
    pub open spec fn create_attestation(
        self,
        authority: Seq<u8>,
        transaction_hash: Seq<u8>,
        risk_score: nat,
        reason: Seq<char>,
        now: int,
    ) -> Result<LedgerView, AttestationError> {
        if !self.providers.contains_key(authority) {
            Err(AttestationError::NotFound)
        } else if !self.providers[authority].can_attest() {
            Err(AttestationError::InsufficientStake)
        } else {
            match AttestationView::create(authority, transaction_hash, risk_score, reason, now) {
                Err(e) => Err(e),
                Ok(created) => if self.attestations.contains_key((authority, transaction_hash)) {
                    Err(AttestationError::DuplicateAttestation)
                } else {
                    Ok(
                        LedgerView {
                            providers: self.providers.insert(
                                authority,
                                self.providers[authority].attested(),
                            ),
                            attestations: self.attestations.insert(
                                (authority, transaction_hash),
                                created,
                            ),
                        },
                    )
                },
            }
        }
    }

    /// A vote on the attestation by `provider` for `transaction_hash`.
    pub open spec fn vote(
        self,
        provider: Seq<u8>,
        transaction_hash: Seq<u8>,
        is_accurate: bool,
    ) -> Result<LedgerView, AttestationError> {
        if !self.attestations.contains_key((provider, transaction_hash)) {
            Err(AttestationError::NotFound)
        } else {
            let (counted, judged) = vote(
                self.attestations[(provider, transaction_hash)],
                self.providers[provider],
                is_accurate,
            );
            Ok(
                LedgerView {
                    providers: self.providers.insert(provider, judged),
                    attestations: self.attestations.insert((provider, transaction_hash), counted),
                },
            )
        }
    }

    /// The votes `ballots` on the attestation by `provider` for
    /// `transaction_hash`, taken in one after the other.
    pub open spec fn votes(
        self,
        provider: Seq<u8>,
        transaction_hash: Seq<u8>,
        ballots: Seq<bool>,
    ) -> Result<LedgerView, AttestationError>
        decreases ballots.len(),
    {
        if ballots.len() == 0 {
            Ok(self)
        } else {
            match self.votes(provider, transaction_hash, ballots.drop_last()) {
                Ok(counted) => counted.vote(provider, transaction_hash, ballots.last()),
                Err(e) => Err(e),
            }
        }
    }

    /// What `operation` makes of the ledger, or why it is rejected.
    pub open spec fn apply(self, operation: Operation) -> Result<LedgerView, AttestationError> {
        match operation {
            Operation::Stake { authority, amount, now } => self.stake(authority, amount, now),
            Operation::Withdraw { authority, amount, now } => self.withdraw(
                authority,
                amount,
                now,
            ),
            Operation::CreateAttestation {
                authority,
                transaction_hash,
                risk_score,
                reason,
                now,
            } => self.create_attestation(authority, transaction_hash, risk_score, reason, now),
            Operation::Vote { provider, transaction_hash, is_accurate } => self.vote(
                provider,
                transaction_hash,
                is_accurate,
            ),
        }
    }

    /// The ledger after a history of operations, each of which either took
    /// effect or was rejected and changed nothing.
    pub open spec fn run(self, history: Seq<Operation>) -> LedgerView
        decreases history.len(),
    {
        if history.len() == 0 {
            self
        } else {
            let before = self.run(history.drop_last());
            match before.apply(history.last()) {
                Ok(after) => after,
                Err(_) => before,
            }
        }
    }

    /// The counters that a vote would raise are not yet at the limit of what
    /// a record can hold.
    pub open spec fn has_room_for_vote(
        self,
        provider: Seq<u8>,
        transaction_hash: Seq<u8>,
        is_accurate: bool,
    ) -> bool {
        self.attestations.contains_key((provider, transaction_hash)) ==> self.attestations[(
            provider,
            transaction_hash,
        )].has_room_for(self.providers[provider], is_accurate)
    }
}

/// A deposit leaves a valid ledger valid and loses nothing that was on
/// record. The depositor's stake is at least the floor afterwards.
pub proof fn lemma_stake_keeps_valid(ledger: LedgerView, authority: Seq<u8>, amount: nat, now: int)
    requires
        ledger.valid(),
        authority.len() == KEY_LEN,
    ensures
        ledger.stake(authority, amount, now) matches Ok(after) ==> after.valid() && after.extends(
            ledger,
        ) && after.providers[authority].stake >= SignalProvider::MIN_STAKE,
{
}

/// A withdrawal leaves a valid ledger valid and loses nothing that was on
/// record. What stays locked is nothing or at least the floor.
pub proof fn lemma_withdraw_keeps_valid(
    ledger: LedgerView,
    authority: Seq<u8>,
    amount: nat,
    now: int,
)
    requires
        ledger.valid(),
    ensures
        ledger.withdraw(authority, amount, now) matches Ok(after) ==> after.valid()
            && after.extends(ledger) && after.providers[authority].stake_ok(),
{
}

/// A publication leaves a valid ledger valid and loses nothing that was on
/// record.
pub proof fn lemma_create_attestation_keeps_valid(
    ledger: LedgerView,
    authority: Seq<u8>,
    transaction_hash: Seq<u8>,
    risk_score: nat,
    reason: Seq<char>,
    now: int,
)
    requires
        ledger.valid(),
        transaction_hash.len() == KEY_LEN,
    ensures
        ledger.create_attestation(authority, transaction_hash, risk_score, reason, now) matches Ok(
            after,
        ) ==> after.valid() && after.extends(ledger),
{
}

/// A vote leaves a valid ledger valid and loses nothing that was on record.
/// The reputation of the attestation's provider is still in bounds.
pub proof fn lemma_vote_keeps_valid(
    ledger: LedgerView,
    provider: Seq<u8>,
    transaction_hash: Seq<u8>,
    is_accurate: bool,
)
    requires
        ledger.valid(),
    ensures
        ledger.vote(provider, transaction_hash, is_accurate) matches Ok(after) ==> after.valid()
            && after.extends(ledger) && after.providers[provider].reputation_ok(),
{
}

/// Whatever is asked of a valid ledger, in whatever order, it stays valid and
/// loses nothing that was on record. The empty ledger is valid, so this holds
/// of every ledger that the operations can reach.
pub proof fn lemma_every_history_keeps_valid(ledger: LedgerView, history: Seq<Operation>)
    requires
        ledger.valid(),
        forall|i: int| 0 <= i < history.len() ==> (#[trigger] history[i]).well_formed(),
    ensures
        ledger.run(history).valid(),
        ledger.run(history).extends(ledger),
        LedgerView::empty().valid(),
    decreases history.len(),
{
    if history.len() > 0 {
        let earlier = history.drop_last();
        lemma_every_history_keeps_valid(ledger, earlier);
        let before = ledger.run(earlier);
        match history.last() {
            Operation::Stake { authority, amount, now } => {
                lemma_stake_keeps_valid(before, authority, amount, now);
            },
            Operation::Withdraw { authority, amount, now } => {
                lemma_withdraw_keeps_valid(before, authority, amount, now);
            },
            Operation::CreateAttestation {
                authority,
                transaction_hash,
                risk_score,
                reason,
                now,
            } => {
                lemma_create_attestation_keeps_valid(
                    before,
                    authority,
                    transaction_hash,
                    risk_score,
                    reason,
                    now,
                );
            },
            Operation::Vote { provider, transaction_hash, is_accurate } => {
                lemma_vote_keeps_valid(before, provider, transaction_hash, is_accurate);
            },
        }
    }
}

/// A deposit starts the cooldown. Until it has run out the depositor can
/// withdraw nothing, whatever the amount; from then on the whole stake can be
/// withdrawn, which leaves none.
pub proof fn lemma_stake_starts_cooldown(
    ledger: LedgerView,
    authority: Seq<u8>,
    amount: nat,
    now: int,
    later: int,
    wanted: nat,
)
    requires
        ledger.valid(),
        ledger.stake(authority, amount, now) is Ok,
    ensures
        ({
            let staked = ledger.stake(authority, amount, now)->Ok_0;
            let locked = staked.providers[authority].stake;
            &&& later - now < SignalProvider::WITHDRAW_COOLDOWN ==> staked.withdraw(
                authority,
                wanted,
                later,
            ) == Err::<LedgerView, AttestationError>(AttestationError::WithdrawCooldown)
            &&& later - now >= SignalProvider::WITHDRAW_COOLDOWN ==> (staked.withdraw(
                authority,
                locked,
                later,
            ) matches Ok(emptied) && emptied.providers[authority].stake == 0)
        }),
{
}

/// A provider attests a transaction once. After a publication that
/// succeeded, every further publication by the same provider for the same
/// transaction is rejected, and one whose score and reason are in bounds is
/// rejected as a duplicate.
pub proof fn lemma_second_attestation_is_duplicate(
    ledger: LedgerView,
    authority: Seq<u8>,
    transaction_hash: Seq<u8>,
    risk_score: nat,
    reason: Seq<char>,
    now: int,
    again_risk_score: nat,
    again_reason: Seq<char>,
    again_now: int,
)
    requires
        ledger.create_attestation(authority, transaction_hash, risk_score, reason, now) is Ok,
    ensures
        ({
            let after = ledger.create_attestation(
                authority,
                transaction_hash,
                risk_score,
                reason,
                now,
            )->Ok_0;
            let again = after.create_attestation(
                authority,
                transaction_hash,
                again_risk_score,
                again_reason,
                again_now,
            );
            &&& again is Err
            &&& AttestationView::create(
                authority,
                transaction_hash,
                again_risk_score,
                again_reason,
                again_now,
            ) is Ok ==> again == Err::<LedgerView, AttestationError>(
                AttestationError::DuplicateAttestation,
            )
            &&& after.create_attestation(authority, transaction_hash, risk_score, reason, again_now)
                == Err::<LedgerView, AttestationError>(AttestationError::DuplicateAttestation)
        }),
{
}

/// No vote is lost. Any number of votes on an attestation that is on record
/// are all taken in, in whatever order they come: the attestation's counters
/// grow by exactly the votes cast, its provider is judged once for each, and
/// no other record changes.
pub proof fn lemma_votes_all_counted(
    ledger: LedgerView,
    provider: Seq<u8>,
    transaction_hash: Seq<u8>,
    ballots: Seq<bool>,
)
    requires
        ledger.attestations.contains_key((provider, transaction_hash)),
    ensures
        ledger.votes(provider, transaction_hash, ballots) is Ok,
        ({
            let after = ledger.votes(provider, transaction_hash, ballots)->Ok_0;
            let key = (provider, transaction_hash);
            let was = ledger.attestations[key];
            &&& after.attestations.contains_key(key)
            &&& after.attestations[key].total_votes() == was.total_votes() + ballots.len()
            &&& (after.attestations[key], after.providers[provider]) == tally(
                was,
                ledger.providers[provider],
                ballots,
            )
            &&& ballots.len() > 0 ==> after.attestations == ledger.attestations.insert(
                key,
                after.attestations[key],
            ) && after.providers == ledger.providers.insert(provider, after.providers[provider])
        }),
    decreases ballots.len(),
{
    if ballots.len() > 0 {
        lemma_votes_all_counted(ledger, provider, transaction_hash, ballots.drop_last());
    }
}

/// The providers and the attestations on record.
#[derive(Debug)]
pub struct Ledger {
    pub providers: ProviderRegistry,
    pub attestations: AttestationStore,
}

impl View for Ledger {
    type V = LedgerView;

    open spec fn view(&self) -> LedgerView {
        LedgerView { providers: self.providers@, attestations: self.attestations@ }
    }
}

impl Ledger {
    /// Both stores are well formed and what they hold is valid.
    pub open spec fn wf(&self) -> bool {
        &&& self.providers.wf()
        &&& self.attestations.wf()
        &&& self@.valid()
    }

    /// A ledger without records.
    pub fn new() -> (ledger: Ledger)
        ensures
            ledger.wf(),
            ledger@.providers == Map::<Seq<u8>, ProviderView>::empty(),
            ledger@.attestations == Map::<(Seq<u8>, Seq<u8>), AttestationView>::empty(),
    {
        Ledger { providers: ProviderRegistry::new(), attestations: AttestationStore::new() }
    }
}

} // verus!
