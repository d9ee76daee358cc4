use attestation::errors::AttestationError;
use attestation::ledger::Ledger;
use attestation::registry::ProviderRegistry;
use attestation::state::{Attestation, SignalProvider};
use attestation::store::AttestationStore;
use attestation::{create_attestation, stake_reputation, vote_attestation, withdraw_stake};

const ALICE: [u8; 32] = [1u8; 32];
const BOB: [u8; 32] = [2u8; 32];
const CAROL: [u8; 32] = [3u8; 32];
const TX: [u8; 32] = [9u8; 32];
const OTHER_TX: [u8; 32] = [8u8; 32];
const MIN_STAKE: u64 = 1_000_000_000;
const WEEK: i64 = 604_800;

fn ledger_with_alice() -> Ledger {
    let mut ledger = Ledger::new();
    assert_eq!(stake_reputation(&mut ledger, ALICE, 100, MIN_STAKE), Ok(()));
    ledger
}

fn ledger_with_attestation() -> Ledger {
    let mut ledger = ledger_with_alice();
    assert_eq!(
        create_attestation(&mut ledger, ALICE, 200, TX, 90, String::from("audited contract")),
        Ok(())
    );
    ledger
}

fn alice(ledger: &Ledger) -> SignalProvider {
    ledger.providers.get(&ALICE).unwrap()
}

fn attestation(ledger: &Ledger) -> Attestation {
    ledger.attestations.get(&ALICE, &TX).unwrap()
}

#[test]
fn new_ledger_is_empty() {
    let ledger = Ledger::new();
    assert_eq!(ledger.providers.len(), 0);
    assert_eq!(ledger.attestations.len(), 0);
    assert_eq!(ledger.providers.get(&ALICE), None);
    assert_eq!(ledger.attestations.get(&ALICE, &TX), None);
}

#[test]
fn registry_get_or_create_gives_a_fresh_record_and_stores_nothing() {
    let registry = ProviderRegistry::new();
    let first = registry.get_or_create(ALICE);
    let second = registry.get_or_create(ALICE);
    assert_eq!(first, SignalProvider::new(ALICE));
    assert_eq!(first, second);
    assert_eq!(registry.len(), 0);
    assert_eq!(registry.get(&ALICE), None);
}

#[test]
fn registry_get_or_create_gives_the_record_once_there_is_one() {
    let mut registry = ProviderRegistry::new();
    let mut provider = SignalProvider::new(ALICE);
    provider.stake = 7 * MIN_STAKE;
    provider.reputation = 321;
    registry.put(provider);
    assert_eq!(registry.get_or_create(ALICE), provider);
    assert_eq!(registry.get_or_create(BOB), SignalProvider::new(BOB));
}

#[test]
fn registry_put_replaces_the_record_of_the_same_authority() {
    let mut registry = ProviderRegistry::new();
    registry.put(SignalProvider::new(ALICE));
    registry.put(SignalProvider::new(BOB));
    let mut changed = SignalProvider::new(ALICE);
    changed.stake = MIN_STAKE;
    registry.put(changed);
    assert_eq!(registry.len(), 2);
    assert_eq!(registry.get(&ALICE), Some(changed));
    assert_eq!(registry.get(&BOB), Some(SignalProvider::new(BOB)));
    assert_eq!(registry.get(&CAROL), None);
}

#[test]
fn registry_tells_keys_apart_by_every_byte() {
    let mut registry = ProviderRegistry::new();
    let mut near = ALICE;
    near[31] = 0;
    let mut far = ALICE;
    far[0] = 0;
    registry.put(SignalProvider::new(ALICE));
    assert_eq!(registry.get(&near), None);
    assert_eq!(registry.get(&far), None);
    registry.put(SignalProvider::new(near));
    assert_eq!(registry.len(), 2);
    assert_eq!(registry.get(&near).unwrap().authority, near);
}

#[test]
fn store_keeps_one_record_per_provider_and_transaction() {
    let mut store = AttestationStore::new();
    let first = Attestation::create(ALICE, TX, 10, String::from("a"), 1).unwrap();
    let other_tx = Attestation::create(ALICE, OTHER_TX, 20, String::from("b"), 2).unwrap();
    let other_provider = Attestation::create(BOB, TX, 30, String::from("c"), 3).unwrap();
    store.put(first.clone());
    store.put(other_tx.clone());
    store.put(other_provider.clone());
    assert_eq!(store.len(), 3);
    assert!(store.contains(&ALICE, &TX));
    assert!(store.contains(&BOB, &TX));
    assert!(!store.contains(&BOB, &OTHER_TX));
    assert!(!store.contains(&TX, &ALICE));
    assert_eq!(store.get(&ALICE, &TX), Some(first));
    assert_eq!(store.get(&ALICE, &OTHER_TX), Some(other_tx));
    assert_eq!(store.get(&BOB, &TX), Some(other_provider));
    assert_eq!(store.get(&BOB, &OTHER_TX), None);
}

#[test]
fn store_put_replaces_the_record_under_the_same_key() {
    let mut store = AttestationStore::new();
    let mut record = Attestation::create(ALICE, TX, 10, String::from("a"), 1).unwrap();
    store.put(record.clone());
    record.votes_for = 4;
    store.put(record.clone());
    assert_eq!(store.len(), 1);
    assert_eq!(store.get(&ALICE, &TX), Some(record));
}

#[test]
fn first_stake_puts_the_provider_on_record() {
    let ledger = ledger_with_alice();
    assert_eq!(ledger.providers.len(), 1);
    assert_eq!(
        alice(&ledger),
        SignalProvider {
            authority: ALICE,
            stake: MIN_STAKE,
            reputation: 500,
            attestations_count: 0,
            accurate_attestations: 0,
            last_stake_at: 100,
        }
    );
}

#[test]
fn stake_under_the_floor_puts_nobody_on_record() {
    let mut ledger = Ledger::new();
    assert_eq!(
        stake_reputation(&mut ledger, ALICE, 100, MIN_STAKE - 1),
        Err(AttestationError::InsufficientStake)
    );
    assert_eq!(ledger.providers.len(), 0);
    assert_eq!(ledger.providers.get(&ALICE), None);
}

#[test]
fn stake_under_the_floor_leaves_a_known_provider_alone() {
    let mut ledger = ledger_with_alice();
    let before = alice(&ledger);
    assert_eq!(
        stake_reputation(&mut ledger, ALICE, 900, 5),
        Err(AttestationError::InsufficientStake)
    );
    assert_eq!(alice(&ledger), before);
}

#[test]
fn stakes_of_different_authorities_are_kept_apart() {
    let mut ledger = ledger_with_alice();
    assert_eq!(stake_reputation(&mut ledger, BOB, 150, 4 * MIN_STAKE), Ok(()));
    assert_eq!(stake_reputation(&mut ledger, ALICE, 160, 2 * MIN_STAKE), Ok(()));
    assert_eq!(ledger.providers.len(), 2);
    assert_eq!(alice(&ledger).stake, 3 * MIN_STAKE);
    assert_eq!(alice(&ledger).last_stake_at, 160);
    assert_eq!(ledger.providers.get(&BOB).unwrap().stake, 4 * MIN_STAKE);
    assert_eq!(ledger.providers.get(&BOB).unwrap().last_stake_at, 150);
}

#[test]
fn stake_the_floor_then_withdraw_after_the_cooldown() {
    let mut ledger = Ledger::new();
    assert_eq!(stake_reputation(&mut ledger, ALICE, 5_000, 1_000_000_000), Ok(()));
    assert_eq!(
        withdraw_stake(&mut ledger, ALICE, 5_000, 1),
        Err(AttestationError::WithdrawCooldown)
    );
    assert_eq!(alice(&ledger).stake, 1_000_000_000);
    assert_eq!(withdraw_stake(&mut ledger, ALICE, 5_000 + WEEK, 1_000_000_000), Ok(()));
    assert_eq!(alice(&ledger).stake, 0);
    // The record stays, and a new stake brings the provider back.
    assert_eq!(ledger.providers.len(), 1);
    assert_eq!(stake_reputation(&mut ledger, ALICE, 9_000_000, MIN_STAKE), Ok(()));
    assert_eq!(alice(&ledger).stake, MIN_STAKE);
}

#[test]
fn withdraw_by_someone_not_on_record_is_not_found() {
    let mut ledger = ledger_with_alice();
    assert_eq!(withdraw_stake(&mut ledger, BOB, WEEK * 2, 1), Err(AttestationError::NotFound));
    assert_eq!(alice(&ledger).stake, MIN_STAKE);
    assert_eq!(ledger.providers.len(), 1);
}

#[test]
fn withdraw_that_would_leave_dust_is_rejected() {
    let mut ledger = Ledger::new();
    assert_eq!(stake_reputation(&mut ledger, ALICE, 0, 2 * MIN_STAKE), Ok(()));
    assert_eq!(
        withdraw_stake(&mut ledger, ALICE, WEEK, MIN_STAKE + 1),
        Err(AttestationError::InsufficientStake)
    );
    assert_eq!(
        withdraw_stake(&mut ledger, ALICE, WEEK, 2 * MIN_STAKE + 1),
        Err(AttestationError::InsufficientStake)
    );
    assert_eq!(alice(&ledger).stake, 2 * MIN_STAKE);
    assert_eq!(withdraw_stake(&mut ledger, ALICE, WEEK, MIN_STAKE), Ok(()));
    assert_eq!(alice(&ledger).stake, MIN_STAKE);
}

#[test]
fn attestation_is_created_and_counted() {
    let ledger = ledger_with_attestation();
    assert_eq!(ledger.attestations.len(), 1);
    assert_eq!(
        attestation(&ledger),
        Attestation {
            provider: ALICE,
            transaction_hash: TX,
            risk_score: 90,
            reason: String::from("audited contract"),
            created_at: 200,
            votes_for: 0,
            votes_against: 0,
        }
    );
    assert_eq!(alice(&ledger).attestations_count, 1);
    assert_eq!(alice(&ledger).accurate_attestations, 0);
}

#[test]
fn attestation_created_twice_fails_the_second_time() {
    let mut ledger = ledger_with_alice();
    assert_eq!(
        create_attestation(&mut ledger, ALICE, 200, TX, 90, String::from("first")),
        Ok(())
    );
    assert_eq!(
        create_attestation(&mut ledger, ALICE, 200, TX, 90, String::from("first")),
        Err(AttestationError::DuplicateAttestation)
    );
    assert_eq!(
        create_attestation(&mut ledger, ALICE, 300, TX, 10, String::from("second")),
        Err(AttestationError::DuplicateAttestation)
    );
    assert_eq!(ledger.attestations.len(), 1);
    assert_eq!(attestation(&ledger).reason, "first");
    assert_eq!(attestation(&ledger).risk_score, 90);
    assert_eq!(attestation(&ledger).created_at, 200);
    assert_eq!(alice(&ledger).attestations_count, 1);
}

#[test]
fn attestation_for_another_transaction_or_by_another_provider_is_no_duplicate() {
    let mut ledger = ledger_with_attestation();
    assert_eq!(stake_reputation(&mut ledger, BOB, 100, MIN_STAKE), Ok(()));
    assert_eq!(create_attestation(&mut ledger, ALICE, 201, OTHER_TX, 5, String::new()), Ok(()));
    assert_eq!(create_attestation(&mut ledger, BOB, 202, TX, 6, String::new()), Ok(()));
    assert_eq!(ledger.attestations.len(), 3);
    assert_eq!(alice(&ledger).attestations_count, 2);
    assert_eq!(ledger.providers.get(&BOB).unwrap().attestations_count, 1);
    assert_eq!(ledger.attestations.get(&BOB, &TX).unwrap().risk_score, 6);
}

#[test]
fn attestation_with_score_101_fails_and_with_100_succeeds() {
    let mut ledger = ledger_with_alice();
    assert_eq!(
        create_attestation(&mut ledger, ALICE, 200, TX, 101, String::from("r")),
        Err(AttestationError::InvalidRiskScore)
    );
    assert_eq!(ledger.attestations.len(), 0);
    assert_eq!(alice(&ledger).attestations_count, 0);
    assert_eq!(create_attestation(&mut ledger, ALICE, 200, TX, 100, String::from("r")), Ok(()));
    assert_eq!(attestation(&ledger).risk_score, 100);
}

#[test]
fn attestation_with_201_characters_fails_and_with_200_succeeds() {
    let mut ledger = ledger_with_alice();
    assert_eq!(
        create_attestation(&mut ledger, ALICE, 200, TX, 50, "y".repeat(201)),
        Err(AttestationError::ReasonTooLong)
    );
    assert_eq!(ledger.attestations.len(), 0);
    assert_eq!(alice(&ledger).attestations_count, 0);
    assert_eq!(create_attestation(&mut ledger, ALICE, 200, TX, 50, "y".repeat(200)), Ok(()));
    assert_eq!(attestation(&ledger).reason.chars().count(), 200);
}

#[test]
fn attestation_by_someone_not_on_record_is_not_found() {
    let mut ledger = ledger_with_alice();
    assert_eq!(
        create_attestation(&mut ledger, BOB, 200, TX, 50, String::new()),
        Err(AttestationError::NotFound)
    );
    // Not being on record is what is reported, whatever else is wrong.
    assert_eq!(
        create_attestation(&mut ledger, BOB, 200, TX, 101, "y".repeat(201)),
        Err(AttestationError::NotFound)
    );
    assert_eq!(ledger.attestations.len(), 0);
    assert_eq!(ledger.providers.len(), 1);
}

#[test]
fn attestation_after_withdrawing_everything_needs_a_new_stake() {
    let mut ledger = ledger_with_alice();
    assert_eq!(withdraw_stake(&mut ledger, ALICE, 100 + WEEK, MIN_STAKE), Ok(()));
    assert_eq!(
        create_attestation(&mut ledger, ALICE, 100 + WEEK, TX, 50, String::new()),
        Err(AttestationError::InsufficientStake)
    );
    assert_eq!(ledger.attestations.len(), 0);
    assert_eq!(stake_reputation(&mut ledger, ALICE, 100 + WEEK, MIN_STAKE), Ok(()));
    assert_eq!(create_attestation(&mut ledger, ALICE, 100 + WEEK, TX, 50, String::new()), Ok(()));
}

#[test]
fn vote_on_a_missing_attestation_is_not_found() {
    let mut ledger = ledger_with_attestation();
    let before = alice(&ledger);
    assert_eq!(
        vote_attestation(&mut ledger, BOB, ALICE, OTHER_TX, true),
        Err(AttestationError::NotFound)
    );
    assert_eq!(
        vote_attestation(&mut ledger, BOB, BOB, TX, true),
        Err(AttestationError::NotFound)
    );
    assert_eq!(alice(&ledger), before);
    assert_eq!(attestation(&ledger).votes_for, 0);
    assert_eq!(attestation(&ledger).votes_against, 0);
}

#[test]
fn vote_moves_the_owner_and_not_the_voter() {
    let mut ledger = ledger_with_attestation();
    assert_eq!(stake_reputation(&mut ledger, BOB, 100, MIN_STAKE), Ok(()));
    let bob_before = ledger.providers.get(&BOB).unwrap();
    assert_eq!(vote_attestation(&mut ledger, BOB, ALICE, TX, true), Ok(()));
    assert_eq!(attestation(&ledger).votes_for, 1);
    assert_eq!(alice(&ledger).reputation, 501);
    assert_eq!(alice(&ledger).accurate_attestations, 1);
    assert_eq!(ledger.providers.get(&BOB).unwrap(), bob_before);
}

#[test]
fn vote_by_someone_not_on_record_counts() {
    let mut ledger = ledger_with_attestation();
    assert_eq!(vote_attestation(&mut ledger, CAROL, ALICE, TX, false), Ok(()));
    assert_eq!(attestation(&ledger).votes_against, 1);
    assert_eq!(alice(&ledger).reputation, 498);
    assert_eq!(ledger.providers.len(), 1);
}

#[test]
fn eight_accurate_votes_of_ten_then_an_eleventh() {
    let mut ledger = ledger_with_attestation();
    let ballots = [true, true, true, true, true, true, true, false, false];
    for ballot in ballots {
        assert_eq!(vote_attestation(&mut ledger, BOB, ALICE, TX, ballot), Ok(()));
    }
    let before = alice(&ledger);
    // The tenth vote: 8 of 10 is above seven tenths.
    assert_eq!(vote_attestation(&mut ledger, BOB, ALICE, TX, true), Ok(()));
    assert_eq!(attestation(&ledger).votes_for, 8);
    assert_eq!(attestation(&ledger).votes_against, 2);
    assert_eq!(alice(&ledger).reputation, before.reputation + 1);
    assert_eq!(alice(&ledger).accurate_attestations, before.accurate_attestations + 1);
    // The eleventh: 8 of 11 is still above seven tenths, and counts again.
    assert_eq!(vote_attestation(&mut ledger, CAROL, ALICE, TX, false), Ok(()));
    assert_eq!(attestation(&ledger).votes_for, 8);
    assert_eq!(attestation(&ledger).votes_against, 3);
    assert_eq!(alice(&ledger).reputation, before.reputation + 2);
    assert_eq!(alice(&ledger).accurate_attestations, before.accurate_attestations + 2);
    assert_eq!(alice(&ledger).attestations_count, 1);
}

#[test]
fn n_votes_leave_n_on_the_counters() {
    let mut ledger = ledger_with_attestation();
    let mut cast_for = 0;
    for n in 0..500u32 {
        let ballot = n % 7 < 3;
        if ballot {
            cast_for += 1;
        }
        assert_eq!(vote_attestation(&mut ledger, BOB, ALICE, TX, ballot), Ok(()));
    }
    let counted = attestation(&ledger);
    assert_eq!(counted.votes_for + counted.votes_against, 500);
    assert_eq!(counted.votes_for, cast_for);
    assert!(alice(&ledger).reputation <= 1000);
    assert_eq!(ledger.attestations.len(), 1);
    assert_eq!(ledger.providers.len(), 1);
}

#[test]
fn reputation_stays_within_bounds_through_long_runs_of_votes() {
    let mut ledger = ledger_with_attestation();
    for _ in 0..700 {
        assert_eq!(vote_attestation(&mut ledger, BOB, ALICE, TX, true), Ok(()));
        assert!(alice(&ledger).reputation <= 1000);
    }
    assert_eq!(alice(&ledger).reputation, 1000);
    assert_eq!(create_attestation(&mut ledger, ALICE, 300, OTHER_TX, 1, String::new()), Ok(()));
    for _ in 0..700 {
        assert_eq!(vote_attestation(&mut ledger, BOB, ALICE, OTHER_TX, false), Ok(()));
        assert!(alice(&ledger).reputation <= 1000);
    }
    assert_eq!(alice(&ledger).reputation, 0);
    assert_eq!(alice(&ledger).accurate_attestations, 700);
    assert_eq!(alice(&ledger).attestations_count, 2);
}

#[test]
fn votes_do_not_touch_the_stake_or_the_attestation_itself() {
    let mut ledger = ledger_with_attestation();
    let created = attestation(&ledger);
    for ballot in [true, false, true] {
        assert_eq!(vote_attestation(&mut ledger, BOB, ALICE, TX, ballot), Ok(()));
    }
    assert_eq!(
        attestation(&ledger),
        Attestation { votes_for: 2, votes_against: 1, ..created }
    );
    assert_eq!(alice(&ledger).stake, MIN_STAKE);
    assert_eq!(alice(&ledger).last_stake_at, 100);
}

#[test]
fn store_create_takes_a_new_key_and_rejects_a_known_one() {
    let mut store = AttestationStore::new();
    let first = Attestation::create(ALICE, TX, 10, String::from("a"), 1).unwrap();
    let again = Attestation::create(ALICE, TX, 20, String::from("b"), 2).unwrap();
    let other = Attestation::create(ALICE, OTHER_TX, 30, String::from("c"), 3).unwrap();
    assert_eq!(store.create(first.clone()), Ok(()));
    assert_eq!(store.create(again), Err(AttestationError::DuplicateAttestation));
    assert_eq!(store.create(first.clone()), Err(AttestationError::DuplicateAttestation));
    assert_eq!(store.len(), 1);
    assert_eq!(store.get(&ALICE, &TX), Some(first));
    assert_eq!(store.create(other), Ok(()));
    assert_eq!(store.len(), 2);
}

#[test]
fn withdrawal_is_refused_through_the_whole_cooldown_after_each_deposit() {
    let mut ledger = Ledger::new();
    assert_eq!(stake_reputation(&mut ledger, ALICE, 1_000, MIN_STAKE), Ok(()));
    assert_eq!(stake_reputation(&mut ledger, ALICE, 1_000 + WEEK, MIN_STAKE), Ok(()));
    // The second deposit started the cooldown again.
    assert_eq!(
        withdraw_stake(&mut ledger, ALICE, 1_000 + 2 * WEEK - 1, MIN_STAKE),
        Err(AttestationError::WithdrawCooldown)
    );
    assert_eq!(withdraw_stake(&mut ledger, ALICE, 1_000 + 2 * WEEK, MIN_STAKE), Ok(()));
    assert_eq!(alice(&ledger).stake, MIN_STAKE);
    // A withdrawal does not start it.
    assert_eq!(withdraw_stake(&mut ledger, ALICE, 1_000 + 2 * WEEK, MIN_STAKE), Ok(()));
    assert_eq!(alice(&ledger).stake, 0);
}
