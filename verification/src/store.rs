//! The attestation store: one record per provider and transaction.

use crate::errors::AttestationError;
use crate::identity::same_key;
use crate::state::attestation::{Attestation, AttestationView};
use crate::table::{lemma_table_at, lemma_table_push, lemma_table_update, table};
use vstd::prelude::*;

verus! {

/// The attestations, keyed by provider and transaction.
#[derive(Debug)]
pub struct AttestationStore {
    entries: Vec<Attestation>,
}

impl View for AttestationStore {
    type V = Map<(Seq<u8>, Seq<u8>), AttestationView>;

    closed spec fn view(&self) -> Map<(Seq<u8>, Seq<u8>), AttestationView> {
        table(self.keys(), self.values())
    }
}

impl AttestationStore {
    /// The keys on record, in the order in which they are stored.
    pub closed spec fn keys(&self) -> Seq<(Seq<u8>, Seq<u8>)> {
        self.entries@.map_values(|a: Attestation| a@.key())
    }

    /// The records, in the order in which they are stored.
    pub closed spec fn values(&self) -> Seq<AttestationView> {
        self.entries@.map_values(|a: Attestation| a@)
    }

    /// No provider has two attestations for one transaction.
    pub closed spec fn wf(&self) -> bool {
        self.keys().no_duplicates()
    }

    /// A store without records.
    pub fn new() -> (store: AttestationStore)
        ensures
            store.wf(),
            store@ == Map::<(Seq<u8>, Seq<u8>), AttestationView>::empty(),
    {
        AttestationStore { entries: Vec::new() }
    }

    /// How many attestations are on record.
    pub fn len(&self) -> (n: usize)
        requires
            self.wf(),
        ensures
            n == self@.dom().len(),
            self@.dom().finite(),
    {
        proof {
            self.keys().unique_seq_to_set();
        }
        self.entries.len()
    }

    /// The place of the attestation by `provider` for `transaction_hash`, if
    /// there is one.
    fn find(&self, provider: &[u8; 32], transaction_hash: &[u8; 32]) -> (place: Option<usize>)
        ensures
            match place {
                Some(i) => i < self.entries@.len() && self.keys()[i as int] == (
                    provider@,
                    transaction_hash@,
                ),
                None => !self.keys().contains((provider@, transaction_hash@)),
            },
    {
        let mut i: usize = 0;
        while i < self.entries.len()
            invariant
                i <= self.entries@.len(),
                forall|j: int| 0 <= j < i ==> self.keys()[j] != (provider@, transaction_hash@),
            decreases self.entries@.len() - i,
        {
            if same_key(&self.entries[i].provider, provider) && same_key(
                &self.entries[i].transaction_hash,
                transaction_hash,
            ) {
                return Some(i);
            }
            i += 1;
        }
        None
    }

    /// Whether `provider` has attested `transaction_hash`.
    pub fn contains(&self, provider: &[u8; 32], transaction_hash: &[u8; 32]) -> (found: bool)
        requires
            self.wf(),
        ensures
            found == self@.contains_key((provider@, transaction_hash@)),
    {
        self.find(provider, transaction_hash).is_some()
    }

    /// A copy of the attestation by `provider` for `transaction_hash`, if
    /// there is one.
    pub fn get(&self, provider: &[u8; 32], transaction_hash: &[u8; 32]) -> (found: Option<
        Attestation,
    >)
        requires
            self.wf(),
        ensures
            match found {
                Some(attestation) => self@.contains_key((provider@, transaction_hash@))
                    && attestation@ == self@[(provider@, transaction_hash@)] && attestation@.key()
                    == (provider@, transaction_hash@),
                None => !self@.contains_key((provider@, transaction_hash@)),
            },
    {
        match self.find(provider, transaction_hash) {
            Some(i) => {
                proof {
                    lemma_table_at(self.keys(), self.values(), i as int);
                }
                Some(self.entries[i].duplicate())
            },
            None => None,
        }
    }

    /// Stores `attestation` under its provider and transaction if nothing is
    /// there yet, and rejects it as a duplicate if something is. What is on
    /// record is never overwritten.
    pub fn create(&mut self, attestation: Attestation) -> (res: Result<(), AttestationError>)
        requires
            old(self).wf(),
        ensures
            final(self).wf(),
            res is Ok <==> !old(self)@.contains_key(attestation@.key()),
            res is Ok ==> final(self)@ == old(self)@.insert(attestation@.key(), attestation@),
            res is Err ==> res == Err::<(), AttestationError>(
                AttestationError::DuplicateAttestation,
            ) && *final(self) == *old(self),
    {
        if self.contains(&attestation.provider, &attestation.transaction_hash) {
            return Err(AttestationError::DuplicateAttestation);
        }
        self.put(attestation);
        Ok(())
    }

    /// Stores `attestation` under its provider and transaction, in place of
    /// the record that was there, if any.
    pub fn put(&mut self, attestation: Attestation)
        requires
            old(self).wf(),
        ensures
            final(self).wf(),
            final(self)@ == old(self)@.insert(attestation@.key(), attestation@),
    {
        match self.find(&attestation.provider, &attestation.transaction_hash) {
            Some(i) => {
                proof {
                    lemma_table_update(self.keys(), self.values(), i as int, attestation@);
                }
                self.entries.set(i, attestation);
                assert(self.keys() =~= old(self).keys());
            },
            None => {
                proof {
                    lemma_table_push(
                        self.keys(),
                        self.values(),
                        attestation@.key(),
                        attestation@,
                    );
                }
                let ghost stored = attestation@;
                self.entries.push(attestation);
                assert(self.keys() =~= old(self).keys().push(stored.key()));
            },
        }
    }
}

} // verus!
