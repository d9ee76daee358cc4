//! The provider registry: one record per authority.

use crate::identity::same_key;
use crate::state::provider::{ProviderView, SignalProvider};
use crate::table::{lemma_table_at, lemma_table_push, lemma_table_update, table};
use vstd::prelude::*;

verus! {

/// The provider records, keyed by authority.
#[derive(Debug)]
pub struct ProviderRegistry {
    entries: Vec<SignalProvider>,
}

impl View for ProviderRegistry {
    type V = Map<Seq<u8>, ProviderView>;

    closed spec fn view(&self) -> Map<Seq<u8>, ProviderView> {
        table(self.keys(), self.values())
    }
}

impl ProviderRegistry {
    /// The authorities on record, in the order in which they are stored.
    pub closed spec fn keys(&self) -> Seq<Seq<u8>> {
        self.entries@.map_values(|p: SignalProvider| p.authority@)
    }

    /// The records, in the order in which they are stored.
    pub closed spec fn values(&self) -> Seq<ProviderView> {
        self.entries@.map_values(|p: SignalProvider| p@)
    }

    /// No authority has two records.
    pub closed spec fn wf(&self) -> bool {
        self.keys().no_duplicates()
    }

    /// A registry without records.
    pub fn new() -> (registry: ProviderRegistry)
        ensures
            registry.wf(),
            registry@ == Map::<Seq<u8>, ProviderView>::empty(),
    {
        ProviderRegistry { entries: Vec::new() }
    }

    /// How many providers are on record.
    pub fn len(&self) -> (n: usize)
        requires
            self.wf(),
        ensures
            n == self@.dom().len(),
            self@.dom().finite(),
    {
        proof {
            self.keys().unique_seq_to_set();
        }
        self.entries.len()
    }

    /// The place of `authority`'s record, if it has one.
    fn find(&self, authority: &[u8; 32]) -> (place: Option<usize>)
        ensures
            match place {
                Some(i) => i < self.entries@.len() && self.keys()[i as int] == authority@,
                None => !self.keys().contains(authority@),
            },
    {
        let mut i: usize = 0;
        while i < self.entries.len()
            invariant
                i <= self.entries@.len(),
                forall|j: int| 0 <= j < i ==> self.keys()[j] != authority@,
            decreases self.entries@.len() - i,
        {
            if same_key(&self.entries[i].authority, authority) {
                return Some(i);
            }
            i += 1;
        }
        None
    }

    /// The record of `authority`, if it has one.
    pub fn get(&self, authority: &[u8; 32]) -> (found: Option<SignalProvider>)
        requires
            self.wf(),
        ensures
            match found {
                Some(provider) => self@.contains_key(authority@) && provider@ == self@[authority@]
                    && provider.authority@ == authority@,
                None => !self@.contains_key(authority@),
            },
    {
        match self.find(authority) {
            Some(i) => {
                proof {
                    lemma_table_at(self.keys(), self.values(), i as int);
                }
                Some(self.entries[i])
            },
            None => None,
        }
    }

    /// The record of `authority`, or the record of one that has never
    /// staked. Nothing is stored: asking again gives the same answer.
    pub fn get_or_create(&self, authority: [u8; 32]) -> (provider: SignalProvider)
        requires
            self.wf(),
        ensures
            provider@ == if self@.contains_key(authority@) {
                self@[authority@]
            } else {
                ProviderView::fresh(authority@)
            },
            provider.authority@ == authority@,
    {
        match self.get(&authority) {
            Some(provider) => provider,
            None => SignalProvider::new(authority),
        }
    }

    /// Stores `provider` under its authority, in place of the record that
    /// the authority had, if any.
    pub fn put(&mut self, provider: SignalProvider)
        requires
            old(self).wf(),
        ensures
            final(self).wf(),
            final(self)@ == old(self)@.insert(provider.authority@, provider@),
    {
        match self.find(&provider.authority) {
            Some(i) => {
                proof {
                    lemma_table_update(self.keys(), self.values(), i as int, provider@);
                }
                self.entries.set(i, provider);
                assert(self.keys() =~= old(self).keys());
            },
            None => {
                proof {
                    lemma_table_push(self.keys(), self.values(), provider.authority@, provider@);
                }
                self.entries.push(provider);
                assert(self.keys() =~= old(self).keys().push(provider.authority@));
            },
        }
    }
}

} // verus!
