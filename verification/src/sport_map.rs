//! Maps keyed by sport, held in a hash map under each sport's numeric key.

use std::collections::HashMap;
use vstd::prelude::*;
use crate::sport::{lemma_key_injective, Sport};

verus! {

/// A map from sports to values.
pub struct SportMap<V> {
    pub slots: HashMap<u64, V>,
}

impl<V> View for SportMap<V> {
    type V = Map<Sport, V>;

    open spec fn view(&self) -> Map<Sport, V> {
        Map::new(
            |sport: Sport| self.slots@.contains_key(sport.spec_key()),
            |sport: Sport| self.slots@[sport.spec_key()],
        )
    }
}

impl<V> SportMap<V> {
    /// The map that holds nothing.
    pub fn new() -> (map: Self)
        ensures
            map@ == Map::<Sport, V>::empty(),
    {
        let map = SportMap { slots: HashMap::new() };
        assert(map@ =~= Map::<Sport, V>::empty());
        map
    }

    /// The value filed under a sport, if there is one.
    pub fn get(&self, sport: &Sport) -> (r: Option<&V>)
        ensures
            match r {
                Some(value) => self@.contains_key(*sport) && self@[*sport] == *value,
                None => !self@.contains_key(*sport),
            },
    {
        let key: u64 = sport.key();
        self.slots.get(&key)
    }

    /// Files a value under a sport, in place of the one that was there.
    pub fn insert(&mut self, sport: Sport, value: V)
        ensures
            final(self)@ == old(self)@.insert(sport, value),
    {
        let key: u64 = sport.key();
        self.slots.insert(key, value);
        proof {
            assert forall|other: Sport| other.spec_key() == sport.spec_key() implies other
                == sport by {
                lemma_key_injective(other, sport);
            }
            assert(self@ =~= old(self)@.insert(sport, value));
        }
    }

    /// Whether a value is filed under a sport.
    pub fn contains(&self, sport: &Sport) -> (r: bool)
        ensures
            r == self@.contains_key(*sport),
    {
        self.get(sport).is_some()
    }
}

} // verus!
