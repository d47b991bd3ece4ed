//! A keyed store: values of any type found again by a text key.

use crate::outside;
use crate::outside::{index_get, index_insert, index_new, index_remove};
use dashmap::DashMap;
use vstd::prelude::*;

verus! {

/// Values under text keys. The values lie in slots, and a concurrent map leads
/// from each key to its slot.
pub struct Store<V> {
    index: DashMap<String, usize>,
    slots: Vec<(String, V)>,
}

impl<V> Store<V> {
    /// The index and the slots agree: each key leads to the slot that holds it,
    /// and each slot is led to by its key.
    pub closed spec fn wf(self) -> bool {
        let ix = outside::entries(self.index);
        &&& forall|i: int|
            0 <= i < self.slots@.len() ==> ix.contains_key((#[trigger] self.slots@[i]).0@)
                && ix[self.slots@[i].0@] == i
        &&& forall|k: Seq<char>| #[trigger]
            ix.contains_key(k) ==> ix[k] < self.slots@.len() && self.slots@[ix[k] as int].0@ == k
    }

    /// The keys in the order of their slots.
    pub closed spec fn keys(self) -> Seq<Seq<char>> {
        self.slots@.map_values(|e: (String, V)| e.0@)
    }

    /// The values in the order of their slots.
    pub closed spec fn values(self) -> Seq<V> {
        self.slots@.map_values(|e: (String, V)| e.1)
    }

    /// The value under each key.
    pub open spec fn view(self) -> Map<Seq<char>, V> {
        Map::new(|k: Seq<char>| self.keys().contains(k), |k: Seq<char>| self.value_under(k))
    }

    /// The value in the slot of `k`.
    pub open spec fn value_under(self, k: Seq<char>) -> V {
        self.values()[self.keys().index_of(k)]
    }

    /// A store has as many keys as values, no key twice, and maps each key to
    /// the value in the same place.
    pub proof fn lemma_shape(self)
        requires
            self.wf(),
        ensures
            self.keys().len() == self.values().len(),
            self.keys().no_duplicates(),
            forall|i: int|
                0 <= i < self.keys().len() ==> self@.contains_key(#[trigger] self.keys()[i])
                    && self@[self.keys()[i]] == self.values()[i],
    {
        assert forall|i: int, j: int|
            0 <= i < self.keys().len() && 0 <= j < self.keys().len() && i != j implies self.keys()[i]
            != self.keys()[j] by {
            assert(self.slots@[i].0@ == self.keys()[i]);
            assert(self.slots@[j].0@ == self.keys()[j]);
        }
        assert forall|i: int| 0 <= i < self.keys().len() implies self@.contains_key(
            #[trigger] self.keys()[i],
        ) && self@[self.keys()[i]] == self.values()[i] by {
            let k = self.keys()[i];
            assert(self.keys().contains(k));
            let j = self.keys().index_of(k);
            assert(0 <= j < self.keys().len() && self.keys()[j] == k);
            assert(self.slots@[j].0@ == k && self.slots@[i].0@ == k);
        }
    }

    proof fn lemma_lookup(self, k: Seq<char>)
        requires
            self.wf(),
        ensures
            self@.contains_key(k) == outside::entries(self.index).contains_key(k),
            self@.contains_key(k) ==> self@[k] == self.slots@[outside::entries(self.index)[k] as int].1,
    {
        self.lemma_shape();
        let ix = outside::entries(self.index);
        if ix.contains_key(k) {
            let i = ix[k] as int;
            assert(self.keys()[i] == k);
        }
        if self.keys().contains(k) {
            let i = choose|i: int| 0 <= i < self.keys().len() && self.keys()[i] == k;
            assert(self.slots@[i].0@ == k);
        }
    }

    /// A store that holds nothing.
    pub fn new() -> (r: Self)
        ensures
            r.wf(),
            r@ == Map::<Seq<char>, V>::empty(),
            r.keys() == Seq::<Seq<char>>::empty(),
            r.values() == Seq::<V>::empty(),
    {
        let r = Store { index: index_new(), slots: Vec::new() };
        proof {
            assert(r.keys() =~= Seq::<Seq<char>>::empty());
            assert(r.values() =~= Seq::<V>::empty());
            assert(r@ =~= Map::<Seq<char>, V>::empty());
        }
        r
    }

    /// The number of keys.
    pub fn len(&self) -> (n: usize)
        ensures
            n == self.keys().len(),
            n == self.values().len(),
    {
        self.slots.len()
    }

    /// The key in slot `i`.
    pub fn key_at(&self, i: usize) -> (k: &String)
        requires
            i < self.keys().len(),
        ensures
            k@ == self.keys()[i as int],
    {
        &self.slots[i].0
    }

    /// The value in slot `i`.
    pub fn value_at(&self, i: usize) -> (v: &V)
        requires
            i < self.values().len(),
        ensures
            *v == self.values()[i as int],
    {
        &self.slots[i].1
    }

    /// The value under `key`, where there is one.
    pub fn get(&self, key: &str) -> (r: Option<&V>)
        requires
            self.wf(),
        ensures
            r is Some <==> self@.contains_key(key@),
            r matches Some(v) ==> *v == self@[key@],
    {
        proof {
            self.lemma_lookup(key@);
        }
        match index_get(&self.index, key) {
            Some(i) => Some(&self.slots[i].1),
            None => None,
        }
    }

    /// Puts `value` under `key`, in place of any value that was there. A new
    /// key gets the last slot; a known key keeps its slot.
    pub fn insert(&mut self, key: String, value: V)
        requires
            old(self).wf(),
        ensures
            final(self).wf(),
            final(self)@ == old(self)@.insert(key@, value),
            old(self)@.contains_key(key@) ==> final(self).keys() == old(self).keys(),
            !old(self)@.contains_key(key@) ==> final(self).keys() == old(self).keys().push(key@)
                && final(self).values() == old(self).values().push(value),
    {
        let ghost before = *self;
        proof {
            self.lemma_lookup(key@);
        }
        match index_get(&self.index, key.as_str()) {
            Some(i) => {
                self.slots.set(i, (key, value));
            },
            None => {
                let n: usize = self.slots.len();
                let k: String = key.clone();
                index_insert(&mut self.index, k, n);
                self.slots.push((key, value));
            },
        }
        proof {
            if before@.contains_key(key@) {
                assert(self.keys() =~= before.keys());
            } else {
                assert(self.keys() =~= before.keys().push(key@));
                assert(self.values() =~= before.values().push(value));
            }
            assert forall|k: Seq<char>| true implies #[trigger] self@.contains_key(k)
                == before@.insert(key@, value).contains_key(k) && (self@.contains_key(k)
                ==> self@[k] == before@.insert(key@, value)[k]) by {
                self.lemma_lookup(k);
                before.lemma_lookup(k);
            }
            assert(self@ =~= before@.insert(key@, value));
        }
    }

    /// Takes `key` out, and its value with it.
    pub fn remove(&mut self, key: &str) -> (r: Option<V>)
        requires
            old(self).wf(),
        ensures
            final(self).wf(),
            final(self)@ == old(self)@.remove(key@),
            r is Some <==> old(self)@.contains_key(key@),
            r matches Some(v) ==> v == old(self)@[key@],
    {
        let ghost before = *self;
        proof {
            self.lemma_lookup(key@);
        }
        let found: Option<usize> = index_remove(&mut self.index, key);
        let r: Option<V> = match found {
            Some(i) => {
                let (_, v) = self.slots.swap_remove(i);
                if i < self.slots.len() {
                    let moved: String = self.slots[i].0.clone();
                    index_insert(&mut self.index, moved, i);
                }
                Some(v)
            },
            None => None,
        };
        proof {
            let ix = outside::entries(before.index);
            if ix.contains_key(key@) {
                let i = ix[key@] as int;
                let n = before.slots@.len() - 1;
                assert(before.slots@[i].0@ == key@);
                assert(before.slots@[n].0@ == before.keys()[n]);
                assert forall|j: int| 0 <= j < self.slots@.len() implies (#[trigger] self.slots@[j])
                    == before.slots@[if j == i {
                    n
                } else {
                    j
                }] by {}
                assert(self.wf());
            }
            assert forall|k: Seq<char>| true implies #[trigger] self@.contains_key(k)
                == before@.remove(key@).contains_key(k) && (self@.contains_key(k) ==> self@[k]
                == before@.remove(key@)[k]) by {
                self.lemma_lookup(k);
                before.lemma_lookup(k);
            }
            assert(self@ =~= before@.remove(key@));
        }
        r
    }
}

} // verus!
