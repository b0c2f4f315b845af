use vstd::prelude::*;

use crate::id::{raw_ids, Id};

verus! {

/// A sparse map from raw slot index to value, held densely: slot `i` of
/// the vector holds the value stored under index `i`, if any.
#[derive(Debug, Clone)]
pub struct SparseStore<T> {
    slots: Vec<Option<T>>,
}

impl<T> View for SparseStore<T> {
    type V = Map<nat, T>;

    closed spec fn view(&self) -> Map<nat, T> {
        Map::new(
            |i: nat| i < self.slots@.len() && self.slots@[i as int] is Some,
            |i: nat| self.slots@[i as int]->Some_0,
        )
    }
}

impl<T> SparseStore<T> {
    /// An empty store.
    pub fn new() -> (r: Self)
        ensures
            r@ == Map::<nat, T>::empty(),
    {
        let r = SparseStore { slots: Vec::new() };
        assert(r@ =~= Map::<nat, T>::empty());
        r
    }

    /// Every index in use is below `usize::MAX`.
    pub proof fn lemma_keys_bounded(&self)
        ensures
            forall|k: nat| #[trigger] self@.contains_key(k) ==> k < usize::MAX,
    {
        assert(self.slots@.len() == self.slots.len());
    }

    /// The value stored under `raw`, if any.
    pub fn get(&self, raw: usize) -> (r: Option<&T>)
        ensures
            match r {
                Some(v) => self@.contains_key(raw as nat) && *v == self@[raw as nat],
                None => !self@.contains_key(raw as nat),
            },
    {
        if raw < self.slots.len() {
            self.slots[raw].as_ref()
        } else {
            None
        }
    }

    /// Whether a value is stored under `raw`.
    pub fn contains(&self, raw: usize) -> (r: bool)
        ensures
            r == self@.contains_key(raw as nat),
    {
        raw < self.slots.len() && self.slots[raw].is_some()
    }

    /// The ids of the used slots, in increasing order.
    pub fn ids<E>(&self) -> (r: Vec<Id<E>>)
        ensures
            forall|i: int, j: int|
                0 <= i < j < r@.len() ==> raw_ids(r@)[i] < raw_ids(r@)[j],
            forall|k: nat| self@.contains_key(k) <==> raw_ids(r@).contains(k),
    {
        let mut r: Vec<Id<E>> = Vec::new();
        let mut i: usize = 0;
        while i < self.slots.len()
            invariant
                i <= self.slots@.len(),
                forall|a: int, b: int|
                    0 <= a < b < r@.len() ==> raw_ids(r@)[a] < raw_ids(r@)[b],
                forall|a: int| 0 <= a < r@.len() ==> raw_ids(r@)[a] < i,
                forall|k: nat|
                    k < i ==> (self@.contains_key(k) <==> raw_ids(r@).contains(k)),
                forall|k: nat| #[trigger] raw_ids(r@).contains(k) ==> k < i,
            decreases self.slots@.len() - i,
        {
            let ghost before = raw_ids(r@);
            if self.slots[i].is_some() {
                r.push(Id::new(i));
                let ghost after = raw_ids(r@);
                assert(after =~= before.push(i as nat));
                assert forall|k: nat| before.contains(k) implies after.contains(k) by {
                    let j = choose|j: int| 0 <= j < before.len() && before[j] == k;
                    assert(after[j] == k);
                }
                assert(after[after.len() - 1] == i);
            } else {
                assert(raw_ids(r@) =~= before);
            }
            i = i + 1;
        }
        r
    }

    /// Stores `value` under `raw`, replacing what was there.
    pub fn insert(&mut self, raw: usize, value: T)
        requires
            raw < usize::MAX,
        ensures
            final(self)@ == old(self)@.insert(raw as nat, value),
    {
        while self.slots.len() <= raw
            invariant
                raw < usize::MAX,
                self@ == old(self)@,
            decreases raw + 1 - self.slots.len(),
        {
            let ghost before = self@;
            self.slots.push(None);
            assert(self@ =~= before);
        }
        let ghost before = self@;
        self.slots.set(raw, Some(value));
        assert(self@ =~= before.insert(raw as nat, value));
    }

    /// Removes and returns the value stored under `raw`, if any.
    pub fn take(&mut self, raw: usize) -> (r: Option<T>)
        ensures
            match r {
                Some(v) => old(self)@.contains_key(raw as nat) && v == old(self)@[raw as nat],
                None => !old(self)@.contains_key(raw as nat),
            },
            final(self)@ == old(self)@.remove(raw as nat),
    {
        if raw < self.slots.len() {
            let ghost before = self@;
            let r = self.slots[raw].take();
            assert(self@ =~= before.remove(raw as nat));
            r
        } else {
            assert(self@ =~= old(self)@.remove(raw as nat));
            None
        }
    }
}

} // verus!
