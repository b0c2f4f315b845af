use std::marker::PhantomData;
use vstd::prelude::*;

verus! {

/// Identifier of an entity in the id space `E`.
///
/// Ids are handed out by a non-reclaiming allocator, so the raw slot index
/// alone names an entity: a slot is never given to a second entity. The type
/// parameter keeps ids of unrelated id spaces apart at compile time.
#[derive(Debug)]
pub struct Id<E> {
    index: usize,
    space: PhantomData<E>,
}

impl<E> View for Id<E> {
    type V = nat;

    /// The raw slot index.
    closed spec fn view(&self) -> nat {
        self.index as nat
    }
}

impl<E> Id<E> {
    /// The id of raw slot `index`.
    pub fn new(index: usize) -> (r: Self)
        ensures
            r@ == index,
    {
        Id { index, space: PhantomData }
    }

    /// The raw slot index.
    pub fn index(&self) -> (r: usize)
        ensures
            r == self@,
    {
        self.index
    }
}

/// The raw indices of `ids`, in order.
pub open spec fn raw_ids<E>(ids: Seq<Id<E>>) -> Seq<nat> {
    ids.map_values(|i: Id<E>| i@)
}

impl<E> Clone for Id<E> {
    fn clone(&self) -> (r: Self)
        ensures
            r@ == self@,
    {
        Id { index: self.index, space: PhantomData }
    }
}

impl<E> Copy for Id<E> {
}

impl<E> PartialEq for Id<E> {
    fn eq(&self, other: &Id<E>) -> (r: bool) {
        self.index == other.index
    }
}

impl<E> vstd::std_specs::cmp::PartialEqSpecImpl for Id<E> {
    open spec fn obeys_eq_spec() -> bool {
        true
    }

    open spec fn eq_spec(&self, other: &Id<E>) -> bool {
        self@ == other@
    }
}

impl<E> Eq for Id<E> {
}

} // verus!
