use std::marker::PhantomData;
use vstd::prelude::*;

use crate::id::{raw_ids, Id};
use crate::relation::{
    follows, insert_child_contiguous_spec, insert_parent_spec, is_parent_in, parents_in, well_linked, RelationError,
    RelationView, Relations,
};
use crate::laws::{
    lemma_empty_well_linked, lemma_insert_child_contiguous_well_linked,
    lemma_insert_parent_well_linked,
};
use crate::store::SparseStore;

verus! {

/// The children of a parent as one interval `[start, end)` of consecutive
/// raw slots: constant storage whatever the number of children.
#[derive(Debug)]
pub struct IdRange<E> {
    start: usize,
    end: usize,
    space: PhantomData<E>,
}

/// The raw indices `start, start + 1, ..., end - 1` (none when `end <= start`).
pub open spec fn interval(start: nat, end: nat) -> Seq<nat> {
    let len: nat = if start <= end {
        (end - start) as nat
    } else {
        0
    };
    Seq::new(len, |i: int| (start + i) as nat)
}

impl<E> View for IdRange<E> {
    type V = Seq<nat>;

    /// The raw indices in the interval, in increasing order.
    closed spec fn view(&self) -> Seq<nat> {
        interval(self.start as nat, self.end as nat)
    }
}

impl<E> IdRange<E> {
    /// The bounds are ordered.
    pub closed spec fn wf(&self) -> bool {
        self.start <= self.end
    }

    /// The empty interval.
    pub fn new() -> (r: Self)
        ensures
            r.wf(),
            r@ == Seq::<nat>::empty(),
    {
        let r = IdRange { start: 0, end: 0, space: PhantomData };
        assert(r@ =~= Seq::<nat>::empty());
        r
    }

    /// The interval that holds `id` alone.
    pub fn single(id: Id<E>) -> (r: Self)
        requires
            id@ < usize::MAX,
        ensures
            r.wf(),
            r@ == seq![id@],
    {
        let i = id.index();
        let r = IdRange { start: i, end: i + 1, space: PhantomData };
        assert(r@ =~= seq![id@]);
        r
    }

    /// The number of ids in the interval.
    pub fn len(&self) -> (r: usize)
        requires
            self.wf(),
        ensures
            r == self@.len(),
    {
        self.end - self.start
    }

    /// Whether `id` lies in the interval.
    pub fn contains(&self, id: Id<E>) -> (r: bool)
        requires
            self.wf(),
        ensures
            r == self@.contains(id@),
    {
        let i = id.index();
        let r = self.start <= i && i < self.end;
        if r {
            assert(self@[i - self.start] == id@);
        }
        r
    }

    /// Appends `id` when it is the slot right after the interval's end, or
    /// starts the interval at `id` when it is empty; otherwise leaves the
    /// interval as it is and returns false.
    pub fn append(&mut self, id: Id<E>) -> (appended: bool)
        requires
            old(self).wf(),
        ensures
            final(self).wf(),
            appended == (id@ < usize::MAX && follows(old(self)@, id@)),
            appended ==> final(self)@ == old(self)@.push(id@),
            !appended ==> final(self)@ == old(self)@,
    {
        let i = id.index();
        if i == usize::MAX {
            false
        } else if self.start == self.end {
            self.start = i;
            self.end = i + 1;
            assert(self@ =~= old(self)@.push(id@));
            true
        } else if i == self.end {
            self.end = i + 1;
            assert(self@ =~= old(self)@.push(id@));
            true
        } else {
            false
        }
    }
}

impl<E> Clone for IdRange<E> {
    fn clone(&self) -> (r: Self)
        ensures
            r == *self,
    {
        *self
    }
}

impl<E> Copy for IdRange<E> {
}

impl<E> PartialEq for IdRange<E> {
    fn eq(&self, other: &IdRange<E>) -> (r: bool) {
        let e1 = self.start >= self.end;
        let e2 = other.start >= other.end;
        let r = (e1 && e2) || (self.start == other.start && self.end == other.end);
        proof {
            if !r && self@.len() == other@.len() && self@.len() > 0 {
                assert(self@[0] != other@[0]);
            }
            if r {
                assert(self@ =~= other@);
            }
        }
        r
    }
}

impl<E> vstd::std_specs::cmp::PartialEqSpecImpl for IdRange<E> {
    open spec fn obeys_eq_spec() -> bool {
        true
    }

    open spec fn eq_spec(&self, other: &IdRange<E>) -> bool {
        self@ == other@
    }
}

impl<E> Eq for IdRange<E> {
}

/// The relation of one entity, with its children held as an interval.
#[derive(Debug)]
pub enum RangeRelation<E> {
    /// A child, with the id of its parent.
    ChildOf(Id<E>),
    /// A parent, with the interval of its children.
    ParentOf(IdRange<E>),
}

impl<E> View for RangeRelation<E> {
    type V = RelationView;

    open spec fn view(&self) -> RelationView {
        match self {
            RangeRelation::ChildOf(p) => RelationView::Child(p@),
            RangeRelation::ParentOf(c) => RelationView::Parent(c@),
        }
    }
}

impl<E> RangeRelation<E> {
    /// The interval of a parent has ordered bounds.
    pub open spec fn wf(&self) -> bool {
        match self {
            RangeRelation::ChildOf(_) => true,
            RangeRelation::ParentOf(c) => c.wf(),
        }
    }

    /// A parent without children.
    pub fn parent() -> (r: Self)
        ensures
            r.wf(),
            r@ == RelationView::Parent(seq![]),
    {
        RangeRelation::ParentOf(IdRange::new())
    }

    /// The children, when this is a parent.
    pub fn parent_of(self) -> (r: Option<IdRange<E>>)
        ensures
            match self {
                RangeRelation::ParentOf(c) => r == Some(c),
                RangeRelation::ChildOf(_) => r is None,
            },
    {
        match self {
            RangeRelation::ParentOf(c) => Some(c),
            RangeRelation::ChildOf(_) => None,
        }
    }

    /// The parent, when this is a child.
    pub fn child_of(self) -> (r: Option<Id<E>>)
        ensures
            match self {
                RangeRelation::ChildOf(p) => r == Some(p),
                RangeRelation::ParentOf(_) => r is None,
            },
    {
        match self {
            RangeRelation::ChildOf(p) => Some(p),
            RangeRelation::ParentOf(_) => None,
        }
    }

    /// Whether this is a parent.
    pub fn is_parent(&self) -> (r: bool)
        ensures
            r == self@ is Parent,
    {
        match self {
            RangeRelation::ParentOf(_) => true,
            RangeRelation::ChildOf(_) => false,
        }
    }

    /// Whether this is a child.
    pub fn is_child(&self) -> (r: bool)
        ensures
            r == self@ is Child,
    {
        !self.is_parent()
    }
}

impl<E> Clone for RangeRelation<E> {
    fn clone(&self) -> (r: Self)
        ensures
            r == *self,
    {
        *self
    }
}

impl<E> Copy for RangeRelation<E> {
}

impl<E> PartialEq for RangeRelation<E> {
    fn eq(&self, other: &RangeRelation<E>) -> (r: bool) {
        match (self, other) {
            (RangeRelation::ChildOf(a), RangeRelation::ChildOf(b)) => a == b,
            (RangeRelation::ParentOf(a), RangeRelation::ParentOf(b)) => a == b,
            _ => false,
        }
    }
}

impl<E> vstd::std_specs::cmp::PartialEqSpecImpl for RangeRelation<E> {
    open spec fn obeys_eq_spec() -> bool {
        true
    }

    open spec fn eq_spec(&self, other: &RangeRelation<E>) -> bool {
        self@ == other@
    }
}

impl<E> Eq for RangeRelation<E> {
}

/// The relations of one id space, each parent's children held as one
/// interval of consecutive slots.
///
/// Nothing is ever unlinked, so the store relies on ids whose slots are
/// never reused.
#[derive(Debug, Clone)]
pub struct RangeRelations<E> {
    values: SparseStore<RangeRelation<E>>,
}

impl<E> View for RangeRelations<E> {
    type V = Relations;

    closed spec fn view(&self) -> Relations {
        self.values@.map_values(|r: RangeRelation<E>| r@)
    }
}

impl<E> Default for RangeRelations<E> {
    fn default() -> (r: Self)
        ensures
            r.wf(),
            r@ == Relations::empty(),
    {
        RangeRelations::new()
    }
}

impl<E> RangeRelations<E> {
    /// Every stored interval has ordered bounds.
    pub closed spec fn intervals_wf(&self) -> bool {
        forall|k: nat| #[trigger] self.values@.contains_key(k) ==> self.values@[k].wf()
    }

    /// Stored intervals have ordered bounds, and parents and children name
    /// each other.
    pub open spec fn wf(&self) -> bool {
        self.intervals_wf() && well_linked(self@)
    }

    /// A store without relations.
    pub fn new() -> (r: Self)
        ensures
            r.wf(),
            r@ == Relations::empty(),
    {
        let r = RangeRelations { values: SparseStore::new() };
        assert(r@ =~= Relations::empty());
        proof {
            lemma_empty_well_linked();
        }
        r
    }

    /// The ids that have a relation, in increasing slot order.
    pub fn ids(&self) -> (r: Vec<Id<E>>)
        ensures
            forall|i: int, j: int|
                0 <= i < j < r@.len() ==> raw_ids(r@)[i] < raw_ids(r@)[j],
            forall|k: nat| self@.contains_key(k) <==> raw_ids(r@).contains(k),
    {
        self.values.ids()
    }

    /// Stores `relation` for `id` unless `id` already has one.
    fn insert_if_empty(&mut self, id: Id<E>, relation: RangeRelation<E>) -> (r: Result<
        (),
        RelationError,
    >)
        requires
            old(self).intervals_wf(),
            relation.wf(),
            id@ < usize::MAX,
        ensures
            final(self).intervals_wf(),
            old(self)@.contains_key(id@) ==> r == Err::<(), RelationError>(
                RelationError::Occupied,
            ) && final(self)@ == old(self)@,
            !old(self)@.contains_key(id@) ==> r is Ok && final(self)@ == old(self)@.insert(
                id@,
                relation@,
            ),
    {
        let i = id.index();
        if self.values.contains(i) {
            return Err(RelationError::Occupied);
        }
        self.values.insert(i, relation);
        assert(self@ =~= old(self)@.insert(id@, relation@));
        Ok(())
    }

    /// Registers `id` as a parent without children; fails with `Occupied`
    /// when `id` already has a relation. Slot `usize::MAX` cannot be stored.
    pub fn insert_parent(&mut self, id: Id<E>) -> (r: Result<(), RelationError>)
        requires
            old(self).wf(),
            id@ < usize::MAX,
        ensures
            final(self).wf(),
            match insert_parent_spec(old(self)@, id@) {
                Ok(m) => r is Ok && final(self)@ == m,
                Err(e) => r == Err::<(), RelationError>(e) && final(self)@ == old(self)@,
            },
    {
        let r = self.insert_if_empty(id, RangeRelation::parent());
        proof {
            if r is Ok {
                lemma_insert_parent_well_linked(old(self)@, id@);
            }
        }
        r
    }

    /// Attaches `id`, which may not be slot `usize::MAX`, as a child of `parent`. Fails, leaving the store
    /// unchanged, with `NotAParent` when `parent` holds no `Parent`
    /// relation, with `Occupied` when `id` already has a relation, and with
    /// `NotContiguous` when `id` is not the slot right after the parent's
    /// last child.
    pub fn insert_child(&mut self, id: Id<E>, parent: Id<E>) -> (r: Result<(), RelationError>)
        requires
            old(self).wf(),
            id@ < usize::MAX,
        ensures
            final(self).wf(),
            match insert_child_contiguous_spec(old(self)@, id@, parent@) {
                Ok(m) => r is Ok && final(self)@ == m,
                Err(e) => r == Err::<(), RelationError>(e) && final(self)@ == old(self)@,
            },
    {
        let p = parent.index();
        let c = id.index();
        let mut children = match self.values.get(p) {
            Some(RangeRelation::ParentOf(children)) => *children,
            _ => return Err(RelationError::NotAParent),
        };
        if self.values.contains(c) {
            return Err(RelationError::Occupied);
        }
        assert(children@ == old(self)@[parent@]->Parent_0);
        proof {
            self.values.lemma_keys_bounded();
        }
        if !children.append(id) {
            return Err(RelationError::NotContiguous);
        }
        self.values.insert(p, RangeRelation::ParentOf(children));
        self.values.insert(c, RangeRelation::ChildOf(parent));
        assert(self@ =~= old(self)@.insert(
            parent@,
            RelationView::Parent(old(self)@[parent@]->Parent_0.push(id@)),
        ).insert(id@, RelationView::Child(parent@)));
        proof {
            lemma_insert_child_contiguous_well_linked(old(self)@, id@, parent@);
        }
        Ok(())
    }

    /// The relation of `id`, which must have one.
    pub fn index(&self, id: Id<E>) -> (r: &RangeRelation<E>)
        requires
            self.wf(),
            self@.contains_key(id@),
        ensures
            r.wf(),
            r@ == self@[id@],
    {
        self.values.get(id.index()).unwrap()
    }

    /// The ids of `ids` that hold a `Parent` relation, in their order in
    /// `ids`; ids without a relation are left out.
    pub fn parents(&self, ids: &Vec<Id<E>>) -> (r: Vec<Id<E>>)
        ensures
            raw_ids(r@) == parents_in(self@, raw_ids(ids@)),
    {
        let mut r: Vec<Id<E>> = Vec::new();
        let mut k: usize = 0;
        while k < ids.len()
            invariant
                k <= ids@.len(),
                raw_ids(r@) == parents_in(self@, raw_ids(ids@.take(k as int))),
            decreases ids@.len() - k,
        {
            let id = ids[k];
            let keep = match self.values.get(id.index()) {
                Some(RangeRelation::ParentOf(_)) => true,
                _ => false,
            };
            assert(keep == is_parent_in(self@, id@));
            let ghost before = r@;
            if keep {
                r.push(id);
                assert(raw_ids(r@) =~= raw_ids(before).push(id@));
            }
            let ghost s = raw_ids(ids@.take(k + 1));
            assert(s.drop_last() =~= raw_ids(ids@.take(k as int)));
            assert(s.len() == k + 1);
            reveal_with_fuel(Seq::filter, 1);
            assert(s.last() == id@);
            assert(parents_in(self@, s) == if keep {
                parents_in(self@, s.drop_last()).push(id@)
            } else {
                parents_in(self@, s.drop_last())
            });
            k = k + 1;
        }
        assert(ids@.take(ids@.len() as int) =~= ids@);
        r
    }
}

} // verus!
