use vstd::prelude::*;

use crate::id::{raw_ids, Id};
use crate::laws::{
    lemma_empty_well_linked, lemma_insert_child_well_linked, lemma_insert_parent_well_linked,
};
use crate::relation::{
    insert_child_spec, insert_parent_spec, well_linked, RelationError, RelationView, Relations,
};
use crate::store::SparseStore;

verus! {

/// The relation of one entity, with its children held in the order they
/// were attached.
#[derive(Debug, Clone)]
pub enum VecRelation<E> {
    /// A child, with the id of its parent.
    ChildOf(Id<E>),
    /// A parent, with its children in the order they were attached.
    ParentOf(Vec<Id<E>>),
}

impl<E> View for VecRelation<E> {
    type V = RelationView;

    open spec fn view(&self) -> RelationView {
        match self {
            VecRelation::ChildOf(p) => RelationView::Child(p@),
            VecRelation::ParentOf(c) => RelationView::Parent(raw_ids(c@)),
        }
    }
}

impl<E> PartialEq for VecRelation<E> {
    fn eq(&self, other: &VecRelation<E>) -> (r: bool) {
        match (self, other) {
            (VecRelation::ChildOf(a), VecRelation::ChildOf(b)) => a == b,
            (VecRelation::ParentOf(a), VecRelation::ParentOf(b)) => {
                let r = a == b;
                proof {
                    if r {
                        assert(raw_ids(a@) =~= raw_ids(b@));
                    } else if a@.len() == b@.len() {
                        let i = choose|i: int| 0 <= i < a@.len() && a@[i]@ != b@[i]@;
                        assert(raw_ids(a@)[i] != raw_ids(b@)[i]);
                    }
                }
                r
            },
            _ => false,
        }
    }
}

impl<E> vstd::std_specs::cmp::PartialEqSpecImpl for VecRelation<E> {
    open spec fn obeys_eq_spec() -> bool {
        true
    }

    open spec fn eq_spec(&self, other: &VecRelation<E>) -> bool {
        self@ == other@
    }
}

impl<E> Eq for VecRelation<E> {
}

impl<E> VecRelation<E> {
    /// A parent without children.
    pub fn parent() -> (r: Self)
        ensures
            r@ == RelationView::Parent(seq![]),
    {
        let r = VecRelation::ParentOf(Vec::new());
        assert(r@->Parent_0 =~= seq![]);
        r
    }

    /// The children, when this is a parent.
    pub fn parent_of(&self) -> (r: Option<&Vec<Id<E>>>)
        ensures
            match self {
                VecRelation::ParentOf(c) => r == Some(c),
                VecRelation::ChildOf(_) => r is None,
            },
    {
        match self {
            VecRelation::ParentOf(c) => Some(c),
            VecRelation::ChildOf(_) => None,
        }
    }

    /// The parent, when this is a child.
    pub fn child_of(&self) -> (r: Option<Id<E>>)
        ensures
            match self {
                VecRelation::ChildOf(p) => r == Some(*p),
                VecRelation::ParentOf(_) => r is None,
            },
    {
        match self {
            VecRelation::ChildOf(p) => Some(*p),
            VecRelation::ParentOf(_) => None,
        }
    }

    /// Whether this is a parent.
    pub fn is_parent(&self) -> (r: bool)
        ensures
            r == self@ is Parent,
    {
        match self {
            VecRelation::ParentOf(_) => true,
            VecRelation::ChildOf(_) => false,
        }
    }

    /// Whether this is a child.
    pub fn is_child(&self) -> (r: bool)
        ensures
            r == self@ is Child,
    {
        !self.is_parent()
    }
}

/// The relations of one id space, each parent's children held in the order
/// they were attached, from any slots.
///
/// Nothing is ever unlinked, so the store relies on ids whose slots are
/// never reused.
#[derive(Debug, Clone)]
pub struct VecRelations<E> {
    values: SparseStore<VecRelation<E>>,
}

impl<E> View for VecRelations<E> {
    type V = Relations;

    closed spec fn view(&self) -> Relations {
        self.values@.map_values(|r: VecRelation<E>| r@)
    }
}

impl<E> Default for VecRelations<E> {
    fn default() -> (r: Self)
        ensures
            r.wf(),
            r@ == Relations::empty(),
    {
        VecRelations::new()
    }
}

impl<E> VecRelations<E> {
    /// Parents and children name each other.
    pub open spec fn wf(&self) -> bool {
        well_linked(self@)
    }

    /// A store without relations.
    pub fn new() -> (r: Self)
        ensures
            r.wf(),
            r@ == Relations::empty(),
    {
        let r = VecRelations { values: SparseStore::new() };
        assert(r@ =~= Relations::empty());
        proof {
            lemma_empty_well_linked();
        }
        r
    }

    /// The ids that have a relation, in increasing slot order.
    pub fn ids(&self) -> (r: Vec<Id<E>>)
        ensures
            forall|i: int, j: int|
                0 <= i < j < r@.len() ==> raw_ids(r@)[i] < raw_ids(r@)[j],
            forall|k: nat| self@.contains_key(k) <==> raw_ids(r@).contains(k),
    {
        self.values.ids()
    }

    /// Stores `relation` for `id` unless `id` already has one.
    fn insert_if_empty(&mut self, id: Id<E>, relation: VecRelation<E>) -> (r: Result<
        (),
        RelationError,
    >)
        requires
            id@ < usize::MAX,
        ensures
            old(self)@.contains_key(id@) ==> r == Err::<(), RelationError>(
                RelationError::Occupied,
            ) && final(self)@ == old(self)@,
            !old(self)@.contains_key(id@) ==> r is Ok && final(self)@ == old(self)@.insert(
                id@,
                relation@,
            ),
    {
        let i = id.index();
        if self.values.contains(i) {
            return Err(RelationError::Occupied);
        }
        self.values.insert(i, relation);
        assert(self@ =~= old(self)@.insert(id@, relation@));
        Ok(())
    }

    /// Registers `id` as a parent without children; fails with `Occupied`
    /// when `id` already has a relation. Slot `usize::MAX` cannot be stored.
    pub fn insert_parent(&mut self, id: Id<E>) -> (r: Result<(), RelationError>)
        requires
            old(self).wf(),
            id@ < usize::MAX,
        ensures
            final(self).wf(),
            match insert_parent_spec(old(self)@, id@) {
                Ok(m) => r is Ok && final(self)@ == m,
                Err(e) => r == Err::<(), RelationError>(e) && final(self)@ == old(self)@,
            },
    {
        let r = self.insert_if_empty(id, VecRelation::parent());
        proof {
            if r is Ok {
                lemma_insert_parent_well_linked(old(self)@, id@);
            }
        }
        r
    }

    /// Attaches `id`, which may not be slot `usize::MAX`, as the last child of `parent`. Fails, leaving the store
    /// unchanged, with `NotAParent` when `parent` holds no `Parent`
    /// relation, and with `Occupied` when `id` already has a relation.
    pub fn insert_child(&mut self, id: Id<E>, parent: Id<E>) -> (r: Result<(), RelationError>)
        requires
            old(self).wf(),
            id@ < usize::MAX,
        ensures
            final(self).wf(),
            match insert_child_spec(old(self)@, id@, parent@) {
                Ok(m) => r is Ok && final(self)@ == m,
                Err(e) => r == Err::<(), RelationError>(e) && final(self)@ == old(self)@,
            },
    {
        let p = parent.index();
        let c = id.index();
        match self.values.get(p) {
            Some(VecRelation::ParentOf(_)) => {},
            _ => return Err(RelationError::NotAParent),
        }
        if self.values.contains(c) {
            return Err(RelationError::Occupied);
        }
        proof {
            self.values.lemma_keys_bounded();
        }
        let mut children = match self.values.take(p) {
            Some(VecRelation::ParentOf(children)) => children,
            _ => Vec::new(),
        };
        assert(raw_ids(children@) == old(self)@[parent@]->Parent_0);
        children.push(id);
        assert(raw_ids(children@) =~= old(self)@[parent@]->Parent_0.push(id@));
        self.values.insert(p, VecRelation::ParentOf(children));
        self.values.insert(c, VecRelation::ChildOf(parent));
        assert(self@ =~= old(self)@.insert(
            parent@,
            RelationView::Parent(old(self)@[parent@]->Parent_0.push(id@)),
        ).insert(id@, RelationView::Child(parent@)));
        proof {
            lemma_insert_child_well_linked(old(self)@, id@, parent@);
        }
        Ok(())
    }

    /// The relation of `id`, which must have one.
    pub fn index(&self, id: Id<E>) -> (r: &VecRelation<E>)
        requires
            self@.contains_key(id@),
        ensures
            r@ == self@[id@],
    {
        self.values.get(id.index()).unwrap()
    }
}

} // verus!
