use vstd::prelude::*;

verus! {

/// What the store holds for one entity, as plain values: the raw index of
/// its parent, or the raw indices of its children in the order they were
/// attached.
pub enum RelationView {
    /// A child, with the raw index of its parent.
    Child(nat),
    /// A parent, with the raw indices of its children.
    Parent(Seq<nat>),
}

/// The one class of failure: an insertion that would break the relation
/// invariants. The store is left unchanged when it is returned.
#[derive(Debug, Clone, Copy, PartialEq, Eq, Structural)]
pub enum RelationError {
    /// The id already has a relation.
    Occupied,
    /// The id named as parent holds no `Parent` relation.
    NotAParent,
    /// The child does not directly follow the parent's interval of children.
    NotContiguous,
}

/// The relations of a store, keyed by raw index.
pub type Relations = Map<nat, RelationView>;

/// `id` holds a `Parent` relation in `m`.
pub open spec fn is_parent_in(m: Relations, id: nat) -> bool {
    m.contains_key(id) && m[id] is Parent
}

/// The entries of `ids` that hold a `Parent` relation in `m`, in order.
pub open spec fn parents_in(m: Relations, ids: Seq<nat>) -> Seq<nat> {
    ids.filter(|i: nat| is_parent_in(m, i))
}

/// The children of `id`, a parent in `m`.
pub open spec fn children_in(m: Relations, id: nat) -> Seq<nat>
    recommends
        is_parent_in(m, id),
{
    m[id]->Parent_0
}

/// Every child names a parent that lists it, and every id listed by a
/// parent is a child naming that parent: a forest of depth one.
pub open spec fn well_linked(m: Relations) -> bool {
    &&& forall|c: nat| #[trigger] m.contains_key(c) && m[c] is Child ==> {
        let p = m[c]->Child_0;
        is_parent_in(m, p) && children_in(m, p).contains(c)
    }
    &&& forall|p: nat, i: int|
        is_parent_in(m, p) && 0 <= i < children_in(m, p).len() ==> {
            let c = #[trigger] children_in(m, p)[i];
            m.contains_key(c) && m[c] == RelationView::Child(p)
        }
}

/// Outcome of registering `p` as a parent without children.
pub open spec fn insert_parent_spec(m: Relations, p: nat) -> Result<Relations, RelationError> {
    if m.contains_key(p) {
        Err(RelationError::Occupied)
    } else {
        Ok(m.insert(p, RelationView::Parent(seq![])))
    }
}

/// `m` with child `c` attached to parent `p`.
pub open spec fn linked(m: Relations, c: nat, p: nat) -> Relations {
    m.insert(p, RelationView::Parent(children_in(m, p).push(c))).insert(c, RelationView::Child(p))
}

/// Outcome of attaching `c` under `p` when children may be attached in any
/// order.
pub open spec fn insert_child_spec(m: Relations, c: nat, p: nat) -> Result<Relations, RelationError> {
    if !is_parent_in(m, p) {
        Err(RelationError::NotAParent)
    } else if m.contains_key(c) {
        Err(RelationError::Occupied)
    } else {
        Ok(linked(m, c, p))
    }
}

/// `c` may be appended to the interval of children `s`: the interval is
/// empty, or `c` is the slot right after its end.
pub open spec fn follows(s: Seq<nat>, c: nat) -> bool {
    s.len() == 0 || c == s.last() + 1
}

/// Outcome of attaching `c` under `p` when the children of a parent must
/// form one interval of consecutive slots.
pub open spec fn insert_child_contiguous_spec(m: Relations, c: nat, p: nat) -> Result<
    Relations,
    RelationError,
> {
    if !is_parent_in(m, p) {
        Err(RelationError::NotAParent)
    } else if m.contains_key(c) {
        Err(RelationError::Occupied)
    } else if !follows(children_in(m, p), c) {
        Err(RelationError::NotContiguous)
    } else {
        Ok(linked(m, c, p))
    }
}

} // verus!
