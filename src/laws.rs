use vstd::prelude::*;

use crate::range::interval;
use crate::relation::{
    children_in, insert_child_contiguous_spec, insert_child_spec, insert_parent_spec,
    is_parent_in, well_linked, RelationError, RelationView, Relations,
};

verus! {

/// A new parent has no children.
pub proof fn lemma_new_parent_is_childless(m: Relations, p: nat)
    requires
        !m.contains_key(p),
    ensures
        insert_parent_spec(m, p) is Ok,
        insert_parent_spec(m, p)->Ok_0[p] == RelationView::Parent(seq![]),
{
}

/// Attaching a first child `c` to a new parent `p` makes `p` the parent of
/// exactly `[c]` and `c` the child of `p`, in either kind of store.
pub proof fn lemma_first_child(m: Relations, p: nat, c: nat)
    requires
        !m.contains_key(p),
        !m.contains_key(c),
        p != c,
    ensures
        ({
            let m1 = insert_parent_spec(m, p)->Ok_0;
            &&& insert_parent_spec(m, p) is Ok
            &&& insert_child_spec(m1, c, p) is Ok
            &&& insert_child_spec(m1, c, p)->Ok_0[p] == RelationView::Parent(seq![c])
            &&& insert_child_spec(m1, c, p)->Ok_0[c] == RelationView::Child(p)
            &&& insert_child_contiguous_spec(m1, c, p) == insert_child_spec(m1, c, p)
        }),
{
    let m1 = insert_parent_spec(m, p)->Ok_0;
    assert(children_in(m1, p) =~= seq![]);
    assert(children_in(m1, p).push(c) =~= seq![c]);
}

/// A child cannot be attached under an id that has no relation yet.
pub proof fn lemma_child_needs_parent(m: Relations, c: nat, p: nat)
    requires
        !m.contains_key(p),
    ensures
        insert_child_spec(m, c, p) == Err::<Relations, RelationError>(RelationError::NotAParent),
        insert_child_contiguous_spec(m, c, p) == Err::<Relations, RelationError>(
            RelationError::NotAParent,
        ),
{
}

/// Registering the same parent twice fails the second time.
pub proof fn lemma_parent_twice(m: Relations, p: nat)
    ensures
        match insert_parent_spec(m, p) {
            Ok(m1) => insert_parent_spec(m1, p) == Err::<Relations, RelationError>(
                RelationError::Occupied,
            ),
            Err(e) => e == RelationError::Occupied,
        },
{
}

/// A child cannot be attached under another child: trees have depth one.
pub proof fn lemma_no_grandchildren(m: Relations, c2: nat, c1: nat)
    requires
        m.contains_key(c1),
        m[c1] is Child,
    ensures
        insert_child_spec(m, c2, c1) == Err::<Relations, RelationError>(RelationError::NotAParent),
        insert_child_contiguous_spec(m, c2, c1) == Err::<Relations, RelationError>(
            RelationError::NotAParent,
        ),
{
}

/// An id that has a relation keeps it: registering it as a parent fails
/// with `Occupied`, attaching it as a child fails, and every successful
/// insertion of another id leaves it in the store.
pub proof fn lemma_roles_permanent(m: Relations, id: nat, p: nat)
    requires
        m.contains_key(id),
    ensures
        insert_parent_spec(m, id) == Err::<Relations, RelationError>(RelationError::Occupied),
        insert_child_spec(m, id, p) is Err,
        insert_child_contiguous_spec(m, id, p) is Err,
        forall|c: nat, q: nat| #[trigger]
            insert_child_spec(m, c, q) is Ok ==> insert_child_spec(m, c, q)->Ok_0.contains_key(id),
        forall|q: nat| #[trigger]
            insert_parent_spec(m, q) is Ok ==> insert_parent_spec(m, q)->Ok_0.contains_key(id),
{
}

/// Children attached one after another at consecutive slots `c`, `c + 1`,
/// `c + 2` of a new parent form the single interval `[c, c + 3)`.
pub proof fn lemma_sequential_children(m: Relations, p: nat, c: nat)
    requires
        !m.contains_key(p),
        !m.contains_key(c),
        !m.contains_key(c + 1),
        !m.contains_key(c + 2),
        p != c,
        p != c + 1,
        p != c + 2,
    ensures
        ({
            let m1 = insert_parent_spec(m, p)->Ok_0;
            let m2 = insert_child_contiguous_spec(m1, c, p)->Ok_0;
            let m3 = insert_child_contiguous_spec(m2, c + 1, p)->Ok_0;
            let m4 = insert_child_contiguous_spec(m3, c + 2, p)->Ok_0;
            &&& insert_parent_spec(m, p) is Ok
            &&& insert_child_contiguous_spec(m1, c, p) is Ok
            &&& insert_child_contiguous_spec(m2, c + 1, p) is Ok
            &&& insert_child_contiguous_spec(m3, c + 2, p) is Ok
            &&& m4[p] == RelationView::Parent(interval(c, c + 3))
        }),
{
    let m1 = insert_parent_spec(m, p)->Ok_0;
    let m2 = insert_child_contiguous_spec(m1, c, p)->Ok_0;
    let m3 = insert_child_contiguous_spec(m2, c + 1, p)->Ok_0;
    let m4 = insert_child_contiguous_spec(m3, c + 2, p)->Ok_0;
    assert(children_in(m1, p).push(c) =~= seq![c]);
    assert(children_in(m2, p).push(c + 1) =~= seq![c, c + 1]);
    assert(children_in(m3, p).push(c + 2) =~= interval(c, c + 3));
}

/// A store without relations is well linked.
pub proof fn lemma_empty_well_linked()
    ensures
        well_linked(Relations::empty()),
{
}

/// Registering a parent keeps a store well linked.
pub proof fn lemma_insert_parent_well_linked(m: Relations, p: nat)
    requires
        well_linked(m),
        insert_parent_spec(m, p) is Ok,
    ensures
        well_linked(insert_parent_spec(m, p)->Ok_0),
{
    let m1 = insert_parent_spec(m, p)->Ok_0;
    assert forall|c: nat| #[trigger] m1.contains_key(c) && m1[c] is Child implies {
        let q = m1[c]->Child_0;
        is_parent_in(m1, q) && children_in(m1, q).contains(c)
    } by {
        assert(m.contains_key(c));
    }
    assert forall|q: nat, i: int|
        is_parent_in(m1, q) && 0 <= i < children_in(m1, q).len() implies {
        let x = #[trigger] children_in(m1, q)[i];
        m1.contains_key(x) && m1[x] == RelationView::Child(q)
    } by {
        if q != p {
            assert(children_in(m1, q) == children_in(m, q));
            assert(children_in(m, q)[i] != p);
        }
    }
}

/// Attaching a child keeps a store well linked.
pub proof fn lemma_insert_child_well_linked(m: Relations, c: nat, p: nat)
    requires
        well_linked(m),
        insert_child_spec(m, c, p) is Ok,
    ensures
        well_linked(insert_child_spec(m, c, p)->Ok_0),
{
    let m1 = insert_child_spec(m, c, p)->Ok_0;
    let s = children_in(m, p).push(c);
    assert(children_in(m1, p) == s);
    assert forall|x: nat| #[trigger] m1.contains_key(x) && m1[x] is Child implies {
        let q = m1[x]->Child_0;
        is_parent_in(m1, q) && children_in(m1, q).contains(x)
    } by {
        if x == c {
            assert(s[s.len() - 1] == c);
        } else {
            let q = m[x]->Child_0;
            if q == p {
                let j = choose|j: int| 0 <= j < children_in(m, p).len() && children_in(m, p)[j] == x;
                assert(s[j] == x);
            }
        }
    }
    assert forall|q: nat, i: int|
        is_parent_in(m1, q) && 0 <= i < children_in(m1, q).len() implies {
        let x = #[trigger] children_in(m1, q)[i];
        m1.contains_key(x) && m1[x] == RelationView::Child(q)
    } by {
        if q == p {
            if i < children_in(m, p).len() {
                assert(children_in(m1, q)[i] == children_in(m, p)[i]);
            }
        } else {
            assert(children_in(m1, q) == children_in(m, q));
            assert(children_in(m, q)[i] != c);
        }
    }
}

/// The contiguous attachment is the ordered one on the inputs it accepts,
/// so it keeps a store well linked too.
pub proof fn lemma_insert_child_contiguous_well_linked(m: Relations, c: nat, p: nat)
    requires
        well_linked(m),
        insert_child_contiguous_spec(m, c, p) is Ok,
    ensures
        insert_child_contiguous_spec(m, c, p) == insert_child_spec(m, c, p),
        well_linked(insert_child_contiguous_spec(m, c, p)->Ok_0),
{
    lemma_insert_child_well_linked(m, c, p);
}

} // verus!
