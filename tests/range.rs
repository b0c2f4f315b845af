use relations::{Id, IdRange, RangeRelation, RangeRelations, RelationError};

#[derive(Debug)]
struct Arena;

fn id(index: usize) -> Id<Arena> {
    Id::new(index)
}

#[test]
fn range_get_children_for_new_parent_returns_empty_vec() {
    let mut graph = RangeRelations::<Arena>::default();
    let parent = id(0);

    graph.insert_parent(parent).unwrap();
    assert_eq!(*graph.index(parent), RangeRelation::parent());
}

#[test]
fn range_link_child_to_parent() {
    let mut graph = RangeRelations::<Arena>::default();
    let id0 = id(0);
    let id1 = id(1);

    graph.insert_parent(id0).unwrap();
    graph.insert_child(id1, id0).unwrap();

    assert_eq!(*graph.index(id0), RangeRelation::ParentOf(IdRange::single(id1)));
    assert_eq!(*graph.index(id1), RangeRelation::ChildOf(id0));
}

#[test]
fn range_link_child_to_another_child() {
    let mut graph = RangeRelations::<Arena>::default();
    let id0 = id(0);
    let id1 = id(1);
    let id2 = id(2);

    graph.insert_parent(id0).unwrap();
    graph.insert_child(id1, id0).unwrap();
    assert_eq!(graph.insert_child(id2, id1), Err(RelationError::NotAParent));
}

#[test]
fn range_insert_parent_overtop_of_another_link() {
    let mut graph = RangeRelations::<Arena>::default();
    let id0 = id(0);

    graph.insert_parent(id0).unwrap();
    assert_eq!(graph.insert_parent(id0), Err(RelationError::Occupied));
}

#[test]
fn range_insert_child_overtop_of_another_parent() {
    let mut graph = RangeRelations::<Arena>::default();
    let id0 = id(0);
    let id1 = id(1);

    graph.insert_parent(id0).unwrap();
    graph.insert_parent(id1).unwrap();
    assert_eq!(graph.insert_child(id1, id0), Err(RelationError::Occupied));
}

#[test]
fn range_failed_insert_leaves_store_unchanged() {
    let mut graph = RangeRelations::<Arena>::default();
    graph.insert_parent(id(0)).unwrap();
    graph.insert_parent(id(1)).unwrap();
    assert_eq!(graph.insert_child(id(1), id(0)), Err(RelationError::Occupied));
    assert_eq!(*graph.index(id(0)), RangeRelation::parent());
    assert_eq!(*graph.index(id(1)), RangeRelation::parent());
}

#[test]
fn range_child_before_parent_is_refused() {
    let mut graph = RangeRelations::<Arena>::default();
    assert_eq!(graph.insert_child(id(1), id(0)), Err(RelationError::NotAParent));
    assert!(graph.ids().is_empty());
}

#[test]
fn range_parent_after_child_is_refused() {
    let mut graph = RangeRelations::<Arena>::default();
    graph.insert_parent(id(4)).unwrap();
    graph.insert_child(id(5), id(4)).unwrap();
    assert_eq!(graph.insert_parent(id(5)), Err(RelationError::Occupied));
    assert_eq!(graph.insert_child(id(5), id(4)), Err(RelationError::Occupied));
    assert_eq!(graph.insert_child(id(4), id(4)), Err(RelationError::Occupied));
    assert_eq!(*graph.index(id(5)), RangeRelation::ChildOf(id(4)));
}

#[test]
fn range_sequential_children_form_one_interval() {
    let mut graph = RangeRelations::<Arena>::default();
    graph.insert_parent(id(0)).unwrap();
    graph.insert_child(id(1), id(0)).unwrap();
    graph.insert_child(id(2), id(0)).unwrap();
    graph.insert_child(id(3), id(0)).unwrap();

    let children = graph.index(id(0)).parent_of().unwrap();
    assert_eq!(children.len(), 3);
    assert!(children.contains(id(1)));
    assert!(children.contains(id(2)));
    assert!(children.contains(id(3)));
    assert!(!children.contains(id(0)));
    assert!(!children.contains(id(4)));
    assert_eq!(
        std::mem::size_of::<IdRange<Arena>>(),
        2 * std::mem::size_of::<usize>()
    );
    for c in 1..4 {
        assert_eq!(graph.index(id(c)).child_of(), Some(id(0)));
    }
}

#[test]
fn range_gap_in_children_is_refused() {
    let mut graph = RangeRelations::<Arena>::default();
    graph.insert_parent(id(0)).unwrap();
    graph.insert_child(id(1), id(0)).unwrap();
    assert_eq!(graph.insert_child(id(3), id(0)), Err(RelationError::NotContiguous));
    assert_eq!(graph.index(id(0)).parent_of().unwrap().len(), 1);
    assert_eq!(graph.ids(), vec![id(0), id(1)]);
}

#[test]
fn range_first_child_may_start_anywhere() {
    let mut graph = RangeRelations::<Arena>::default();
    graph.insert_parent(id(0)).unwrap();
    graph.insert_child(id(7), id(0)).unwrap();
    graph.insert_child(id(8), id(0)).unwrap();
    let children = graph.index(id(0)).parent_of().unwrap();
    assert_eq!(children.len(), 2);
    assert!(children.contains(id(7)) && children.contains(id(8)));
}

#[test]
fn range_parents_keeps_parents_in_order() {
    let mut graph = RangeRelations::<Arena>::default();
    graph.insert_parent(id(0)).unwrap();
    graph.insert_child(id(1), id(0)).unwrap();
    graph.insert_parent(id(2)).unwrap();

    let input = vec![id(2), id(1), id(9), id(0), id(2)];
    assert_eq!(graph.parents(&input), vec![id(2), id(0), id(2)]);
    assert_eq!(graph.parents(&input), vec![id(2), id(0), id(2)]);
    assert!(graph.parents(&vec![]).is_empty());
}

#[test]
fn range_ids_in_slot_order() {
    let mut graph = RangeRelations::<Arena>::default();
    graph.insert_parent(id(5)).unwrap();
    graph.insert_parent(id(2)).unwrap();
    graph.insert_child(id(3), id(2)).unwrap();
    assert_eq!(graph.ids(), vec![id(2), id(3), id(5)]);
}

#[test]
fn range_relation_accessors() {
    let parent = RangeRelation::<Arena>::parent();
    assert!(parent.is_parent());
    assert!(!parent.is_child());
    assert_eq!(parent.parent_of(), Some(IdRange::new()));
    assert_eq!(parent.child_of(), None);

    let child = RangeRelation::ChildOf(id(3));
    assert!(child.is_child());
    assert!(!child.is_parent());
    assert_eq!(child.child_of(), Some(id(3)));
    assert_eq!(child.parent_of(), None);
    assert_ne!(parent, child);
}

#[test]
fn range_interval_append() {
    let mut r = IdRange::<Arena>::new();
    assert_eq!(r.len(), 0);
    assert!(r.append(id(4)));
    assert!(r.append(id(5)));
    assert!(!r.append(id(7)));
    assert!(!r.append(id(4)));
    assert_eq!(r.len(), 2);
    assert_ne!(r, IdRange::single(id(4)));
    let mut s = IdRange::single(id(4));
    assert!(s.append(id(5)));
    assert_eq!(r, s);
    assert!(!IdRange::<Arena>::new().append(id(usize::MAX)));
}
