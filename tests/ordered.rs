use relations::{Id, RelationError, VecRelation, VecRelations};

#[derive(Debug)]
struct Arena;

fn id(index: usize) -> Id<Arena> {
    Id::new(index)
}

#[test]
fn vec_get_children_for_new_parent_returns_empty_vec() {
    let mut graph = VecRelations::<Arena>::default();
    let parent = id(0);

    graph.insert_parent(parent).unwrap();
    assert_eq!(*graph.index(parent), VecRelation::parent());
}

#[test]
fn vec_link_child_to_parent() {
    let mut graph = VecRelations::<Arena>::default();
    let id0 = id(0);
    let id1 = id(1);

    graph.insert_parent(id0).unwrap();
    graph.insert_child(id1, id0).unwrap();

    assert_eq!(*graph.index(id0), VecRelation::ParentOf(vec![id1]));
    assert_eq!(*graph.index(id1), VecRelation::ChildOf(id0));
}

#[test]
fn vec_link_child_to_another_child() {
    let mut graph = VecRelations::<Arena>::default();
    let id0 = id(0);
    let id1 = id(1);
    let id2 = id(2);

    graph.insert_parent(id0).unwrap();
    graph.insert_child(id1, id0).unwrap();
    assert_eq!(graph.insert_child(id2, id1), Err(RelationError::NotAParent));
}

#[test]
fn vec_insert_parent_overtop_of_another_link() {
    let mut graph = VecRelations::<Arena>::default();
    let id0 = id(0);

    graph.insert_parent(id0).unwrap();
    assert_eq!(graph.insert_parent(id0), Err(RelationError::Occupied));
}

#[test]
fn vec_insert_child_overtop_of_another_parent() {
    let mut graph = VecRelations::<Arena>::default();
    let id0 = id(0);
    let id1 = id(1);

    graph.insert_parent(id0).unwrap();
    graph.insert_parent(id1).unwrap();
    assert_eq!(graph.insert_child(id1, id0), Err(RelationError::Occupied));
}

#[test]
fn vec_failed_insert_leaves_store_unchanged() {
    let mut graph = VecRelations::<Arena>::default();
    graph.insert_parent(id(0)).unwrap();
    graph.insert_parent(id(1)).unwrap();
    assert_eq!(graph.insert_child(id(1), id(0)), Err(RelationError::Occupied));
    assert_eq!(*graph.index(id(0)), VecRelation::parent());
    assert_eq!(*graph.index(id(1)), VecRelation::parent());
}

#[test]
fn vec_child_before_parent_is_refused() {
    let mut graph = VecRelations::<Arena>::default();
    assert_eq!(graph.insert_child(id(1), id(0)), Err(RelationError::NotAParent));
    assert!(graph.ids().is_empty());
}

#[test]
fn vec_parent_after_child_is_refused() {
    let mut graph = VecRelations::<Arena>::default();
    graph.insert_parent(id(4)).unwrap();
    graph.insert_child(id(5), id(4)).unwrap();
    assert_eq!(graph.insert_parent(id(5)), Err(RelationError::Occupied));
    assert_eq!(graph.insert_child(id(5), id(4)), Err(RelationError::Occupied));
    assert_eq!(graph.insert_child(id(4), id(4)), Err(RelationError::Occupied));
    assert_eq!(*graph.index(id(5)), VecRelation::ChildOf(id(4)));
}

#[test]
fn vec_children_keep_attachment_order() {
    let mut graph = VecRelations::<Arena>::default();
    graph.insert_parent(id(3)).unwrap();
    graph.insert_child(id(9), id(3)).unwrap();
    graph.insert_child(id(1), id(3)).unwrap();
    graph.insert_child(id(6), id(3)).unwrap();
    assert_eq!(
        graph.index(id(3)).parent_of(),
        Some(&vec![id(9), id(1), id(6)])
    );
    assert_eq!(graph.index(id(1)).child_of(), Some(id(3)));
    assert_eq!(graph.ids(), vec![id(1), id(3), id(6), id(9)]);
}

#[test]
fn vec_relation_accessors() {
    let parent = VecRelation::<Arena>::parent();
    assert!(parent.is_parent());
    assert!(!parent.is_child());
    assert_eq!(parent.parent_of(), Some(&vec![]));
    assert_eq!(parent.child_of(), None);

    let child = VecRelation::ChildOf(id(3));
    assert!(child.is_child());
    assert!(!child.is_parent());
    assert_eq!(child.child_of(), Some(id(3)));
    assert_eq!(child.parent_of(), None);
    assert_ne!(parent, child);
    assert_ne!(VecRelation::ParentOf(vec![id(1)]), VecRelation::ParentOf(vec![id(2)]));
    assert_ne!(VecRelation::ChildOf(id(1)), VecRelation::ChildOf(id(2)));
}
