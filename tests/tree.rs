use async_ctx::Tree;

#[test]
fn new_tree_is_empty() {
    let t: Tree<u64> = Tree::new();
    assert_eq!(t.len(), 0);
}

#[test]
fn roots_and_children_get_consecutive_indices() {
    let mut t: Tree<u64> = Tree::new();
    assert_eq!(t.add_root(), 0);
    assert_eq!(t.add_child(0), 1);
    assert_eq!(t.add_child(1), 2);
    assert_eq!(t.add_root(), 3);
    assert_eq!(t.len(), 4);
}

#[test]
fn fresh_root_is_pending_and_registers() {
    let mut t: Tree<u64> = Tree::new();
    let r = t.add_root();
    assert!(!t.is_resolved(r));
    assert!(!t.poll(r, 7));
    assert_eq!(t.complete(r), Some(vec![7]));
}

#[test]
fn complete_hands_out_waiters_in_order() {
    let mut t: Tree<u64> = Tree::new();
    let r = t.add_root();
    assert!(!t.poll(r, 1));
    assert!(!t.poll(r, 2));
    assert!(!t.poll(r, 3));
    assert_eq!(t.complete(r), Some(vec![1, 2, 3]));
    assert!(t.is_resolved(r));
}

#[test]
fn complete_without_waiters_hands_out_none() {
    let mut t: Tree<u64> = Tree::new();
    let r = t.add_root();
    assert_eq!(t.complete(r), None);
    assert!(t.is_resolved(r));
}

#[test]
fn second_complete_hands_out_nothing() {
    let mut t: Tree<u64> = Tree::new();
    let r = t.add_root();
    assert!(!t.poll(r, 5));
    assert_eq!(t.complete(r), Some(vec![5]));
    assert_eq!(t.complete(r), None);
    assert!(t.is_resolved(r));
}

#[test]
fn resolved_poll_registers_nothing() {
    let mut t: Tree<u64> = Tree::new();
    let r = t.add_root();
    t.complete(r);
    assert!(t.poll(r, 9));
    assert_eq!(t.complete(r), None);
}

#[test]
fn pending_poll_registers_on_every_ancestor() {
    let mut t: Tree<u64> = Tree::new();
    let r = t.add_root();
    let c = t.add_child(r);
    let g = t.add_child(c);
    assert!(!t.poll(g, 4));
    assert_eq!(t.complete(r), Some(vec![4]));
    assert!(t.is_resolved(c));
    assert!(t.is_resolved(g));
    assert!(t.poll(g, 8));
}

#[test]
fn child_completion_does_not_reach_parent() {
    let mut t: Tree<u64> = Tree::new();
    let r = t.add_root();
    let c = t.add_child(r);
    assert!(!t.poll(r, 1));
    assert!(!t.poll(c, 2));
    assert_eq!(t.complete(c), Some(vec![2]));
    assert!(!t.is_resolved(r));
    assert!(!t.poll(r, 3));
    assert_eq!(t.complete(r), Some(vec![1, 2, 3]));
}

#[test]
fn child_of_resolved_parent_starts_resolved() {
    let mut t: Tree<u64> = Tree::new();
    let r = t.add_root();
    t.complete(r);
    let c = t.add_child(r);
    assert!(t.is_resolved(c));
    assert!(t.poll(c, 1));
}

#[test]
fn siblings_are_independent() {
    let mut t: Tree<u64> = Tree::new();
    let r = t.add_root();
    let a = t.add_child(r);
    let b = t.add_child(r);
    t.complete(a);
    assert!(t.is_resolved(a));
    assert!(!t.is_resolved(b));
    assert!(!t.is_resolved(r));
}
