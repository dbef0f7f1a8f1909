use sharing::shared::{SharedCell, SharedHeap, WeakRef};

#[test]
fn new_cell_has_one_owner_and_no_observer() {
    let mut heap: SharedHeap<i32> = SharedHeap::new();
    let a = heap.new_cell(5);
    assert_eq!(heap.strong_count(&a), 1);
    assert_eq!(heap.weak_count(&a), 0);
    assert_eq!(*heap.get(&a), 5);
}

#[test]
fn clones_share_and_count() {
    let mut heap: SharedHeap<i32> = SharedHeap::new();
    let a = heap.new_cell(5);
    let b = heap.clone_cell(&a);
    assert_eq!(heap.strong_count(&a), 2);
    let c = heap.clone_cell(&a);
    assert_eq!(heap.strong_count(&a), 3);
    assert_eq!(*heap.get(&c), 5);
    assert!(heap.drop_cell(c).is_none());
    assert_eq!(heap.strong_count(&a), 2);
    assert!(heap.drop_cell(b).is_none());
    assert_eq!(heap.strong_count(&a), 1);
}

#[test]
fn value_destroyed_once_when_last_owner_goes() {
    let mut heap: SharedHeap<String> = SharedHeap::new();
    let a = heap.new_cell(String::from("shared"));
    let b = heap.clone_cell(&a);
    let c = heap.clone_cell(&b);
    let mut destroyed = 0;
    for h in [b, a, c] {
        if let Some(v) = heap.drop_cell(h) {
            assert_eq!(v, "shared");
            destroyed += 1;
        }
    }
    assert_eq!(destroyed, 1);
    assert!(heap.is_reclaimed(0));
}

#[test]
fn upgrade_while_alive_sees_value() {
    let mut heap: SharedHeap<i32> = SharedHeap::new();
    let a = heap.new_cell(7);
    let w = heap.downgrade(&a);
    assert_eq!(heap.weak_count(&a), 1);
    let up = heap.upgrade(&w).expect("owner still alive");
    assert_eq!(*heap.get(&up), 7);
    assert_eq!(heap.strong_count(&a), 2);
    heap.drop_cell(up);
    heap.drop_cell(a);
    heap.drop_weak(w);
    assert!(heap.is_reclaimed(0));
}

#[test]
fn upgrade_after_last_owner_is_absent() {
    let mut heap: SharedHeap<i32> = SharedHeap::new();
    let a = heap.new_cell(7);
    let w = heap.downgrade(&a);
    assert_eq!(heap.drop_cell(a), Some(7));
    assert!(!heap.is_reclaimed(0));
    assert!(heap.upgrade(&w).is_none());
    heap.drop_weak(w);
    assert!(heap.is_reclaimed(0));
}

#[test]
fn empty_weak_never_upgrades() {
    let mut heap: SharedHeap<i32> = SharedHeap::new();
    let w = WeakRef::new_empty();
    assert!(heap.upgrade(&w).is_none());
    heap.drop_weak(w);
    assert_eq!(heap.len(), 0);
}

struct Node {
    value: i32,
    parent: WeakRef,
    children: Vec<SharedCell>,
}

#[test]
fn deep_tree_reclaimed_exactly_once() {
    let mut heap: SharedHeap<Node> = SharedHeap::new();
    let root = heap.new_cell(Node { value: 0, parent: WeakRef::new_empty(), children: Vec::new() });
    let mut cur = heap.clone_cell(&root);
    for depth in 1..1000 {
        let parent = heap.downgrade(&cur);
        let child = heap.new_cell(Node { value: depth, parent, children: Vec::new() });
        let next = heap.clone_cell(&child);
        heap.get_mut(&cur).children.push(child);
        assert!(heap.drop_cell(cur).is_none());
        cur = next;
    }
    assert_eq!(heap.get(&cur).value, 999);
    assert!(heap.drop_cell(cur).is_none());
    assert_eq!(heap.len(), 1000);

    // Dropping the root releases the whole chain, each node once.
    let mut destroyed: Vec<i32> = Vec::new();
    let mut work = vec![root];
    while let Some(h) = work.pop() {
        if let Some(node) = heap.drop_cell(h) {
            destroyed.push(node.value);
            heap.drop_weak(node.parent);
            work.extend(node.children);
        }
    }
    assert_eq!(destroyed, (0..1000).collect::<Vec<i32>>());
    for id in 0..heap.len() {
        assert!(heap.is_reclaimed(id));
    }
}

#[test]
fn strong_cycle_is_never_reclaimed() {
    // Two cells that own each other keep their counts above zero for good.
    let mut heap: SharedHeap<(i32, Option<SharedCell>)> = SharedHeap::new();
    let a = heap.new_cell((5, None));
    let b = heap.new_cell((10, None));
    let a_in_b = heap.clone_cell(&a);
    heap.get_mut(&b).1 = Some(a_in_b);
    let b_in_a = heap.clone_cell(&b);
    heap.get_mut(&a).1 = Some(b_in_a);
    assert_eq!(heap.strong_count(&a), 2);
    assert_eq!(heap.strong_count(&b), 2);
    assert!(heap.drop_cell(a).is_none());
    assert!(heap.drop_cell(b).is_none());
    assert!(!heap.is_reclaimed(0));
    assert!(!heap.is_reclaimed(1));
}

type TreeNode = (i32, WeakRef, Vec<SharedCell>);

fn upgrade_parent(heap: &mut SharedHeap<TreeNode>, h: &SharedCell) -> Option<SharedCell> {
    let w = std::mem::replace(&mut heap.get_mut(h).1, WeakRef::new_empty());
    let parent = heap.upgrade(&w);
    let empty = std::mem::replace(&mut heap.get_mut(h).1, w);
    heap.drop_weak(empty);
    parent
}

#[test]
fn weak_parent_link_breaks_the_cycle() {
    let mut heap: SharedHeap<TreeNode> = SharedHeap::new();
    let leaf = heap.new_cell((3, WeakRef::new_empty(), Vec::new()));
    assert!(upgrade_parent(&mut heap, &leaf).is_none());
    let leaf_for_branch = heap.clone_cell(&leaf);
    let branch = heap.new_cell((5, WeakRef::new_empty(), vec![leaf_for_branch]));
    let up = heap.downgrade(&branch);
    let empty = std::mem::replace(&mut heap.get_mut(&leaf).1, up);
    heap.drop_weak(empty);
    let parent = upgrade_parent(&mut heap, &leaf).expect("branch alive");
    assert_eq!(heap.get(&parent).0, 5);
    assert!(heap.drop_cell(parent).is_none());
    assert_eq!(heap.strong_count(&branch), 1);
    assert_eq!(heap.weak_count(&branch), 1);
    assert_eq!(heap.strong_count(&leaf), 2);
    let (value, _, children) = heap.drop_cell(branch).expect("last owner of branch");
    assert_eq!(value, 5);
    for c in children {
        assert!(heap.drop_cell(c).is_none());
    }
    assert!(upgrade_parent(&mut heap, &leaf).is_none());
    let (_, w, _) = heap.drop_cell(leaf).expect("last owner of leaf");
    heap.drop_weak(w);
    assert!(heap.is_reclaimed(0));
    assert!(heap.is_reclaimed(1));
}
