use graphoid::arena::{ArenaId, ArenaSet, NodeIndex, NodeRef};

#[test]
fn new_arenas_get_increasing_ids() {
    let mut set: ArenaSet<u32> = ArenaSet::new();
    let a = set.new_arena();
    let b = set.new_arena();
    assert_eq!(a, ArenaId(0));
    assert_eq!(b, ArenaId(1));
    assert_eq!(set.arena_count(), 2);
}

#[test]
fn alloc_then_get_reads_back() {
    let mut set: ArenaSet<&str> = ArenaSet::new();
    let a = set.new_arena();
    let i0 = set.alloc_node(a, "first");
    let i1 = set.alloc_node(a, "second");
    assert_eq!(i0, NodeIndex(0));
    assert_eq!(i1, NodeIndex(1));
    assert_eq!(set.get(NodeRef::new(a, i0)), Some(&"first"));
    assert_eq!(set.get(NodeRef::new(a, i1)), Some(&"second"));
    assert_eq!(set.get(NodeRef::new(a, NodeIndex(2))), None);
    assert_eq!(set.node_count(a), Some(2));
}

#[test]
fn get_mut_changes_only_that_node() {
    let mut set: ArenaSet<u32> = ArenaSet::new();
    let a = set.new_arena();
    let i0 = set.alloc_node(a, 10);
    let i1 = set.alloc_node(a, 20);
    if let Some(v) = set.get_mut(NodeRef::new(a, i0)) {
        *v = 11;
    }
    assert_eq!(set.get(NodeRef::new(a, i0)), Some(&11));
    assert_eq!(set.get(NodeRef::new(a, i1)), Some(&20));
}

#[test]
fn dropped_arena_reads_as_absent() {
    let mut set: ArenaSet<u32> = ArenaSet::new();
    let a = set.new_arena();
    let b = set.new_arena();
    let ia = set.alloc_node(a, 1);
    let ib = set.alloc_node(b, 2);
    set.alloc_node(b, 3);
    assert_eq!(set.total_node_count(), 3);
    set.drop_arena(b);
    assert_eq!(set.get(NodeRef::new(b, ib)), None);
    assert_eq!(set.get(NodeRef::new(a, ia)), Some(&1));
    assert_eq!(set.node_count(b), None);
    assert_eq!(set.arena_count(), 1);
    assert_eq!(set.total_node_count(), 1);
    // ids are not reused after a drop
    assert_eq!(set.new_arena(), ArenaId(2));
}

#[test]
fn unknown_arena_has_no_count() {
    let set: ArenaSet<u8> = ArenaSet::new();
    assert_eq!(set.node_count(ArenaId(7)), None);
    assert_eq!(set.get(NodeRef::new(ArenaId(7), NodeIndex(0))), None);
    assert_eq!(set.total_node_count(), 0);
}
