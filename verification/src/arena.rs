//! Arena allocator for execution graph nodes.
//!
//! Each arena is a contiguous vector with bump allocation; a node is named by
//! an `(ArenaId, NodeIndex)` pair.  Arenas can be dropped one at a time, after
//! which every reference into them reads as absent.

use vstd::prelude::*;

verus! {

/// Identifies a specific arena within an `ArenaSet`.
#[derive(Copy, Clone, Debug, PartialEq, Eq, Hash, Structural)]
pub struct ArenaId(pub u32);

/// Index of a node within a specific arena.
#[derive(Copy, Clone, Debug, PartialEq, Eq, Hash, Structural)]
pub struct NodeIndex(pub u32);

/// A reference to a node: the arena it lives in and its index there.
#[derive(Copy, Clone, Debug, PartialEq, Eq, Hash, Structural)]
pub struct NodeRef {
    pub arena_id: ArenaId,
    pub index: NodeIndex,
}

impl NodeRef {
    pub fn new(arena_id: ArenaId, index: NodeIndex) -> (r: Self)
        ensures
            r.arena_id == arena_id,
            r.index == index,
    {
        NodeRef { arena_id, index }
    }
}

/// A set of arenas of `T`.
///
/// Arena ids are handed out in increasing order starting at 0; slot `i` of
/// `arenas` holds the arena with id `i`, or `None` once it was dropped.
pub struct ArenaSet<T> {
    arenas: Vec<Option<Vec<T>>>,
}

impl<T> ArenaSet<T> {
    /// Well-formedness: every arena id handed out fits in a `u32`.
    pub closed spec fn wf(&self) -> bool {
        self.arenas@.len() <= u32::MAX
    }

    /// The live arenas, by id, with their contents.
    pub closed spec fn arenas(&self) -> Map<u32, Seq<T>> {
        Map::new(
            |k: u32| k < self.arenas@.len() && self.arenas@[k as int] is Some,
            |k: u32| self.arenas@[k as int]->0@,
        )
    }

    /// The id the next call of `new_arena` hands out (also the number of
    /// arenas ever created).
    pub closed spec fn next_id(&self) -> nat {
        self.arenas@.len()
    }

    /// Every live arena has an id below `next_id`.
    pub proof fn lemma_live_below_next(&self, id: u32)
        ensures
            self.arenas().contains_key(id) ==> id < self.next_id(),
    {
    }

    /// A live arena holds no more nodes than all arenas together.
    pub proof fn lemma_arena_within_total(&self, id: u32)
        requires
            self.arenas().contains_key(id),
        ensures
            self.arenas()[id].len() <= self.total_nodes(),
    {
        lemma_slot_within_sum(self.arenas@, id as int, self.arenas@.len() as int);
    }

    /// The contents of node `r`, if its arena is live and holds that index.
    pub open spec fn node(&self, r: NodeRef) -> Option<T> {
        if self.arenas().contains_key(r.arena_id.0) && r.index.0 < self.arenas()[r.arena_id.0].len() {
            Some(self.arenas()[r.arena_id.0][r.index.0 as int])
        } else {
            None
        }
    }

    pub fn new() -> (s: Self)
        ensures
            s.wf(),
            s.arenas() == Map::<u32, Seq<T>>::empty(),
            s.next_id() == 0,
            s.total_nodes() == 0,
    {
        let s = ArenaSet { arenas: Vec::new() };
        assert(s.arenas() =~= Map::<u32, Seq<T>>::empty());
        s
    }

    /// Create a new empty arena, returning its id.
    pub fn new_arena(&mut self) -> (id: ArenaId)
        requires
            old(self).wf(),
            old(self).next_id() < u32::MAX,
        ensures
            final(self).wf(),
            id.0 == old(self).next_id(),
            !old(self).arenas().contains_key(id.0),
            final(self).next_id() == old(self).next_id() + 1,
            final(self).arenas() == old(self).arenas().insert(id.0, Seq::<T>::empty()),
            final(self).total_nodes() == old(self).total_nodes(),
            forall|r: NodeRef| #[trigger] final(self).node(r) == old(self).node(r),
    {
        let ghost pre = self.arenas();
        let id = self.arenas.len() as u32;
        let ghost slots = self.arenas@;
        self.arenas.push(Some(Vec::new()));
        assert(self.arenas() =~= pre.insert(id, Seq::<T>::empty()));
        proof {
            let last = self.arenas@[slots.len() as int];
            assert(self.arenas@ =~= slots.push(last));
            lemma_slot_sum_push(slots, last, slots.len() as int);
        }
        ArenaId(id)
    }

    /// Allocate a node in the given arena, returning its index there.
    pub fn alloc_node(&mut self, arena_id: ArenaId, item: T) -> (index: NodeIndex)
        requires
            old(self).wf(),
            old(self).arenas().contains_key(arena_id.0),
            old(self).arenas()[arena_id.0].len() < u32::MAX,
        ensures
            final(self).wf(),
            index.0 == old(self).arenas()[arena_id.0].len(),
            final(self).next_id() == old(self).next_id(),
            final(self).arenas() == old(self).arenas().insert(
                arena_id.0,
                old(self).arenas()[arena_id.0].push(item),
            ),
            final(self).total_nodes() == old(self).total_nodes() + 1,
            final(self).node((NodeRef { arena_id, index })) == Some(item),
            forall|r: NodeRef| r != (NodeRef { arena_id, index }) ==> #[trigger] final(self).node(r) == old(self).node(r),
    {
        let ghost pre = self.arenas();
        let ghost slots = self.arenas@;
        let a = arena_id.0 as usize;
        let slot = &mut self.arenas[a];
        let arena = slot.as_mut().unwrap();
        let index = NodeIndex(arena.len() as u32);
        arena.push(item);
        assert(self.arenas() =~= pre.insert(arena_id.0, pre[arena_id.0].push(item)));
        proof {
            assert(self.arenas@ =~= slots.update(a as int, self.arenas@[a as int]));
            lemma_slot_sum_update(slots, a as int, self.arenas@[a as int], slots.len() as int);
        }
        index
    }

    /// The node at `node_ref`, or `None` when its arena was dropped or the
    /// index is out of bounds.
    pub fn get(&self, node_ref: NodeRef) -> (r: Option<&T>)
        ensures
            r == (match self.node(node_ref) {
                Some(v) => Some(&v),
                None => None::<&T>,
            }),
    {
        let a = node_ref.arena_id.0 as usize;
        if a < self.arenas.len() {
            match &self.arenas[a] {
                Some(arena) => {
                    let i = node_ref.index.0 as usize;
                    if i < arena.len() {
                        Some(&arena[i])
                    } else {
                        None
                    }
                },
                None => None,
            }
        } else {
            None
        }
    }

    /// A mutable reference to the node at `node_ref`, or `None` when its
    /// arena was dropped or the index is out of bounds.
    pub fn get_mut(&mut self, node_ref: NodeRef) -> (r: Option<&mut T>)
        requires
            old(self).wf(),
        ensures
            final(self).wf(),
            final(self).next_id() == old(self).next_id(),
            r is Some <==> old(self).node(node_ref) is Some,
            r is None ==> final(self).arenas() == old(self).arenas(),
            r matches Some(x) ==> {
                &&& *x == old(self).node(node_ref)->0
                &&& final(self).arenas() == old(self).arenas().insert(
                    node_ref.arena_id.0,
                    old(self).arenas()[node_ref.arena_id.0].update(node_ref.index.0 as int, *final(x)),
                )
            },
    {
        let a = node_ref.arena_id.0 as usize;
        if a < self.arenas.len() {
            let slot = &mut self.arenas[a];
            match slot {
                Some(arena) => {
                    let i = node_ref.index.0 as usize;
                    if i < arena.len() {
                        Some(&mut arena[i])
                    } else {
                        None
                    }
                },
                None => None,
            }
        } else {
            None
        }
    }

    /// Drop an entire arena; every reference into it then reads as absent.
    pub fn drop_arena(&mut self, arena_id: ArenaId)
        requires
            old(self).wf(),
        ensures
            final(self).wf(),
            final(self).next_id() == old(self).next_id(),
            final(self).arenas() == old(self).arenas().remove(arena_id.0),
            final(self).total_nodes() == old(self).total_nodes() - (if old(self).arenas().contains_key(arena_id.0) {
                old(self).arenas()[arena_id.0].len() as int
            } else {
                0
            }),
            forall|r: NodeRef| #[trigger] final(self).node(r) == (if r.arena_id == arena_id {
                None
            } else {
                old(self).node(r)
            }),
    {
        let ghost pre = self.arenas();
        let a = arena_id.0 as usize;
        let ghost slots = self.arenas@;
        if a < self.arenas.len() {
            self.arenas.set(a, None);
            proof {
                lemma_slot_sum_update(slots, a as int, None, slots.len() as int);
            }
        }
        assert(self.arenas() =~= pre.remove(arena_id.0));
    }

    /// Number of live arenas.
    pub fn arena_count(&self) -> (n: usize)
        requires
            self.wf(),
        ensures
            n == self.arenas().dom().len(),
    {
        let mut n: usize = 0;
        let mut i: usize = 0;
        assert(self.live_below(0) =~= Set::empty());
        while i < self.arenas.len()
            invariant
                self.wf(),
                i <= self.arenas@.len(),
                n <= i,
                n == self.live_below(i as int).len(),
            decreases self.arenas@.len() - i,
        {
            proof {
                self.lemma_live_below_step(i as int);
            }
            if self.arenas[i].is_some() {
                n = n + 1;
            }
            i = i + 1;
        }
        proof {
            assert(self.live_below(i as int) =~= self.arenas().dom());
        }
        n
    }

    spec fn live_below(&self, i: int) -> Set<u32> {
        Set::new(|k: u32| k < i && k < self.arenas@.len() && self.arenas@[k as int] is Some)
    }

    proof fn lemma_live_below_step(&self, i: int)
        requires
            0 <= i < self.arenas@.len(),
            self.arenas@.len() <= u32::MAX,
        ensures
            self.live_below(i).finite(),
            self.live_below(i + 1) == (if self.arenas@[i] is Some {
                self.live_below(i).insert(i as u32)
            } else {
                self.live_below(i)
            }),
            self.live_below(i + 1).len() == self.live_below(i).len() + (if self.arenas@[i] is Some { 1int } else { 0 }),
        decreases i,
    {
        if i > 0 {
            self.lemma_live_below_step(i - 1);
        } else {
            assert(self.live_below(0) =~= Set::empty());
        }
        assert(self.live_below(i + 1) =~= (if self.arenas@[i] is Some {
            self.live_below(i).insert(i as u32)
        } else {
            self.live_below(i)
        }));
    }

    /// Total number of nodes across all live arenas.
    pub closed spec fn total_nodes(&self) -> nat {
        slot_sum(self.arenas@, self.arenas@.len() as int)
    }

    /// The total node count is the sum of the lengths of the live arenas.
    pub proof fn lemma_total_is_sum_of_live(&self)
        requires
            self.wf(),
        ensures
            self.total_nodes() == live_sum(self.arenas(), self.next_id() as int),
    {
        self.lemma_slot_sum_is_live_sum(self.arenas@.len() as int);
    }

    proof fn lemma_slot_sum_is_live_sum(&self, n: int)
        requires
            self.wf(),
            0 <= n <= self.arenas@.len(),
        ensures
            slot_sum(self.arenas@, n) == live_sum(self.arenas(), n),
        decreases n,
    {
        if n > 0 {
            self.lemma_slot_sum_is_live_sum(n - 1);
        }
    }

    /// Total number of nodes across all arenas.
    pub fn total_node_count(&self) -> (n: usize)
        requires
            self.total_nodes() <= usize::MAX,
        ensures
            n == self.total_nodes(),
    {
        let mut n: usize = 0;
        let mut i: usize = 0;
        while i < self.arenas.len()
            invariant
                i <= self.arenas@.len(),
                n == slot_sum(self.arenas@, i as int),
                slot_sum(self.arenas@, self.arenas@.len() as int) <= usize::MAX,
            decreases self.arenas@.len() - i,
        {
            proof {
                lemma_slot_sum_monotone(self.arenas@, i + 1, self.arenas@.len() as int);
            }
            match &self.arenas[i] {
                Some(arena) => {
                    n = n + arena.len();
                },
                None => {},
            }
            i = i + 1;
        }
        n
    }

    /// Number of nodes in an arena, or `None` if it does not exist.
    pub fn node_count(&self, arena_id: ArenaId) -> (n: Option<usize>)
        ensures
            n == (if self.arenas().contains_key(arena_id.0) {
                Some(self.arenas()[arena_id.0].len() as usize)
            } else {
                None
            }),
    {
        let a = arena_id.0 as usize;
        if a < self.arenas.len() {
            match &self.arenas[a] {
                Some(arena) => Some(arena.len()),
                None => None,
            }
        } else {
            None
        }
    }
}

/// Number of nodes held by the first `n` slots.
/// The sum of the lengths of the live arenas among the ids below `n`.
pub open spec fn live_sum<T>(arenas: Map<u32, Seq<T>>, n: int) -> nat
    decreases n,
{
    if n <= 0 {
        0
    } else {
        live_sum(arenas, n - 1) + (if arenas.contains_key((n - 1) as u32) { arenas[(n - 1) as u32].len() } else { 0 })
    }
}

spec fn slot_sum<T>(slots: Seq<Option<Vec<T>>>, n: int) -> nat
    decreases n,
{
    if n <= 0 {
        0
    } else {
        slot_sum(slots, n - 1) + slot_len(slots[n - 1])
    }
}

spec fn slot_len<T>(slot: Option<Vec<T>>) -> nat {
    match slot {
        Some(v) => v@.len(),
        None => 0,
    }
}

proof fn lemma_slot_within_sum<T>(slots: Seq<Option<Vec<T>>>, k: int, n: int)
    requires
        0 <= k < n,
    ensures
        slot_len(slots[k]) <= slot_sum(slots, n),
    decreases n,
{
    if k < n - 1 {
        lemma_slot_within_sum(slots, k, n - 1);
    }
}

proof fn lemma_slot_sum_monotone<T>(slots: Seq<Option<Vec<T>>>, i: int, j: int)
    requires
        i <= j,
    ensures
        slot_sum(slots, i) <= slot_sum(slots, j),
    decreases j - i,
{
    if i < j {
        lemma_slot_sum_monotone(slots, i, j - 1);
    }
}

proof fn lemma_slot_sum_update<T>(slots: Seq<Option<Vec<T>>>, k: int, x: Option<Vec<T>>, n: int)
    requires
        0 <= k < slots.len(),
        n <= slots.len(),
    ensures
        k < n ==> slot_sum(slots.update(k, x), n) + slot_len(slots[k]) == slot_sum(slots, n) + slot_len(x),
        k >= n ==> slot_sum(slots.update(k, x), n) == slot_sum(slots, n),
    decreases n,
{
    if n > 0 {
        lemma_slot_sum_update(slots, k, x, n - 1);
    }
}

proof fn lemma_slot_sum_push<T>(slots: Seq<Option<Vec<T>>>, x: Option<Vec<T>>, n: int)
    requires
        n <= slots.len(),
    ensures
        slot_sum(slots.push(x), n) == slot_sum(slots, n),
    decreases n,
{
    if n > 0 {
        lemma_slot_sum_push(slots, x, n - 1);
    }
}

} // verus!
