//! The execution graph: AST nodes held in arenas, joined by typed edges.

use vstd::prelude::*;
use std::collections::HashMap;
use crate::arena::{ArenaId, ArenaSet, NodeIndex, NodeRef};
use crate::node::{AstGraphNode, ExecEdgeType};
use crate::text::str_eq;

verus! {

broadcast use vstd::std_specs::hash::group_hash_axioms;

/// The key under which the edges leaving `r` are kept: the arena id in the
/// high half, the index in the low half.
pub open spec fn node_key(r: NodeRef) -> u64 {
    ((r.arena_id.0 as u64) << 32u64) | (r.index.0 as u64)
}

/// Two node references with the same key are the same reference.
pub proof fn lemma_node_key_injective(a: NodeRef, b: NodeRef)
    ensures
        node_key(a) == node_key(b) ==> a == b,
{
    let (a1, i1, a2, i2) = (a.arena_id.0, a.index.0, b.arena_id.0, b.index.0);
    assert((((a1 as u64) << 32u64) | (i1 as u64)) == (((a2 as u64) << 32u64) | (i2 as u64)) ==> a1 == a2 && i1 == i2)
        by (bit_vector);
}

/// Two edge kinds are the same kind with the same payload.
pub open spec fn same_edge(a: ExecEdgeType, b: ExecEdgeType) -> bool {
    match (a, b) {
        (ExecEdgeType::Setting(x), ExecEdgeType::Setting(y)) => x@ == y@,
        (ExecEdgeType::Setting(_), _) => false,
        (_, ExecEdgeType::Setting(_)) => false,
        _ => a == b,
    }
}

/// Whether two edge kinds are the same kind with the same payload.
pub fn edge_kinds_equal(a: &ExecEdgeType, b: &ExecEdgeType) -> (r: bool)
    ensures
        r == same_edge(*a, *b),
{
    match (a, b) {
        (ExecEdgeType::Setting(x), ExecEdgeType::Setting(y)) => str_eq(x.as_str(), y.as_str()),
        (ExecEdgeType::Setting(_), _) => false,
        (_, ExecEdgeType::Setting(_)) => false,
        (ExecEdgeType::Argument(x), ExecEdgeType::Argument(y)) => *x == *y,
        (ExecEdgeType::Element(x), ExecEdgeType::Element(y)) => *x == *y,
        (ExecEdgeType::Parameter(x), ExecEdgeType::Parameter(y)) => *x == *y,
        (ExecEdgeType::CatchHandler(x), ExecEdgeType::CatchHandler(y)) => *x == *y,
        (ExecEdgeType::MatchArm(x), ExecEdgeType::MatchArm(y)) => *x == *y,
        (ExecEdgeType::Property(x), ExecEdgeType::Property(y)) => *x == *y,
        (ExecEdgeType::Rule(x), ExecEdgeType::Rule(y)) => *x == *y,
        (ExecEdgeType::GraphMethod(x), ExecEdgeType::GraphMethod(y)) => *x == *y,
        (ExecEdgeType::Override(x), ExecEdgeType::Override(y)) => *x == *y,
        (ExecEdgeType::PatternClause(x), ExecEdgeType::PatternClause(y)) => *x == *y,
        (ExecEdgeType::Left, ExecEdgeType::Left) => true,
        (ExecEdgeType::Right, ExecEdgeType::Right) => true,
        (ExecEdgeType::Operand, ExecEdgeType::Operand) => true,
        (ExecEdgeType::Callee, ExecEdgeType::Callee) => true,
        (ExecEdgeType::Condition, ExecEdgeType::Condition) => true,
        (ExecEdgeType::ThenBranch, ExecEdgeType::ThenBranch) => true,
        (ExecEdgeType::ElseBranch, ExecEdgeType::ElseBranch) => true,
        (ExecEdgeType::Body, ExecEdgeType::Body) => true,
        (ExecEdgeType::Target, ExecEdgeType::Target) => true,
        (ExecEdgeType::ValueEdge, ExecEdgeType::ValueEdge) => true,
        (ExecEdgeType::Object, ExecEdgeType::Object) => true,
        (ExecEdgeType::FinallyBlock, ExecEdgeType::FinallyBlock) => true,
        (ExecEdgeType::Parent, ExecEdgeType::Parent) => true,
        (ExecEdgeType::MatchValue, ExecEdgeType::MatchValue) => true,
        (ExecEdgeType::ArmBody, ExecEdgeType::ArmBody) => true,
        (ExecEdgeType::ArmPattern, ExecEdgeType::ArmPattern) => true,
        (ExecEdgeType::Iterable, ExecEdgeType::Iterable) => true,
        (ExecEdgeType::Guard, ExecEdgeType::Guard) => true,
        (ExecEdgeType::DefaultValue, ExecEdgeType::DefaultValue) => true,
        _ => false,
    }
}


/// The (index, target) pairs of the indexed edges in `edges` whose kind has
/// prefix `prefix`, in edge order.
pub open spec fn indexed_targets(edges: Seq<(ExecEdgeType, NodeRef)>, prefix: Seq<char>) -> Seq<(u32, NodeRef)>
    decreases edges.len(),
{
    if edges.len() == 0 {
        Seq::empty()
    } else {
        let rest = indexed_targets(edges.drop_last(), prefix);
        let e = edges.last();
        if e.0.prefix_spec() == prefix && e.0.index_spec() is Some {
            rest.push((e.0.index_spec()->0, e.1))
        } else {
            rest
        }
    }
}

/// Every edge of `edges` with kind name `prefix` and an ordering key shows
/// up among the indexed targets with that key.
pub proof fn lemma_indexed_targets_complete(edges: Seq<(ExecEdgeType, NodeRef)>, prefix: Seq<char>, k: int)
    requires
        0 <= k < edges.len(),
        edges[k].0.prefix_spec() == prefix,
        edges[k].0.index_spec() is Some,
    ensures
        indexed_targets(edges, prefix).contains((edges[k].0.index_spec()->0, edges[k].1)),
    decreases edges.len(),
{
    let rest = indexed_targets(edges.drop_last(), prefix);
    if k == edges.len() - 1 {
        assert(indexed_targets(edges, prefix) == rest.push((edges[k].0.index_spec()->0, edges[k].1)));
        assert(indexed_targets(edges, prefix)[rest.len() as int] == (edges[k].0.index_spec()->0, edges[k].1));
    } else {
        assert(edges.drop_last()[k] == edges[k]);
        lemma_indexed_targets_complete(edges.drop_last(), prefix, k);
        let idx = choose|idx: int| 0 <= idx < rest.len() && rest[idx] == (edges[k].0.index_spec()->0, edges[k].1);
        assert(indexed_targets(edges, prefix)[idx] == rest[idx]);
    }
}

/// The pairs are in ascending order of index.
pub open spec fn sorted_by_index(s: Seq<(u32, NodeRef)>) -> bool {
    forall|i: int, j: int| 0 <= i < j < s.len() ==> s[i].0 <= s[j].0
}

/// The pairs of `s` with index `k`, in their order in `s`.
pub open spec fn with_index(s: Seq<(u32, NodeRef)>, k: u32) -> Seq<(u32, NodeRef)> {
    s.filter(|p: (u32, NodeRef)| p.0 == k)
}

/// `t` holds the pairs of `s` in ascending order of index, pairs with equal
/// indices in their order in `s` (a stable sort of `s`).
pub open spec fn stably_sorted(s: Seq<(u32, NodeRef)>, t: Seq<(u32, NodeRef)>) -> bool {
    &&& sorted_by_index(t)
    &&& forall|k: u32| #[trigger] with_index(t, k) == with_index(s, k)
}

/// The edges of `edges` whose target is outside arena `a`, in order.
pub open spec fn edges_outside(edges: Seq<(ExecEdgeType, NodeRef)>, a: u32) -> Seq<(ExecEdgeType, NodeRef)>
    decreases edges.len(),
{
    if edges.len() == 0 {
        Seq::empty()
    } else {
        let rest = edges_outside(edges.drop_last(), a);
        if edges.last().1.arena_id.0 != a {
            rest.push(edges.last())
        } else {
            rest
        }
    }
}

/// The execution graph: an AST held as arena-allocated nodes with typed
/// edges, and an optional root.
pub struct ExecutionGraph {
    nodes: ArenaSet<AstGraphNode>,
    edges: HashMap<u64, Vec<(ExecEdgeType, NodeRef)>>,
    /// The nodes that have outgoing edges, each once, in order of their
    /// first edge.
    sources: Vec<NodeRef>,
    root: Option<NodeRef>,
}

impl ExecutionGraph {
    /// The arenas with their nodes.
    pub closed spec fn arenas(&self) -> Map<u32, Seq<AstGraphNode>> {
        self.nodes.arenas()
    }

    /// The node at `r`, if any.
    pub closed spec fn node(&self, r: NodeRef) -> Option<AstGraphNode> {
        self.nodes.node(r)
    }

    /// The id the next new arena gets.
    pub closed spec fn next_arena_id(&self) -> nat {
        self.nodes.next_id()
    }

    /// How many nodes the live arenas hold.
    pub closed spec fn total_nodes(&self) -> nat {
        self.nodes.total_nodes()
    }

    /// The edges leaving `r`, in the order they were added.
    pub closed spec fn edges_from(&self, r: NodeRef) -> Seq<(ExecEdgeType, NodeRef)> {
        if self.edges@.contains_key(node_key(r)) {
            self.edges@[node_key(r)]@
        } else {
            Seq::empty()
        }
    }

    /// The nodes that have outgoing edges.
    pub closed spec fn sources(&self) -> Seq<NodeRef> {
        self.sources@
    }

    /// The root, if one was set.
    pub closed spec fn root_spec(&self) -> Option<NodeRef> {
        self.root
    }

    /// Internal consistency of the edge index.
    pub closed spec fn wf(&self) -> bool {
        &&& self.nodes.wf()
        &&& forall|i: int, j: int| 0 <= i < j < self.sources@.len() ==> self.sources@[i] != self.sources@[j]
        &&& forall|i: int| 0 <= i < self.sources@.len() ==> self.edges@.contains_key(#[trigger] node_key(self.sources@[i]))
        &&& forall|k: u64| #[trigger] self.edges@.contains_key(k) ==> exists|i: int| 0 <= i < self.sources@.len() && node_key(self.sources@[i]) == k
        &&& forall|k: u64| #[trigger] self.edges@.contains_key(k) ==> self.edges@[k]@.len() > 0
    }

    /// A node's index lies below its arena's length.
    pub proof fn lemma_node_index_in_arena(&self, r: NodeRef)
        ensures
            self.node(r) is Some ==> self.arenas().contains_key(r.arena_id.0)
                && r.index.0 < self.arenas()[r.arena_id.0].len(),
    {
    }

    /// A node lies in a live arena, whose id is below the next new arena's.
    pub proof fn lemma_node_in_live_arena(&self, r: NodeRef)
        ensures
            self.node(r) is Some ==> self.arenas().contains_key(r.arena_id.0) && r.arena_id.0 < self.next_arena_id(),
    {
        self.nodes.lemma_live_below_next(r.arena_id.0);
    }

    /// A live arena holds no more nodes than the whole graph.
    pub proof fn lemma_arena_within_total(&self, id: u32)
        requires
            self.wf(),
            self.arenas().contains_key(id),
        ensures
            self.arenas()[id].len() <= self.total_nodes(),
    {
        self.nodes.lemma_arena_within_total(id);
    }

    pub fn new() -> (g: Self)
        ensures
            g.wf(),
            g.arenas() == Map::<u32, Seq<AstGraphNode>>::empty(),
            g.next_arena_id() == 0,
            g.total_nodes() == 0,
            g.root_spec() is None,
            g.sources() == Seq::<NodeRef>::empty(),
            forall|r: NodeRef| #[trigger] g.edges_from(r) == Seq::<(ExecEdgeType, NodeRef)>::empty(),
    {
        let g = ExecutionGraph { nodes: ArenaSet::new(), edges: HashMap::new(), sources: Vec::new(), root: None };
        assert(g.edges@ == Map::<u64, Vec<(ExecEdgeType, NodeRef)>>::empty());
        g
    }

    /// Create a new arena (for a module, a function body, ...).
    pub fn new_arena(&mut self) -> (id: ArenaId)
        requires
            old(self).wf(),
            old(self).next_arena_id() < u32::MAX,
        ensures
            final(self).wf(),
            id.0 == old(self).next_arena_id(),
            final(self).next_arena_id() == old(self).next_arena_id() + 1,
            final(self).arenas() == old(self).arenas().insert(id.0, Seq::<AstGraphNode>::empty()),
            final(self).total_nodes() == old(self).total_nodes(),
            forall|r: NodeRef| #[trigger] final(self).node(r) == old(self).node(r),
            forall|r: NodeRef| #[trigger] final(self).edges_from(r) == old(self).edges_from(r),
            final(self).sources() == old(self).sources(),
            final(self).root_spec() == old(self).root_spec(),
    {
        let id = self.nodes.new_arena();
        assert(self.edges@ == old(self).edges@);
        assert(self.sources@ == old(self).sources@);
        assert(self.wf());
        id
    }

    /// Add a node to an arena, returning its reference.
    pub fn add_node(&mut self, arena_id: ArenaId, node: AstGraphNode) -> (r: NodeRef)
        requires
            old(self).wf(),
            old(self).arenas().contains_key(arena_id.0),
            old(self).arenas()[arena_id.0].len() < u32::MAX,
        ensures
            final(self).wf(),
            r == (NodeRef { arena_id, index: NodeIndex(old(self).arenas()[arena_id.0].len() as u32) }),
            old(self).node(r) is None,
            final(self).node(r) == Some(node),
            forall|q: NodeRef| q != r ==> #[trigger] final(self).node(q) == old(self).node(q),
            final(self).arenas() == old(self).arenas().insert(arena_id.0, old(self).arenas()[arena_id.0].push(node)),
            final(self).next_arena_id() == old(self).next_arena_id(),
            final(self).total_nodes() == old(self).total_nodes() + 1,
            forall|q: NodeRef| #[trigger] final(self).edges_from(q) == old(self).edges_from(q),
            final(self).sources() == old(self).sources(),
            final(self).root_spec() == old(self).root_spec(),
    {
        let index = self.nodes.alloc_node(arena_id, node);
        assert(self.edges@ == old(self).edges@);
        assert(self.sources@ == old(self).sources@);
        assert(self.wf());
        NodeRef::new(arena_id, index)
    }

    /// The node at `node_ref`, if any.
    pub fn get_node(&self, node_ref: NodeRef) -> (r: Option<&AstGraphNode>)
        ensures
            r == (match self.node(node_ref) {
                Some(v) => Some(&v),
                None => None::<&AstGraphNode>,
            }),
    {
        self.nodes.get(node_ref)
    }

    /// A mutable reference to a node, or `None` when its arena was dropped
    /// or the index is out of bounds.  Writing through it changes that node
    /// only; edges, arenas and the root stay.
    pub fn get_node_mut(&mut self, node_ref: NodeRef) -> (r: Option<&mut AstGraphNode>)
        requires
            old(self).wf(),
        ensures
            final(self).wf(),
            final(self).next_arena_id() == old(self).next_arena_id(),
            r is Some <==> old(self).node(node_ref) is Some,
            r is None ==> final(self).arenas() == old(self).arenas(),
            r matches Some(x) ==> {
                &&& *x == old(self).node(node_ref)->0
                &&& final(self).arenas() == old(self).arenas().insert(
                    node_ref.arena_id.0,
                    old(self).arenas()[node_ref.arena_id.0].update(node_ref.index.0 as int, *final(x)),
                )
            },
            forall|q: NodeRef| #[trigger] final(self).edges_from(q) == old(self).edges_from(q),
            final(self).root_spec() == old(self).root_spec(),
    {
        let ghost g0 = *self;
        let r = self.nodes.get_mut(node_ref);
        proof {
            assert(self.edges@ == g0.edges@);
            assert(self.sources@ == g0.sources@);
        }
        r
    }

    /// Add a directed edge from one node to another.
    pub fn add_edge(&mut self, from: NodeRef, edge_type: ExecEdgeType, to: NodeRef)
        requires
            old(self).wf(),
        ensures
            final(self).wf(),
            final(self).edges_from(from) == old(self).edges_from(from).push((edge_type, to)),
            forall|q: NodeRef| q != from ==> #[trigger] final(self).edges_from(q) == old(self).edges_from(q),
            forall|q: NodeRef| #[trigger] final(self).node(q) == old(self).node(q),
            final(self).arenas() == old(self).arenas(),
            final(self).next_arena_id() == old(self).next_arena_id(),
            final(self).total_nodes() == old(self).total_nodes(),
            final(self).root_spec() == old(self).root_spec(),
            old(self).edges_from(from).len() == 0 ==> final(self).sources() == old(self).sources().push(from),
            old(self).edges_from(from).len() > 0 ==> final(self).sources() == old(self).sources(),
    {
        let key = ((from.arena_id.0 as u64) << 32u64) | (from.index.0 as u64);
        proof {
            assert forall|q: NodeRef| node_key(q) == key implies q == from by {
                lemma_node_key_injective(q, from);
            }
        }
        let ghost old_edges = self.edges@;
        let ghost old_sources = self.sources@;
        let list = self.edges.remove(&key);
        match list {
            Some(mut v) => {
                v.push((edge_type, to));
                self.edges.insert(key, v);
                proof {
                    assert(self.edges@ == old_edges.insert(key, self.edges@[key]));
                    assert forall|k: u64| #[trigger] self.edges@.contains_key(k) implies exists|i: int|
                        0 <= i < self.sources@.len() && node_key(self.sources@[i]) == k by {
                        assert(old_edges.contains_key(k));
                        let i = choose|i: int| 0 <= i < old_sources.len() && node_key(old_sources[i]) == k;
                        assert(node_key(self.sources@[i]) == k);
                    }
                }
            },
            None => {
                let mut v: Vec<(ExecEdgeType, NodeRef)> = Vec::new();
                v.push((edge_type, to));
                self.edges.insert(key, v);
                self.sources.push(from);
                proof {
                    assert forall|i: int| 0 <= i < old_sources.len() implies old_sources[i] != from by {
                        assert(old_edges.contains_key(node_key(old_sources[i])));
                    }
                    assert(self.sources@[old_sources.len() as int] == from);
                    assert forall|k: u64| #[trigger] self.edges@.contains_key(k) implies exists|i: int|
                        0 <= i < self.sources@.len() && node_key(self.sources@[i]) == k by {
                        if k == key {
                            assert(node_key(self.sources@[old_sources.len() as int]) == k);
                        } else {
                            assert(old_edges.contains_key(k));
                            let i = choose|i: int| 0 <= i < old_sources.len() && node_key(old_sources[i]) == k;
                            assert(self.sources@[i] == old_sources[i]);
                        }
                    }
                    assert forall|i: int| 0 <= i < self.sources@.len() implies self.edges@.contains_key(#[trigger] node_key(self.sources@[i])) by {
                        if i < old_sources.len() {
                            assert(self.sources@[i] == old_sources[i]);
                        }
                    }
                }
            },
        }
    }

    /// The target of the first edge of kind `edge_type` leaving `from`.
    pub fn get_edge_target(&self, from: NodeRef, edge_type: &ExecEdgeType) -> (r: Option<NodeRef>)
        ensures
            r is None <==> forall|i: int| 0 <= i < self.edges_from(from).len() ==> !same_edge(#[trigger] self.edges_from(from)[i].0, *edge_type),
            r matches Some(t) ==> exists|i: int| 0 <= i < self.edges_from(from).len() && {
                &&& same_edge(self.edges_from(from)[i].0, *edge_type)
                &&& self.edges_from(from)[i].1 == t
                &&& forall|j: int| 0 <= j < i ==> !same_edge(#[trigger] self.edges_from(from)[j].0, *edge_type)
            },
    {
        let key = ((from.arena_id.0 as u64) << 32u64) | (from.index.0 as u64);
        match self.edges.get(&key) {
            Some(list) => {
                let mut i: usize = 0;
                while i < list.len()
                    invariant
                        list@ == self.edges_from(from),
                        i <= list@.len(),
                        forall|j: int| 0 <= j < i ==> !same_edge(#[trigger] list@[j].0, *edge_type),
                    decreases list@.len() - i,
                {
                    if edge_kinds_equal(&list[i].0, edge_type) {
                        return Some(list[i].1);
                    }
                    i = i + 1;
                }
                None
            },
            None => None,
        }
    }

    /// All edges leaving `from`, in the order they were added.
    pub fn get_edges(&self, from: NodeRef) -> (r: &[(ExecEdgeType, NodeRef)])
        ensures
            r@ == self.edges_from(from),
    {
        let key = ((from.arena_id.0 as u64) << 32u64) | (from.index.0 as u64);
        match self.edges.get(&key) {
            Some(list) => list.as_slice(),
            None => &[],
        }
    }

    /// The targets of the indexed edges with kind prefix `prefix` leaving
    /// `from` (`Argument`, `Element`, ...), ordered by index.
    pub fn get_ordered_edges(&self, from: NodeRef, prefix: &str) -> (r: Vec<NodeRef>)
        ensures
            exists|s: Seq<(u32, NodeRef)>| {
                &&& s.to_multiset() == indexed_targets(self.edges_from(from), prefix@).to_multiset()
                &&& stably_sorted(indexed_targets(self.edges_from(from), prefix@), s)
                &&& r@ == s.map_values(|p: (u32, NodeRef)| p.1)
            },
            r@.len() == indexed_targets(self.edges_from(from), prefix@).len(),
            forall|k: int| 0 <= k < self.edges_from(from).len() && #[trigger] self.edges_from(from)[k].0.prefix_spec() == prefix@
                && self.edges_from(from)[k].0.index_spec() is Some ==> r@.contains(self.edges_from(from)[k].1),
    {
        let edges = self.get_edges(from);
        let mut pairs: Vec<(u32, NodeRef)> = Vec::new();
        let mut i: usize = 0;
        while i < edges.len()
            invariant
                edges@ == self.edges_from(from),
                i <= edges@.len(),
                pairs@ == indexed_targets(edges@.take(i as int), prefix@),
            decreases edges@.len() - i,
        {
            proof {
                assert(edges@.take(i + 1).drop_last() =~= edges@.take(i as int));
            }
            let et = &edges[i].0;
            if et.prefix().len() == prefix.len() && str_eq(et.prefix(), prefix) {
                match et.index() {
                    Some(k) => pairs.push((k, edges[i].1)),
                    None => {},
                }
            }
            i = i + 1;
        }
        assert(edges@.take(edges@.len() as int) =~= edges@);
        let sorted = sort_pairs_by_index(pairs);
        let mut r: Vec<NodeRef> = Vec::new();
        let mut j: usize = 0;
        while j < sorted.len()
            invariant
                j <= sorted@.len(),
                r@ == sorted@.take(j as int).map_values(|p: (u32, NodeRef)| p.1),
            decreases sorted@.len() - j,
        {
            r.push(sorted[j].1);
            proof {
                assert(sorted@.take(j + 1).map_values(|p: (u32, NodeRef)| p.1) =~= sorted@.take(j as int).map_values(|p: (u32, NodeRef)| p.1).push(sorted@[j as int].1));
            }
            j = j + 1;
        }
        assert(sorted@.take(sorted@.len() as int) =~= sorted@);
        proof {
            broadcast use vstd::seq_lib::group_to_multiset_ensures;
            let es = self.edges_from(from);
            assert(r@.len() == sorted@.len());
            assert(sorted@.to_multiset().len() == pairs@.to_multiset().len());
            assert forall|k: int| 0 <= k < es.len() && #[trigger] es[k].0.prefix_spec() == prefix@
                && es[k].0.index_spec() is Some implies r@.contains(es[k].1) by {
                let pair = (es[k].0.index_spec()->0, es[k].1);
                lemma_indexed_targets_complete(es, prefix@, k);
                assert(pairs@.to_multiset().count(pair) > 0);
                assert(sorted@.contains(pair));
                let idx = choose|idx: int| 0 <= idx < sorted@.len() && sorted@[idx] == pair;
                assert(r@[idx] == es[k].1);
            }
        }
        r
    }

    /// Set the root node.
    pub fn set_root(&mut self, node_ref: NodeRef)
        requires
            old(self).wf(),
        ensures
            final(self).wf(),
            final(self).root_spec() == Some(node_ref),
            forall|q: NodeRef| #[trigger] final(self).node(q) == old(self).node(q),
            forall|q: NodeRef| #[trigger] final(self).edges_from(q) == old(self).edges_from(q),
            final(self).arenas() == old(self).arenas(),
            final(self).next_arena_id() == old(self).next_arena_id(),
            final(self).total_nodes() == old(self).total_nodes(),
    {
        self.root = Some(node_ref);
        assert(self.edges@ == old(self).edges@);
        assert(self.sources@ == old(self).sources@);
    }

    /// The root node, if one was set.
    pub fn root(&self) -> (r: Option<NodeRef>)
        ensures
            r == self.root_spec(),
    {
        self.root
    }

    /// Total number of nodes across all arenas.
    pub fn node_count(&self) -> (n: usize)
        requires
            self.total_nodes() <= usize::MAX,
        ensures
            n == self.total_nodes(),
    {
        self.nodes.total_node_count()
    }

    /// Drop an arena: its nodes disappear, and so do the edges from or to
    /// them.
    pub fn drop_arena(&mut self, arena_id: ArenaId)
        requires
            old(self).wf(),
        ensures
            final(self).wf(),
            forall|r: NodeRef| #[trigger] final(self).node(r) == (if r.arena_id == arena_id { None } else { old(self).node(r) }),
            final(self).arenas() == old(self).arenas().remove(arena_id.0),
            final(self).next_arena_id() == old(self).next_arena_id(),
            forall|q: NodeRef| #[trigger] final(self).edges_from(q) == (if q.arena_id == arena_id {
                Seq::empty()
            } else {
                edges_outside(old(self).edges_from(q), arena_id.0)
            }),
            final(self).root_spec() == old(self).root_spec(),
    {
        self.nodes.drop_arena(arena_id);
        let ghost old_edges = self.edges@;
        let ghost old_sources = self.sources@;
        let n = self.sources.len();
        let mut kept_edges: HashMap<u64, Vec<(ExecEdgeType, NodeRef)>> = HashMap::new();
        let mut kept_sources: Vec<NodeRef> = Vec::new();
        let mut i: usize = 0;
        while i < n
            invariant
                n == old_sources.len(),
                self.sources@ == old_sources,
                self.edges@ == old_edges,
                i <= n,
                forall|a: int, b: int| 0 <= a < b < old_sources.len() ==> old_sources[a] != old_sources[b],
                forall|a: int| 0 <= a < old_sources.len() ==> old_edges.contains_key(#[trigger] node_key(old_sources[a])),
                forall|k: u64| #[trigger] old_edges.contains_key(k) ==> old_edges[k]@.len() > 0,
                forall|a: int, b: int| 0 <= a < b < kept_sources@.len() ==> kept_sources@[a] != kept_sources@[b],
                forall|a: int| 0 <= a < kept_sources@.len() ==> kept_edges@.contains_key(#[trigger] node_key(kept_sources@[a])),
                forall|k: u64| #[trigger] kept_edges@.contains_key(k) ==> kept_edges@[k]@.len() > 0,
                forall|k: u64| #[trigger] kept_edges@.contains_key(k) ==> exists|a: int| 0 <= a < kept_sources@.len() && node_key(kept_sources@[a]) == k,
                forall|a: int| 0 <= a < kept_sources@.len() ==> exists|b: int| 0 <= b < i && old_sources[b] == #[trigger] kept_sources@[a],
                forall|b: int| 0 <= b < i ==> {
                    let q = #[trigger] old_sources[b];
                    let rest = edges_outside(old_edges[node_key(q)]@, arena_id.0);
                    if q.arena_id != arena_id && rest.len() > 0 {
                        kept_edges@.contains_key(node_key(q)) && kept_edges@[node_key(q)]@ == rest
                    } else {
                        !kept_edges@.contains_key(node_key(q))
                    }
                },
                forall|k: u64| #[trigger] kept_edges@.contains_key(k) ==> exists|b: int| 0 <= b < i && node_key(old_sources[b]) == k,
            decreases n - i,
        {
            let s = self.sources[i];
            let key = ((s.arena_id.0 as u64) << 32u64) | (s.index.0 as u64);
            if s.arena_id.0 != arena_id.0 {
                match self.edges.get(&key) {
                    Some(list) => {
                        let mut rest: Vec<(ExecEdgeType, NodeRef)> = Vec::new();
                        let mut j: usize = 0;
                        while j < list.len()
                            invariant
                                j <= list@.len(),
                                rest@ == edges_outside(list@.take(j as int), arena_id.0),
                            decreases list@.len() - j,
                        {
                            proof {
                                assert(list@.take(j + 1).drop_last() =~= list@.take(j as int));
                            }
                            if list[j].1.arena_id.0 != arena_id.0 {
                                rest.push((list[j].0.duplicate(), list[j].1));
                            }
                            j = j + 1;
                        }
                        proof {
                            assert(list@.take(list@.len() as int) =~= list@);
                        }
                        if rest.len() > 0 {
                            proof {
                                assert forall|a: int| 0 <= a < kept_sources@.len() implies kept_sources@[a] != s by {
                                    let b = choose|b: int| 0 <= b < i && old_sources[b] == kept_sources@[a];
                                }
                                assert forall|b: int| 0 <= b < i implies node_key(#[trigger] old_sources[b]) != key by {
                                    lemma_node_key_injective(old_sources[b], s);
                                }
                            }
                            let ghost prev_sources = kept_sources@;
                            let ghost prev_edges = kept_edges@;
                            kept_edges.insert(key, rest);
                            kept_sources.push(s);
                            proof {
                                assert forall|k: u64| #[trigger] kept_edges@.contains_key(k) implies exists|a: int|
                                    0 <= a < kept_sources@.len() && node_key(kept_sources@[a]) == k by {
                                    if k == key {
                                        assert(node_key(kept_sources@[prev_sources.len() as int]) == k);
                                    } else {
                                        assert(prev_edges.contains_key(k));
                                        let a = choose|a: int| 0 <= a < prev_sources.len() && node_key(prev_sources[a]) == k;
                                        assert(kept_sources@[a] == prev_sources[a]);
                                    }
                                }
                            }
                        }
                    },
                    None => {},
                }
            }
            proof {
                assert forall|b: int| 0 <= b < i implies node_key(#[trigger] old_sources[b]) != key by {
                    lemma_node_key_injective(old_sources[b], s);
                }
            }
            i = i + 1;
        }
        let ghost ke = kept_edges@;
        let ghost ks = kept_sources@;
        self.edges = kept_edges;
        self.sources = kept_sources;
        proof {
            assert(self.edges@ == ke);
            assert(self.sources@ == ks);
            assert forall|k: u64| #[trigger] self.edges@.contains_key(k) implies exists|a: int|
                0 <= a < self.sources@.len() && node_key(self.sources@[a]) == k by {
                assert(ke.contains_key(k));
                let a = choose|a: int| 0 <= a < ks.len() && node_key(ks[a]) == k;
                assert(node_key(self.sources@[a]) == k);
            }
            assert forall|q: NodeRef| #[trigger] self.edges_from(q) == (if q.arena_id == arena_id {
                Seq::empty()
            } else {
                edges_outside(old(self).edges_from(q), arena_id.0)
            }) by {
                if old_edges.contains_key(node_key(q)) {
                    let b = choose|b: int| 0 <= b < old_sources.len() && node_key(old_sources[b]) == node_key(q);
                    lemma_node_key_injective(old_sources[b], q);
                } else {
                    if self.edges@.contains_key(node_key(q)) {
                        let b = choose|b: int| 0 <= b < n && node_key(old_sources[b]) == node_key(q);
                    }
                    assert(edges_outside(Seq::<(ExecEdgeType, NodeRef)>::empty(), arena_id.0) =~= Seq::empty());
                }
            }
        }
    }
}

/// Sorts pairs by index, keeping pairs with equal indices in their order.
fn sort_pairs_by_index(pairs: Vec<(u32, NodeRef)>) -> (r: Vec<(u32, NodeRef)>)
    ensures
        r@.to_multiset() == pairs@.to_multiset(),
        stably_sorted(pairs@, r@),
{
    broadcast use vstd::seq_lib::group_to_multiset_ensures;
    let mut r: Vec<(u32, NodeRef)> = Vec::new();
    let mut i: usize = 0;
    proof {
        assert forall|k: u32| #[trigger] with_index(r@, k) == with_index(pairs@.take(0), k) by {
            assert(r@ =~= pairs@.take(0));
        }
    }
    while i < pairs.len()
        invariant
            i <= pairs@.len(),
            r@.to_multiset() == pairs@.take(i as int).to_multiset(),
            sorted_by_index(r@),
            forall|k: u32| #[trigger] with_index(r@, k) == with_index(pairs@.take(i as int), k),
        decreases pairs@.len() - i,
    {
        let p = pairs[i];
        let mut pos: usize = r.len();
        while pos > 0 && r[pos - 1].0 > p.0
            invariant
                pos <= r@.len(),
                sorted_by_index(r@),
                forall|k: int| pos <= k < r@.len() ==> r@[k].0 > p.0,
            decreases pos,
        {
            pos = pos - 1;
        }
        let ghost before = r@;
        r.insert(pos, p);
        proof {
            vstd::seq_lib::to_multiset_insert(before, pos as int, p);
            assert(pairs@.take(i + 1) =~= pairs@.take(i as int).push(p));
            vstd::seq_lib::to_multiset_build(pairs@.take(i as int), p);
            assert forall|a: int, b: int| 0 <= a < b < r@.len() implies r@[a].0 <= r@[b].0 by {
                if a < pos && b > pos {
                    assert(before[a].0 <= p.0 || pos == 0);
                }
            }
            let front = before.subrange(0, pos as int);
            let back = before.subrange(pos as int, before.len() as int);
            assert(before =~= front + back);
            assert(r@ =~= front + seq![p] + back);
            assert forall|k: u32| #[trigger] with_index(r@, k) == with_index(pairs@.take(i + 1), k) by {
                let pred = |q: (u32, NodeRef)| q.0 == k;
                Seq::filter_distributes_over_add(front, back, pred);
                Seq::filter_distributes_over_add(front + seq![p], back, pred);
                Seq::filter_distributes_over_add(front, seq![p], pred);
                pairs@.take(i as int).lemma_filter_push(p, pred);
                assert(seq![p].filter(pred) =~= (if pred(p) { seq![p] } else { Seq::empty() })) by {
                    Seq::<(u32, NodeRef)>::empty().lemma_filter_push(p, pred);
                    assert(Seq::<(u32, NodeRef)>::empty().push(p) =~= seq![p]);
                    assert(Seq::<(u32, NodeRef)>::empty().filter(pred) =~= Seq::<(u32, NodeRef)>::empty()) by {
                        reveal(Seq::filter);
                    }
                }
                if k == p.0 {
                    assert(back.filter(pred).len() == 0) by {
                        assert(back.all(|x: (u32, NodeRef)| !pred(x)));
                        back.lemma_all_neg_filter_empty(pred);
                    }
                    assert(back.filter(pred) =~= Seq::<(u32, NodeRef)>::empty());
                    assert(with_index(r@, k) =~= with_index(before, k).push(p));
                } else {
                    assert(with_index(r@, k) =~= with_index(before, k));
                }
            }
        }
        i = i + 1;
    }
    assert(pairs@.take(pairs@.len() as int) =~= pairs@);
    r
}

} // verus!
