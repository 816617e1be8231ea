//! Graph-based namespace.
//!
//! Scopes are nodes connected by parent edges; variables are entries of a
//! scope.  Lookup walks the parent edges from the current scope towards the
//! global scope and stops at the first scope that binds the name.

use vstd::prelude::*;
use std::collections::HashMap;
use crate::error::GraphoidError;
use crate::text::str_eq;

verus! {

broadcast use vstd::std_specs::hash::group_hash_axioms;

/// Unique scope identifier.
#[derive(Debug, Clone, Copy, PartialEq, Eq, Hash, Structural)]
pub struct ScopeId(u64);

/// Type of a scope in the namespace graph.
#[derive(Debug, Clone, PartialEq, Eq)]
pub enum ScopeType {
    /// Global/top-level scope
    Global,
    /// Function scope with the function's name
    Function(String),
    /// Block scope (if, while, for, ...)
    Block,
    /// Module scope with the module's name
    Module(String),
    /// Class scope with the class's name
    Class(String),
}

impl ScopeType {
    /// A copy of this scope type.
    pub fn duplicate(&self) -> (r: ScopeType)
        ensures
            r == *self,
    {
        match self {
            ScopeType::Global => ScopeType::Global,
            ScopeType::Function(n) => ScopeType::Function(n.clone()),
            ScopeType::Block => ScopeType::Block,
            ScopeType::Module(n) => ScopeType::Module(n.clone()),
            ScopeType::Class(n) => ScopeType::Class(n.clone()),
        }
    }
}

/// A scope: its type, its variables (name -> value; each name once) and the
/// parent edge to the enclosing scope.
#[derive(Clone)]
struct Scope<V> {
    scope_type: ScopeType,
    variables: Vec<(String, V)>,
    parent: Option<ScopeId>,
}

/// One scope as seen by lookups: its type and its bindings.
pub struct Frame<V> {
    pub scope_type: ScopeType,
    pub vars: Map<Seq<char>, V>,
}

/// The bindings held by a list of variable entries (later entries win).
pub open spec fn bindings_of<V>(vars: Seq<(String, V)>) -> Map<Seq<char>, V>
    decreases vars.len(),
{
    if vars.len() == 0 {
        Map::empty()
    } else {
        bindings_of(vars.drop_last()).insert(vars.last().0@, vars.last().1)
    }
}

/// Each name occurs at most once.
pub open spec fn unique_names<V>(vars: Seq<(String, V)>) -> bool {
    forall|i: int, j: int| 0 <= i < vars.len() && 0 <= j < vars.len() && i != j ==> vars[i].0@ != vars[j].0@
}

/// The value bound to `name` in the innermost frame that binds it.
pub open spec fn lookup<V>(frames: Seq<Frame<V>>, name: Seq<char>) -> Option<V>
    decreases frames.len(),
{
    if frames.len() == 0 {
        None
    } else if frames[0].vars.contains_key(name) {
        Some(frames[0].vars[name])
    } else {
        lookup(frames.skip(1), name)
    }
}

/// The index of the innermost frame that binds `name`, or `frames.len()`.
pub open spec fn binding_depth<V>(frames: Seq<Frame<V>>, name: Seq<char>) -> nat
    decreases frames.len(),
{
    if frames.len() == 0 {
        0
    } else if frames[0].vars.contains_key(name) {
        0
    } else {
        1 + binding_depth(frames.skip(1), name)
    }
}

spec fn frame_of<V>(s: Scope<V>) -> Frame<V> {
    Frame { scope_type: s.scope_type, vars: bindings_of(s.variables@) }
}

/// The ids on the parent chain from `id` (inclusive) towards the root.
spec fn chain_ids<V>(m: Map<u64, Scope<V>>, id: u64) -> Seq<u64>
    decreases id,
{
    if !m.contains_key(id) {
        Seq::empty()
    } else {
        match m[id].parent {
            Some(p) => if p.0 < id { seq![id] + chain_ids(m, p.0) } else { seq![id] },
            None => seq![id],
        }
    }
}

/// The frames on the parent chain from `id` towards the root.
spec fn chain<V>(m: Map<u64, Scope<V>>, id: u64) -> Seq<Frame<V>>
    decreases id,
{
    if !m.contains_key(id) {
        Seq::empty()
    } else {
        match m[id].parent {
            Some(p) => if p.0 < id { seq![frame_of(m[id])] + chain(m, p.0) } else { seq![frame_of(m[id])] },
            None => seq![frame_of(m[id])],
        }
    }
}

proof fn lemma_chain_len<V>(m: Map<u64, Scope<V>>, id: u64)
    ensures
        chain(m, id).len() == chain_ids(m, id).len(),
        m.contains_key(id) ==> chain(m, id).len() >= 1 && chain_ids(m, id)[0] == id
            && chain(m, id)[0] == frame_of(m[id]),
        forall|j: int| 0 <= j < chain_ids(m, id).len() ==> #[trigger] chain_ids(m, id)[j] <= id
            && m.contains_key(chain_ids(m, id)[j]) && (j > 0 ==> chain_ids(m, id)[j] < id),
    decreases id,
{
    if m.contains_key(id) {
        if let Some(p) = m[id].parent {
            if p.0 < id {
                lemma_chain_len(m, p.0);
                assert forall|j: int| 0 <= j < chain_ids(m, id).len() implies #[trigger] chain_ids(m, id)[j] <= id
                    && m.contains_key(chain_ids(m, id)[j]) && (j > 0 ==> chain_ids(m, id)[j] < id) by {
                    if j > 0 {
                        assert(chain_ids(m, id)[j] == chain_ids(m, p.0)[j - 1]);
                    }
                }
            }
        }
    }
}

/// Adding a scope with an id above `id` leaves the chain from `id` as it was.
proof fn lemma_chain_insert_above<V>(m: Map<u64, Scope<V>>, k: u64, s: Scope<V>, id: u64)
    requires
        id < k,
    ensures
        chain(m.insert(k, s), id) == chain(m, id),
        chain_ids(m.insert(k, s), id) == chain_ids(m, id),
    decreases id,
{
    let m2 = m.insert(k, s);
    if m.contains_key(id) {
        assert(m2[id] == m[id]);
        if let Some(p) = m[id].parent {
            if p.0 < id {
                lemma_chain_insert_above(m, k, s, p.0);
            }
        }
    }
}

/// Replacing scope `k` by one with the same parent changes the chain only at
/// the position where `k` occurs.
proof fn lemma_chain_replace<V>(m: Map<u64, Scope<V>>, k: u64, s: Scope<V>, id: u64)
    requires
        m.contains_key(k),
        s.parent == m[k].parent,
    ensures
        chain_ids(m.insert(k, s), id) == chain_ids(m, id),
        chain(m.insert(k, s), id).len() == chain(m, id).len(),
        forall|j: int| 0 <= j < chain(m, id).len() ==> #[trigger] chain(m.insert(k, s), id)[j] == (if chain_ids(m, id)[j] == k {
            frame_of(s)
        } else {
            chain(m, id)[j]
        }),
    decreases id,
{
    let m2 = m.insert(k, s);
    lemma_chain_len(m, id);
    lemma_chain_len(m2, id);
    if m.contains_key(id) {
        if let Some(p) = m[id].parent {
            if p.0 < id {
                lemma_chain_replace(m, k, s, p.0);
                lemma_chain_len(m, p.0);
                assert forall|j: int| 0 <= j < chain(m, id).len() implies #[trigger] chain(m2, id)[j] == (if chain_ids(m, id)[j] == k {
                    frame_of(s)
                } else {
                    chain(m, id)[j]
                }) by {
                    if j > 0 {
                        assert(chain(m2, id)[j] == chain(m2, p.0)[j - 1]);
                        assert(chain(m, id)[j] == chain(m, p.0)[j - 1]);
                        assert(chain_ids(m, id)[j] == chain_ids(m, p.0)[j - 1]);
                    }
                }
            }
        }
    }
}

/// The chain from the scope at depth `d` is the tail of the chain.
proof fn lemma_chain_skip<V>(m: Map<u64, Scope<V>>, id: u64, d: int)
    requires
        0 <= d < chain_ids(m, id).len(),
    ensures
        chain(m, chain_ids(m, id)[d]) == chain(m, id).skip(d),
        chain_ids(m, chain_ids(m, id)[d]) == chain_ids(m, id).skip(d),
    decreases id,
{
    lemma_chain_len(m, id);
    if d == 0 {
        assert(chain(m, id).skip(0) =~= chain(m, id));
        assert(chain_ids(m, id).skip(0) =~= chain_ids(m, id));
    } else {
        let p = m[id].parent->0;
        lemma_chain_skip(m, p.0, d - 1);
        assert(chain(m, id).skip(d) =~= chain(m, p.0).skip(d - 1));
        assert(chain_ids(m, id).skip(d) =~= chain_ids(m, p.0).skip(d - 1));
    }
}

proof fn lemma_bindings_update<V>(vars: Seq<(String, V)>, i: int, x: (String, V))
    requires
        0 <= i < vars.len(),
        unique_names(vars),
        vars[i].0@ == x.0@,
    ensures
        bindings_of(vars.update(i, x)) == bindings_of(vars).insert(x.0@, x.1),
        unique_names(vars.update(i, x)),
    decreases vars.len(),
{
    let u = vars.update(i, x);
    if i == vars.len() - 1 {
        assert(u.drop_last() =~= vars.drop_last());
        lemma_bindings_contains(vars.drop_last(), x.0@);
        assert(bindings_of(u) =~= bindings_of(vars).insert(x.0@, x.1));
    } else {
        lemma_bindings_update(vars.drop_last(), i, x);
        assert(u.drop_last() =~= vars.drop_last().update(i, x));
        assert(vars.last().0@ != x.0@);
        assert(bindings_of(u) =~= bindings_of(vars).insert(x.0@, x.1));
    }
}

proof fn lemma_bindings_contains<V>(vars: Seq<(String, V)>, k: Seq<char>)
    ensures
        bindings_of(vars).contains_key(k) <==> exists|i: int| 0 <= i < vars.len() && vars[i].0@ == k,
    decreases vars.len(),
{
    if vars.len() > 0 {
        lemma_bindings_contains(vars.drop_last(), k);
        if bindings_of(vars.drop_last()).contains_key(k) {
            let i = choose|i: int| 0 <= i < vars.drop_last().len() && vars.drop_last()[i].0@ == k;
            assert(vars[i].0@ == k);
        }
        if exists|i: int| 0 <= i < vars.len() && vars[i].0@ == k {
            let i = choose|i: int| 0 <= i < vars.len() && vars[i].0@ == k;
            if i < vars.len() - 1 {
                assert(vars.drop_last()[i].0@ == k);
            }
        }
    }
}

proof fn lemma_bindings_at<V>(vars: Seq<(String, V)>, i: int)
    requires
        0 <= i < vars.len(),
        unique_names(vars),
    ensures
        bindings_of(vars).contains_key(vars[i].0@),
        bindings_of(vars)[vars[i].0@] == vars[i].1,
    decreases vars.len(),
{
    if i < vars.len() - 1 {
        lemma_bindings_at(vars.drop_last(), i);
    }
}

proof fn lemma_lookup_depth<V>(frames: Seq<Frame<V>>, name: Seq<char>)
    ensures
        binding_depth(frames, name) <= frames.len(),
        (binding_depth(frames, name) < frames.len()) == (lookup(frames, name) is Some),
        binding_depth(frames, name) < frames.len() ==> frames[binding_depth(frames, name) as int].vars.contains_key(name)
            && lookup(frames, name) == Some(frames[binding_depth(frames, name) as int].vars[name]),
    decreases frames.len(),
{
    if frames.len() > 0 && !frames[0].vars.contains_key(name) {
        lemma_lookup_depth(frames.skip(1), name);
        if binding_depth(frames, name) < frames.len() {
            assert(frames[binding_depth(frames, name) as int] == frames.skip(1)[binding_depth(frames.skip(1), name) as int]);
        }
    }
}

proof fn lemma_chain_ids_decreasing<V>(m: Map<u64, Scope<V>>, id: u64, i: int, j: int)
    requires
        0 <= i < j < chain_ids(m, id).len(),
    ensures
        chain_ids(m, id)[j] < chain_ids(m, id)[i],
{
    lemma_chain_skip(m, id, i);
    lemma_chain_len(m, chain_ids(m, id)[i]);
    assert(chain_ids(m, id).skip(i)[j - i] == chain_ids(m, id)[j]);
}

/// Two scope maps that agree on the chain from `id` give the same chain.
proof fn lemma_chain_agree<V>(m: Map<u64, Scope<V>>, m2: Map<u64, Scope<V>>, id: u64)
    requires
        forall|k: u64| #[trigger] m2.contains_key(k) ==> m.contains_key(k),
        forall|j: int| 0 <= j < chain_ids(m, id).len() ==> m2.contains_key(#[trigger] chain_ids(m, id)[j])
            && m2[chain_ids(m, id)[j]] == m[chain_ids(m, id)[j]],
    ensures
        chain(m2, id) == chain(m, id),
        chain_ids(m2, id) == chain_ids(m, id),
    decreases id,
{
    lemma_chain_len(m, id);
    if m.contains_key(id) {
        assert(chain_ids(m, id)[0] == id);
        if let Some(p) = m[id].parent {
            if p.0 < id {
                assert forall|j: int| 0 <= j < chain_ids(m, p.0).len() implies m2.contains_key(#[trigger] chain_ids(m, p.0)[j])
                    && m2[chain_ids(m, p.0)[j]] == m[chain_ids(m, p.0)[j]] by {
                    assert(chain_ids(m, id)[j + 1] == chain_ids(m, p.0)[j]);
                }
                lemma_chain_agree(m, m2, p.0);
            }
        }
    }
}

proof fn lemma_bindings_remove<V>(vars: Seq<(String, V)>, i: int)
    requires
        0 <= i < vars.len(),
        unique_names(vars),
    ensures
        bindings_of(vars.remove(i)) == bindings_of(vars).remove(vars[i].0@),
        unique_names(vars.remove(i)),
    decreases vars.len(),
{
    let r = vars.remove(i);
    let k = vars[i].0@;
    if i == vars.len() - 1 {
        assert(r =~= vars.drop_last());
        lemma_bindings_contains(vars.drop_last(), k);
        assert(bindings_of(r) =~= bindings_of(vars).remove(k));
    } else {
        lemma_bindings_remove(vars.drop_last(), i);
        assert(r.drop_last() =~= vars.drop_last().remove(i));
        assert(r.last() == vars.last());
        assert(vars.last().0@ != k);
        assert(bindings_of(r) =~= bindings_of(vars).remove(k));
    }
    assert forall|a: int, b: int| 0 <= a < r.len() && 0 <= b < r.len() && a != b implies r[a].0@ != r[b].0@ by {
        let a2 = if a < i { a } else { a + 1 };
        let b2 = if b < i { b } else { b + 1 };
        assert(r[a] == vars[a2]);
        assert(r[b] == vars[b2]);
    }
}

/// The innermost frame that binds `name` gives its value.
proof fn lemma_lookup_first<V>(frames: Seq<Frame<V>>, name: Seq<char>, j: int)
    requires
        0 <= j < frames.len(),
        frames[j].vars.contains_key(name),
        forall|i: int| 0 <= i < j ==> !(#[trigger] frames[i].vars.contains_key(name)),
    ensures
        lookup(frames, name) == Some(frames[j].vars[name]),
    decreases j,
{
    if j > 0 {
        assert(!frames[0].vars.contains_key(name));
        lemma_lookup_first(frames.skip(1), name, j - 1);
    }
}

/// A name bound nowhere looks up to nothing.
proof fn lemma_lookup_none<V>(frames: Seq<Frame<V>>, name: Seq<char>)
    requires
        forall|i: int| 0 <= i < frames.len() ==> !(#[trigger] frames[i].vars.contains_key(name)),
    ensures
        lookup(frames, name) is None,
    decreases frames.len(),
{
    if frames.len() > 0 {
        lemma_lookup_none(frames.skip(1), name);
    }
}

/// Some frame before index `d` binds `k`.
pub open spec fn bound_before<V>(frames: Seq<Frame<V>>, d: int, k: Seq<char>) -> bool {
    exists|j: int| 0 <= j < d && #[trigger] frames[j].vars.contains_key(k)
}

/// Some entry before index `t` is named `k`.
pub open spec fn named_before<V>(vars: Seq<(String, V)>, t: int, k: Seq<char>) -> bool {
    exists|u: int| 0 <= u < t && vars[u].0@ == k
}

/// Graph-based namespace for variable storage.
#[derive(Clone)]
pub struct NamespaceGraph<V> {
    /// All scopes, by id
    scopes: HashMap<u64, Scope<V>>,
    /// Current active scope
    current_scope_id: ScopeId,
    /// Counter for generating unique scope ids
    next_scope_id: u64,
}

impl<V> NamespaceGraph<V> {
    /// Well-formedness: the current scope exists, parent edges point to
    /// existing scopes with smaller ids, every scope lies on the current
    /// scope's chain, ids are below `next_scope_id`, and names are unique
    /// within a scope.
    pub closed spec fn wf(&self) -> bool {
        let m = self.scopes@;
        &&& m.contains_key(self.current_scope_id.0)
        &&& forall|id: u64| #[trigger] m.contains_key(id) ==> {
            &&& id < self.next_scope_id
            &&& unique_names(m[id].variables@)
            &&& (m[id].parent matches Some(p) ==> p.0 < id && m.contains_key(p.0))
            &&& chain_ids(m, self.current_scope_id.0).contains(id)
        }
    }

    /// The scopes from the current one out to the global one.
    pub closed spec fn frames(&self) -> Seq<Frame<V>> {
        chain(self.scopes@, self.current_scope_id.0)
    }

    /// A well-formed namespace always has a current scope: its chain of
    /// frames is never empty.
    pub proof fn lemma_has_current_scope(&self)
        requires
            self.wf(),
        ensures
            self.frames().len() >= 1,
    {
        lemma_chain_len(self.scopes@, self.current_scope_id.0);
    }

    /// The id the next child scope gets.
    pub closed spec fn next_id(&self) -> nat {
        self.next_scope_id as nat
    }

    /// Creates a namespace holding only the global scope.
    pub fn new() -> (ns: Self)
        ensures
            ns.wf(),
            ns.frames() == seq![Frame::<V> { scope_type: ScopeType::Global, vars: Map::empty() }],
            ns.next_id() == 1,
    {
        let mut scopes: HashMap<u64, Scope<V>> = HashMap::new();
        scopes.insert(0u64, Scope { scope_type: ScopeType::Global, variables: Vec::new(), parent: None });
        let ns = NamespaceGraph { scopes, current_scope_id: ScopeId(0), next_scope_id: 1 };
        proof {
            let m = ns.scopes@;
            assert(bindings_of(m[0].variables@) =~= Map::<Seq<char>, V>::empty());
            assert(chain_ids(m, 0) == seq![0u64]);
            assert(ns.frames() =~= seq![Frame::<V> { scope_type: ScopeType::Global, vars: Map::empty() }]);
            assert forall|id: u64| #[trigger] m.contains_key(id) implies chain_ids(m, 0).contains(id) by {
                assert(chain_ids(m, 0)[0] == id);
            }
        }
        ns
    }

    /// Creates a namespace whose current scope is a new block scope under the
    /// current scope of `parent`.
    pub fn with_parent(parent: NamespaceGraph<V>) -> (ns: Self)
        requires
            parent.wf(),
            parent.next_id() < u64::MAX,
        ensures
            ns.wf(),
            ns.frames() == seq![Frame::<V> { scope_type: ScopeType::Block, vars: Map::empty() }] + parent.frames(),
            ns.next_id() == parent.next_id() + 1,
    {
        let mut ns = parent;
        let ghost m = ns.scopes@;
        let ghost cur = ns.current_scope_id.0;
        let child_id = ns.next_scope_id;
        ns.next_scope_id = ns.next_scope_id + 1;
        let child = Scope { scope_type: ScopeType::Block, variables: Vec::new(), parent: Some(ns.current_scope_id) };
        ns.scopes.insert(child_id, child);
        ns.current_scope_id = ScopeId(child_id);
        proof {
            let m2 = ns.scopes@;
            assert(m2 == m.insert(child_id, m2[child_id]));
            lemma_chain_insert_above(m, child_id, m2[child_id], cur);
            assert(bindings_of(m2[child_id].variables@) =~= Map::<Seq<char>, V>::empty());
            assert(chain_ids(m2, child_id) == seq![child_id] + chain_ids(m, cur));
            assert(ns.frames() =~= seq![Frame::<V> { scope_type: ScopeType::Block, vars: Map::empty() }] + parent.frames());
            assert forall|id: u64| #[trigger] m2.contains_key(id) implies {
                &&& id < ns.next_scope_id
                &&& unique_names(m2[id].variables@)
                &&& (m2[id].parent matches Some(p) ==> p.0 < id && m2.contains_key(p.0))
                &&& chain_ids(m2, child_id).contains(id)
            } by {
                if id == child_id {
                    assert(chain_ids(m2, child_id)[0] == id);
                } else {
                    assert(m.contains_key(id));
                    let k = choose|k: int| 0 <= k < chain_ids(m, cur).len() && chain_ids(m, cur)[k] == id;
                    assert(chain_ids(m2, child_id)[k + 1] == id);
                }
            }
        }
        ns
    }

    /// Returns the type of the current scope.
    pub fn current_scope_type(&self) -> (t: ScopeType)
        requires
            self.wf(),
        ensures
            t == self.frames()[0].scope_type,
    {
        proof {
            lemma_chain_len(self.scopes@, self.current_scope_id.0);
        }
        match self.scopes.get(&self.current_scope_id.0) {
            Some(s) => s.scope_type.duplicate(),
            None => ScopeType::Global,
        }
    }

    /// Defines (or redefines) a variable in the current scope.
    pub fn define(&mut self, name: String, value: V)
        requires
            old(self).wf(),
        ensures
            final(self).wf(),
            final(self).next_id() == old(self).next_id(),
            final(self).frames() == old(self).frames().update(0, Frame {
                scope_type: old(self).frames()[0].scope_type,
                vars: old(self).frames()[0].vars.insert(name@, value),
            }),
    {
        let ghost m = self.scopes@;
        let cur = self.current_scope_id.0;
        proof {
            lemma_chain_len(m, cur);
        }
        let mut scope = self.scopes.remove(&cur).unwrap();
        let ghost old_vars = scope.variables@;
        assert(old_vars == m[cur].variables@);
        let ghost name_view = name@;
        match find_var(&scope.variables, name.as_str()) {
            Some(i) => {
                scope.variables.set(i, (name, value));
                proof {
                    lemma_bindings_update(old_vars, i as int, scope.variables@[i as int]);
                    assert(bindings_of(scope.variables@) == bindings_of(old_vars).insert(name_view, value));
                }
            },
            None => {
                scope.variables.push((name, value));
                proof {
                    assert(scope.variables@.drop_last() =~= old_vars);
                    assert(bindings_of(scope.variables@) == bindings_of(old_vars).insert(name_view, value));
                    assert forall|a: int, b: int| 0 <= a < scope.variables@.len() && 0 <= b < scope.variables@.len() && a != b
                        implies scope.variables@[a].0@ != scope.variables@[b].0@ by {
                        if a < old_vars.len() && b < old_vars.len() {
                            assert(old_vars[a] == scope.variables@[a]);
                            assert(old_vars[b] == scope.variables@[b]);
                        }
                    }
                }
            },
        }
        self.scopes.insert(cur, scope);
        proof {
            let m2 = self.scopes@;
            assert(m2 =~= m.insert(cur, m2[cur]));
            lemma_chain_replace(m, cur, m2[cur], cur);
            lemma_chain_len(m2, cur);
            assert(self.frames() =~= old(self).frames().update(0, Frame {
                scope_type: old(self).frames()[0].scope_type,
                vars: old(self).frames()[0].vars.insert(name_view, value),
            }));
            assert forall|id: u64| #[trigger] m2.contains_key(id) implies {
                &&& id < self.next_scope_id
                &&& unique_names(m2[id].variables@)
                &&& (m2[id].parent matches Some(p) ==> p.0 < id && m2.contains_key(p.0))
                &&& chain_ids(m2, cur).contains(id)
            } by {
                assert(m.contains_key(id));
            }
        }
    }

    /// Gets a variable's value, walking the parent edges from the current
    /// scope until a scope binds it.
    pub fn get(&self, name: &str) -> (r: Result<V, GraphoidError>)
        where
            V: Clone,
        requires
            self.wf(),
        ensures
            match lookup(self.frames(), name@) {
                Some(v) => r matches Ok(x) && cloned(v, x),
                None => r matches Err(GraphoidError::UndefinedVariable { name: n }) && n@ == name@,
            },
    {
        let ghost m = self.scopes@;
        let ghost frames = self.frames();
        let ghost ids = chain_ids(m, self.current_scope_id.0);
        let mut scope_id = self.current_scope_id.0;
        let ghost mut d: int = 0;
        proof {
            lemma_chain_len(m, scope_id);
            assert(frames.skip(0) =~= frames);
        }
        loop
            invariant
                self.wf(),
                m == self.scopes@,
                frames == self.frames(),
                ids == chain_ids(m, self.current_scope_id.0),
                0 <= d < ids.len(),
                scope_id == ids[d],
                lookup(frames, name@) == lookup(frames.skip(d), name@),
            decreases scope_id,
        {
            proof {
                lemma_chain_len(m, self.current_scope_id.0);
                lemma_chain_skip(m, self.current_scope_id.0, d);
                lemma_chain_len(m, scope_id);
            }
            let scope = self.scopes.get(&scope_id).unwrap();
            match find_var(&scope.variables, name) {
                Some(i) => {
                    proof {
                        lemma_bindings_at(scope.variables@, i as int);
                    }
                    return Ok(scope.variables[i].1.clone());
                },
                None => {
                    proof {
                        lemma_bindings_contains(scope.variables@, name@);
                        assert(frames.skip(d).skip(1) =~= frames.skip(d + 1));
                        assert(frames.skip(d)[0] == frame_of(m[scope_id]));
                        assert(!frames.skip(d)[0].vars.contains_key(name@));
                        assert(lookup(frames.skip(d), name@) == lookup(frames.skip(d).skip(1), name@));
                    }
                },
            }
            assert(scope == m[scope_id]);
            match scope.parent {
                Some(p) => {
                    proof {
                        lemma_chain_len(m, p.0);
                        assert(chain_ids(m, scope_id) == seq![scope_id] + chain_ids(m, p.0));
                        assert(ids.skip(d)[1] == ids[d + 1]);
                        assert(ids[d + 1] == p.0);
                        d = d + 1;
                    }
                    scope_id = p.0;
                },
                None => {
                    proof {
                        assert(chain(m, scope_id).len() == 1);
                        assert(frames.skip(d + 1).len() == 0);
                    }
                    return Err(GraphoidError::undefined_variable(name));
                },
            }
        }
    }

    /// Where `name` is bound: the scope id and the entry's index in it.
    fn find_binding(&self, name: &str) -> (r: Option<(u64, usize)>)
        requires
            self.wf(),
        ensures
            match r {
                Some((sid, i)) => {
                    let d = binding_depth(self.frames(), name@) as int;
                    &&& d < self.frames().len()
                    &&& chain_ids(self.scopes@, self.current_scope_id.0)[d] == sid
                    &&& self.scopes@.contains_key(sid)
                    &&& i < self.scopes@[sid].variables@.len()
                    &&& self.scopes@[sid].variables@[i as int].0@ == name@
                    &&& lookup(self.frames(), name@) == Some(self.scopes@[sid].variables@[i as int].1)
                },
                None => lookup(self.frames(), name@) is None,
            },
    {
        let ghost m = self.scopes@;
        let ghost frames = self.frames();
        let ghost ids = chain_ids(m, self.current_scope_id.0);
        let mut scope_id = self.current_scope_id.0;
        let ghost mut d: int = 0;
        proof {
            lemma_chain_len(m, scope_id);
            assert(frames.skip(0) =~= frames);
        }
        loop
            invariant
                self.wf(),
                m == self.scopes@,
                frames == self.frames(),
                ids == chain_ids(m, self.current_scope_id.0),
                0 <= d < ids.len(),
                scope_id == ids[d],
                lookup(frames, name@) == lookup(frames.skip(d), name@),
                binding_depth(frames, name@) == d + binding_depth(frames.skip(d), name@),
            decreases scope_id,
        {
            proof {
                lemma_chain_len(m, self.current_scope_id.0);
                lemma_chain_skip(m, self.current_scope_id.0, d);
                lemma_chain_len(m, scope_id);
            }
            let scope = self.scopes.get(&scope_id).unwrap();
            assert(scope == m[scope_id]);
            assert(frames.skip(d)[0] == frame_of(m[scope_id]));
            match find_var(&scope.variables, name) {
                Some(i) => {
                    proof {
                        lemma_bindings_at(scope.variables@, i as int);
                        assert(frames.skip(d)[0].vars.contains_key(name@));
                        assert(binding_depth(frames.skip(d), name@) == 0);
                    }
                    return Some((scope_id, i));
                },
                None => {
                    proof {
                        lemma_bindings_contains(scope.variables@, name@);
                        assert(frames.skip(d).skip(1) =~= frames.skip(d + 1));
                        assert(!frames.skip(d)[0].vars.contains_key(name@));
                        assert(lookup(frames.skip(d), name@) == lookup(frames.skip(d).skip(1), name@));
                        assert(binding_depth(frames.skip(d), name@) == 1 + binding_depth(frames.skip(d).skip(1), name@));
                    }
                },
            }
            match scope.parent {
                Some(p) => {
                    proof {
                        lemma_chain_len(m, p.0);
                        assert(chain_ids(m, scope_id) == seq![scope_id] + chain_ids(m, p.0));
                        assert(ids.skip(d)[1] == ids[d + 1]);
                        d = d + 1;
                    }
                    scope_id = p.0;
                },
                None => {
                    proof {
                        assert(chain(m, scope_id).len() == 1);
                        assert(frames.skip(d + 1).len() == 0);
                    }
                    return None;
                },
            }
        }
    }

    /// Checks whether a variable is bound in the current scope or any
    /// enclosing one.
    pub fn var_exists(&self, name: &str) -> (r: bool)
        requires
            self.wf(),
        ensures
            r == (lookup(self.frames(), name@) is Some),
    {
        self.find_binding(name).is_some()
    }

    /// Updates a variable in the innermost scope that binds it; an error if
    /// no scope binds it.
    pub fn set(&mut self, name: &str, value: V) -> (r: Result<(), GraphoidError>)
        requires
            old(self).wf(),
        ensures
            final(self).wf(),
            final(self).next_id() == old(self).next_id(),
            lookup(old(self).frames(), name@) is Some ==> {
                let d = binding_depth(old(self).frames(), name@) as int;
                &&& r is Ok
                &&& final(self).frames() == old(self).frames().update(d, Frame {
                    scope_type: old(self).frames()[d].scope_type,
                    vars: old(self).frames()[d].vars.insert(name@, value),
                })
            },
            lookup(old(self).frames(), name@) is None ==> {
                &&& r matches Err(GraphoidError::UndefinedVariable { name: n }) && n@ == name@
                &&& final(self).frames() == old(self).frames()
            },
    {
        let ghost m = self.scopes@;
        let ghost cur = self.current_scope_id.0;
        let ghost frames = self.frames();
        match self.find_binding(name) {
            None => Err(GraphoidError::undefined_variable(name)),
            Some((sid, i)) => {
                let ghost d = binding_depth(frames, name@) as int;
                let mut scope = self.scopes.remove(&sid).unwrap();
                let ghost old_vars = scope.variables@;
                assert(old_vars == m[sid].variables@);
                let entry_name = String::from_str(name);
                scope.variables.set(i, (entry_name, value));
                proof {
                    lemma_bindings_update(old_vars, i as int, scope.variables@[i as int]);
                }
                self.scopes.insert(sid, scope);
                proof {
                    let m2 = self.scopes@;
                    assert(m2 =~= m.insert(sid, m2[sid]));
                    lemma_chain_replace(m, sid, m2[sid], cur);
                    lemma_chain_len(m, cur);
                    lemma_lookup_depth(frames, name@);
                    lemma_chain_skip(m, cur, d);
                    lemma_chain_len(m, sid);
                    assert(frames[d] == frame_of(m[sid]));
                    assert forall|j: int| 0 <= j < frames.len() && j != d implies chain_ids(m, cur)[j] != sid by {
                        if j < d {
                            lemma_chain_ids_decreasing(m, cur, j, d);
                        } else {
                            lemma_chain_ids_decreasing(m, cur, d, j);
                        }
                    }
                    assert(self.frames() =~= frames.update(d, Frame {
                        scope_type: frames[d].scope_type,
                        vars: frames[d].vars.insert(name@, value),
                    }));
                    assert forall|id: u64| #[trigger] m2.contains_key(id) implies {
                        &&& id < self.next_scope_id
                        &&& unique_names(m2[id].variables@)
                        &&& (m2[id].parent matches Some(p) ==> p.0 < id && m2.contains_key(p.0))
                        &&& chain_ids(m2, cur).contains(id)
                    } by {
                        assert(m.contains_key(id));
                    }
                }
                Ok(())
            },
        }
    }

    /// Checks whether a variable is bound in the current scope itself.
    pub fn exists_in_current_scope(&self, name: &str) -> (r: bool)
        requires
            self.wf(),
        ensures
            r == self.frames()[0].vars.contains_key(name@),
    {
        proof {
            lemma_chain_len(self.scopes@, self.current_scope_id.0);
        }
        match self.scopes.get(&self.current_scope_id.0) {
            Some(scope) => {
                let found = find_var(&scope.variables, name);
                proof {
                    lemma_bindings_contains(scope.variables@, name@);
                }
                found.is_some()
            },
            None => false,
        }
    }

    /// Gets a variable's value from the current scope itself.
    pub fn get_in_current_scope(&self, name: &str) -> (r: Option<V>)
        where
            V: Clone,
        requires
            self.wf(),
        ensures
            match r {
                Some(x) => self.frames()[0].vars.contains_key(name@) && cloned(self.frames()[0].vars[name@], x),
                None => !self.frames()[0].vars.contains_key(name@),
            },
    {
        proof {
            lemma_chain_len(self.scopes@, self.current_scope_id.0);
        }
        match self.scopes.get(&self.current_scope_id.0) {
            Some(scope) => {
                proof {
                    lemma_bindings_contains(scope.variables@, name@);
                }
                match find_var(&scope.variables, name) {
                    Some(i) => {
                        proof {
                            lemma_bindings_at(scope.variables@, i as int);
                        }
                        Some(scope.variables[i].1.clone())
                    },
                    None => None,
                }
            },
            None => None,
        }
    }

    /// The names bound in the current scope itself (each once).
    pub fn get_variable_names(&self) -> (r: Vec<String>)
        requires
            self.wf(),
        ensures
            forall|i: int, j: int| 0 <= i < r@.len() && 0 <= j < r@.len() && i != j ==> r@[i]@ != r@[j]@,
            forall|k: Seq<char>| self.frames()[0].vars.contains_key(k) <==> exists|i: int| 0 <= i < r@.len() && r@[i]@ == k,
    {
        proof {
            lemma_chain_len(self.scopes@, self.current_scope_id.0);
        }
        let mut names: Vec<String> = Vec::new();
        match self.scopes.get(&self.current_scope_id.0) {
            Some(scope) => {
                let mut i: usize = 0;
                while i < scope.variables.len()
                    invariant
                        i <= scope.variables@.len(),
                        names@.len() == i,
                        forall|j: int| 0 <= j < i ==> names@[j]@ == scope.variables@[j].0@,
                    decreases scope.variables@.len() - i,
                {
                    names.push(scope.variables[i].0.clone());
                    i = i + 1;
                }
                proof {
                    assert forall|k: Seq<char>| self.frames()[0].vars.contains_key(k) <==> exists|i: int| 0 <= i < names@.len() && names@[i]@ == k by {
                        lemma_bindings_contains(scope.variables@, k);
                        if exists|i: int| 0 <= i < names@.len() && names@[i]@ == k {
                            let i = choose|i: int| 0 <= i < names@.len() && names@[i]@ == k;
                            assert(scope.variables@[i].0@ == k);
                        }
                        if exists|i: int| 0 <= i < scope.variables@.len() && scope.variables@[i].0@ == k {
                            let i = choose|i: int| 0 <= i < scope.variables@.len() && scope.variables@[i].0@ == k;
                            assert(names@[i]@ == k);
                        }
                    }
                }
            },
            None => {},
        }
        names
    }

    /// Removes a variable from the current scope; true if it was bound there.
    pub fn remove_variable(&mut self, name: &str) -> (r: bool)
        requires
            old(self).wf(),
        ensures
            final(self).wf(),
            final(self).next_id() == old(self).next_id(),
            r == old(self).frames()[0].vars.contains_key(name@),
            final(self).frames() == old(self).frames().update(0, Frame {
                scope_type: old(self).frames()[0].scope_type,
                vars: old(self).frames()[0].vars.remove(name@),
            }),
    {
        let ghost m = self.scopes@;
        let cur = self.current_scope_id.0;
        proof {
            lemma_chain_len(m, cur);
        }
        let mut scope = self.scopes.remove(&cur).unwrap();
        let ghost old_vars = scope.variables@;
        assert(old_vars == m[cur].variables@);
        proof {
            lemma_bindings_contains(old_vars, name@);
        }
        let found = match find_var(&scope.variables, name) {
            Some(i) => {
                scope.variables.remove(i);
                proof {
                    lemma_bindings_remove(old_vars, i as int);
                }
                true
            },
            None => {
                assert(bindings_of(old_vars).remove(name@) =~= bindings_of(old_vars));
                false
            },
        };
        self.scopes.insert(cur, scope);
        proof {
            let m2 = self.scopes@;
            assert(m2 =~= m.insert(cur, m2[cur]));
            lemma_chain_replace(m, cur, m2[cur], cur);
            lemma_chain_len(m2, cur);
            assert forall|j: int| 0 < j < old(self).frames().len() implies chain_ids(m, cur)[j] != cur by {
                lemma_chain_ids_decreasing(m, cur, 0, j);
            }
            assert(self.frames() =~= old(self).frames().update(0, Frame {
                scope_type: old(self).frames()[0].scope_type,
                vars: old(self).frames()[0].vars.remove(name@),
            }));
            assert forall|id: u64| #[trigger] m2.contains_key(id) implies {
                &&& id < self.next_scope_id
                &&& unique_names(m2[id].variables@)
                &&& (m2[id].parent matches Some(p) ==> p.0 < id && m2.contains_key(p.0))
                &&& chain_ids(m2, cur).contains(id)
            } by {
                assert(m.contains_key(id));
            }
        }
        found
    }

    /// Takes the enclosing scopes out as a namespace of their own, leaving
    /// the current scope without a parent; `None` when the current scope has
    /// no parent.
    pub fn take_parent(&mut self) -> (r: Option<Box<NamespaceGraph<V>>>)
        requires
            old(self).wf(),
        ensures
            final(self).wf(),
            old(self).frames().len() >= 2 ==> {
                &&& r matches Some(p) && p.wf() && p.frames() == old(self).frames().skip(1)
                &&& final(self).frames() == seq![old(self).frames()[0]]
            },
            old(self).frames().len() < 2 ==> r is None && final(self).frames() == old(self).frames(),
    {
        let ghost m = self.scopes@;
        let cur = self.current_scope_id.0;
        let ghost ids = chain_ids(m, cur);
        proof {
            lemma_chain_len(m, cur);
        }
        let parent_id = match self.scopes.get(&cur) {
            Some(s) => match s.parent {
                Some(p) => p,
                None => {
                    assert(chain(m, cur).len() == 1);
                    return None;
                },
            },
            None => return None,
        };
        proof {
            lemma_chain_len(m, parent_id.0);
            assert(ids == seq![cur] + chain_ids(m, parent_id.0));
            assert(ids[1] == parent_id.0);
        }
        let mut parent_scopes: HashMap<u64, Scope<V>> = HashMap::new();
        let mut scope_id = parent_id.0;
        let ghost mut d: int = 1;
        loop
            invariant_except_break
                1 <= d < ids.len(),
                scope_id == ids[d],
            invariant
                self.next_scope_id == old(self).next_scope_id,
                self.current_scope_id == old(self).current_scope_id,
                ids == chain_ids(m, cur),
                1 <= d <= ids.len(),
                ids[1] == parent_id.0,
                ids.len() >= 2,
                forall|k: u64| parent_scopes@.contains_key(k) <==> exists|j: int| 1 <= j < d && ids[j] == k,
                forall|k: u64| parent_scopes@.contains_key(k) ==> parent_scopes@[k] == m[k],
                forall|k: u64| self.scopes@.contains_key(k) <==> m.contains_key(k) && !(exists|j: int| 1 <= j < d && ids[j] == k),
                forall|k: u64| self.scopes@.contains_key(k) ==> self.scopes@[k] == m[k],
                forall|id: u64| #[trigger] m.contains_key(id) ==> {
                    &&& (m[id].parent matches Some(p) ==> p.0 < id && m.contains_key(p.0))
                    &&& ids.contains(id)
                },
            ensures
                forall|k: u64| parent_scopes@.contains_key(k) <==> exists|j: int| 1 <= j < ids.len() && ids[j] == k,
                forall|k: u64| parent_scopes@.contains_key(k) ==> parent_scopes@[k] == m[k],
                forall|k: u64| self.scopes@.contains_key(k) <==> k == cur,
                forall|k: u64| self.scopes@.contains_key(k) ==> self.scopes@[k] == m[k],
            decreases scope_id,
        {
            proof {
                lemma_chain_len(m, cur);
                lemma_chain_skip(m, cur, d);
                lemma_chain_len(m, scope_id);
                assert forall|j: int| 1 <= j < d implies ids[j] != scope_id by {
                    lemma_chain_ids_decreasing(m, cur, j, d);
                }
            }
            let scope = self.scopes.remove(&scope_id).unwrap();
            let next = scope.parent;
            parent_scopes.insert(scope_id, scope);
            proof {
                d = d + 1;
            }
            match next {
                Some(p) => {
                    proof {
                        lemma_chain_len(m, p.0);
                        assert(chain_ids(m, scope_id) == seq![scope_id] + chain_ids(m, p.0));
                        assert(ids.skip(d - 1)[1] == ids[d]);
                    }
                    scope_id = p.0;
                },
                None => {
                    proof {
                        assert(chain_ids(m, scope_id).len() == 1);
                        assert(ids.len() == d);
                        assert forall|k: u64| self.scopes@.contains_key(k) <==> k == cur by {
                            if m.contains_key(k) {
                                let j = choose|j: int| 0 <= j < ids.len() && ids[j] == k;
                                assert(ids[0] == cur);
                                if j == 0 {
                                    assert forall|j2: int| 1 <= j2 < d implies ids[j2] != k by {
                                        lemma_chain_ids_decreasing(m, cur, 0, j2);
                                    }
                                }
                            }
                        }
                    }
                    break;
                },
            }
        }
        let ghost before = self.scopes@;
        let mut current = self.scopes.remove(&cur).unwrap();
        assert(current == m[cur]);
        current.parent = None;
        self.scopes.insert(cur, current);
        assert(self.scopes@ == before.remove(cur).insert(cur, current));
        let ns = NamespaceGraph { scopes: parent_scopes, current_scope_id: parent_id, next_scope_id: parent_id.0 + 1 };
        proof {
            let pm = ns.scopes@;
            lemma_chain_skip(m, cur, 1);
            assert forall|k: u64| #[trigger] pm.contains_key(k) implies m.contains_key(k) by {
                let j = choose|j: int| 1 <= j < ids.len() && ids[j] == k;
            }
            assert forall|j: int| 0 <= j < chain_ids(m, parent_id.0).len() implies pm.contains_key(#[trigger] chain_ids(m, parent_id.0)[j])
                && pm[chain_ids(m, parent_id.0)[j]] == m[chain_ids(m, parent_id.0)[j]] by {
                assert(chain_ids(m, parent_id.0)[j] == ids[j + 1]);
            }
            lemma_chain_agree(m, pm, parent_id.0);
            lemma_chain_len(m, parent_id.0);
            assert forall|id: u64| #[trigger] pm.contains_key(id) implies {
                &&& id < ns.next_scope_id
                &&& unique_names(pm[id].variables@)
                &&& (pm[id].parent matches Some(p) ==> p.0 < id && pm.contains_key(p.0))
                &&& chain_ids(pm, parent_id.0).contains(id)
            } by {
                let j = choose|j: int| 1 <= j < ids.len() && ids[j] == id;
                assert(chain_ids(m, parent_id.0)[j - 1] == id);
                if let Some(p) = pm[id].parent {
                    lemma_chain_skip(m, cur, j);
                    lemma_chain_len(m, id);
                    lemma_chain_len(m, p.0);
                    assert(chain_ids(m, id) == seq![id] + chain_ids(m, p.0));
                    assert(ids.skip(j)[1] == ids[j + 1]);
                    assert(ids[j + 1] == p.0);
                }
            }
            let m2 = self.scopes@;
            assert(m2.contains_key(cur));
            assert(m2[cur].parent is None);
            assert(chain(m2, cur) =~= seq![frame_of(m[cur])]);
            assert(chain_ids(m2, cur) =~= seq![cur]);
            assert forall|id: u64| #[trigger] m2.contains_key(id) implies {
                &&& id < self.next_scope_id
                &&& unique_names(m2[id].variables@)
                &&& (m2[id].parent matches Some(p) ==> p.0 < id && m2.contains_key(p.0))
                &&& chain_ids(m2, cur).contains(id)
            } by {
                assert(before.contains_key(id));
                assert(id == cur);
                assert(old(self).scopes@.contains_key(cur));
                assert(self.next_scope_id == old(self).next_scope_id);
                assert(chain_ids(m2, cur)[0] == id);
                assert(m.contains_key(cur));
            }
        }
        Some(Box::new(ns))
    }

    /// All bindings of the current scope itself, as (name, value) pairs.
    pub fn get_all_bindings(&self) -> (r: Vec<(String, V)>)
        where
            V: Clone,
        requires
            self.wf(),
        ensures
            forall|i: int, j: int| 0 <= i < r@.len() && 0 <= j < r@.len() && i != j ==> r@[i].0@ != r@[j].0@,
            forall|i: int| 0 <= i < r@.len() ==> self.frames()[0].vars.contains_key(#[trigger] r@[i].0@)
                && cloned(self.frames()[0].vars[r@[i].0@], r@[i].1),
            forall|k: Seq<char>| self.frames()[0].vars.contains_key(k) ==> exists|i: int| 0 <= i < r@.len() && r@[i].0@ == k,
    {
        proof {
            lemma_chain_len(self.scopes@, self.current_scope_id.0);
        }
        let mut out: Vec<(String, V)> = Vec::new();
        let scope = self.scopes.get(&self.current_scope_id.0).unwrap();
        let ghost vars = scope.variables@;
        let mut i: usize = 0;
        while i < scope.variables.len()
            invariant
                vars == scope.variables@,
                unique_names(vars),
                i <= vars.len(),
                out@.len() == i,
                forall|j: int| 0 <= j < i ==> (#[trigger] out@[j]).0@ == vars[j].0@ && cloned(vars[j].1, out@[j].1),
            decreases vars.len() - i,
        {
            let name = scope.variables[i].0.clone();
            let value = scope.variables[i].1.clone();
            out.push((name, value));
            i = i + 1;
        }
        proof {
            assert forall|j: int| 0 <= j < out@.len() implies self.frames()[0].vars.contains_key(#[trigger] out@[j].0@)
                && cloned(self.frames()[0].vars[out@[j].0@], out@[j].1) by {
                lemma_bindings_at(vars, j);
            }
            assert forall|k: Seq<char>| self.frames()[0].vars.contains_key(k) implies exists|j: int| 0 <= j < out@.len() && out@[j].0@ == k by {
                lemma_bindings_contains(vars, k);
                let j = choose|j: int| 0 <= j < vars.len() && vars[j].0@ == k;
                assert(out@[j].0@ == k);
            }
        }
        out
    }

    /// All bindings visible from the current scope (the current scope and
    /// all enclosing ones), each name once with the innermost value.
    pub fn get_all_bindings_recursive(&self) -> (r: Vec<(String, V)>)
        where
            V: Clone,
        requires
            self.wf(),
        ensures
            forall|i: int, j: int| 0 <= i < r@.len() && 0 <= j < r@.len() && i != j ==> r@[i].0@ != r@[j].0@,
            forall|i: int| 0 <= i < r@.len() ==> ((#[trigger] lookup(self.frames(), r@[i].0@)) matches Some(v)
                && cloned(v, r@[i].1)),
            forall|k: Seq<char>| (lookup(self.frames(), k) is Some) ==> exists|i: int| 0 <= i < r@.len() && r@[i].0@ == k,
    {
        let ghost m = self.scopes@;
        let ghost frames = self.frames();
        let ghost ids = chain_ids(m, self.current_scope_id.0);
        let mut out: Vec<(String, V)> = Vec::new();
        let mut scope_id = self.current_scope_id.0;
        let ghost mut d: int = 0;
        proof {
            lemma_chain_len(m, scope_id);
        }
        loop
            invariant_except_break
                0 <= d < ids.len(),
                scope_id == ids[d],
            invariant
                self.wf(),
                m == self.scopes@,
                frames == self.frames(),
                ids == chain_ids(m, self.current_scope_id.0),
                ids.len() == frames.len(),
                0 <= d <= ids.len(),
                forall|a: int, b: int| 0 <= a < out@.len() && 0 <= b < out@.len() && a != b ==> out@[a].0@ != out@[b].0@,
                forall|a: int| 0 <= a < out@.len() ==> ((#[trigger] lookup(frames, out@[a].0@)) matches Some(v) && cloned(v, out@[a].1)),
                forall|k: Seq<char>| bound_before(frames, d, k)
                    <==> #[trigger] named_before(out@, out@.len() as int, k),
            ensures
                d == ids.len(),
            decreases scope_id,
        {
            proof {
                lemma_chain_len(m, self.current_scope_id.0);
                lemma_chain_skip(m, self.current_scope_id.0, d);
                lemma_chain_len(m, scope_id);
            }
            let scope = self.scopes.get(&scope_id).unwrap();
            assert(scope == m[scope_id]);
            let ghost vars = scope.variables@;
            assert(frames[d] == frame_of(m[scope_id]));
            let mut t: usize = 0;
            while t < scope.variables.len()
                invariant
                    vars == scope.variables@,
                    unique_names(vars),
                    frames[d].vars == bindings_of(vars),
                    0 <= d < frames.len(),
                    t <= vars.len(),
                    forall|a: int, b: int| 0 <= a < out@.len() && 0 <= b < out@.len() && a != b ==> out@[a].0@ != out@[b].0@,
                    forall|a: int| 0 <= a < out@.len() ==> ((#[trigger] lookup(frames, out@[a].0@)) matches Some(v) && cloned(v, out@[a].1)),
                    forall|k: Seq<char>| (bound_before(frames, d, k)
                        || named_before(vars, t as int, k))
                        <==> #[trigger] named_before(out@, out@.len() as int, k),
                decreases vars.len() - t,
            {
                let name = scope.variables[t].0.as_str();
                let mut seen = false;
                let mut a: usize = 0;
                while a < out.len()
                    invariant
                        a <= out@.len(),
                        seen == exists|b: int| 0 <= b < a && out@[b].0@ == name@,
                    decreases out@.len() - a,
                {
                    if str_eq(out[a].0.as_str(), name) {
                        seen = true;
                    }
                    a = a + 1;
                }
                if !seen {
                    let ghost pre = out@;
                    assert(forall|k: Seq<char>| (bound_before(frames, d, k) || named_before(vars, t as int, k))
                        <==> #[trigger] named_before(pre, pre.len() as int, k));
                    proof {
                        lemma_bindings_at(vars, t as int);
                        assert forall|j: int| 0 <= j < d implies !(#[trigger] frames[j].vars.contains_key(name@)) by {
                            if frames[j].vars.contains_key(name@) {
                                assert(bound_before(frames, d, name@));
                                assert(named_before(pre, pre.len() as int, name@));
                            }
                        }
                        lemma_lookup_first(frames, name@, d);
                    }
                    out.push((scope.variables[t].0.clone(), scope.variables[t].1.clone()));
                    proof {
                        assert(out@.drop_last() =~= pre);
                        assert(out@[pre.len() as int].0@ == vars[t as int].0@);
                        assert forall|a: int| 0 <= a < out@.len() implies ((#[trigger] lookup(frames, out@[a].0@)) matches Some(v) && cloned(v, out@[a].1)) by {
                            if a < pre.len() {
                                assert(out@[a] == pre[a]);
                            }
                        }
                        assert forall|a: int, b: int| 0 <= a < out@.len() && 0 <= b < out@.len() && a != b implies out@[a].0@ != out@[b].0@ by {
                            if a < pre.len() && b < pre.len() {
                                assert(out@[a] == pre[a]);
                                assert(out@[b] == pre[b]);
                            } else if a < pre.len() {
                                assert(out@[a] == pre[a]);
                            } else if b < pre.len() {
                                assert(out@[b] == pre[b]);
                            }
                        }
                        assert forall|k: Seq<char>| (bound_before(frames, d, k)
                            || named_before(vars, t + 1, k))
                            <==> #[trigger] named_before(out@, out@.len() as int, k) by {
                            if named_before(out@, out@.len() as int, k) {
                                let a = choose|a: int| 0 <= a < out@.len() && out@[a].0@ == k;
                                if a < pre.len() {
                                    assert(pre[a].0@ == k);
                                    assert(named_before(pre, pre.len() as int, k));
                                    if named_before(vars, t as int, k) {
                                        let u = choose|u: int| 0 <= u < t && vars[u].0@ == k;
                                        assert(named_before(vars, t + 1, k));
                                    }
                                } else {
                                    assert(vars[t as int].0@ == k);
                                    assert(named_before(vars, t + 1, k));
                                }
                            }
                            if named_before(vars, t + 1, k) {
                                let u = choose|u: int| 0 <= u < t + 1 && vars[u].0@ == k;
                                if u < t {
                                    assert(named_before(vars, t as int, k));
                                    assert(named_before(pre, pre.len() as int, k));
                                    let a = choose|a: int| 0 <= a < pre.len() && pre[a].0@ == k;
                                    assert(out@[a].0@ == k);
                                } else {
                                    assert(out@[pre.len() as int].0@ == k);
                                }
                            }
                            if bound_before(frames, d, k) {
                                assert(named_before(pre, pre.len() as int, k));
                                let a = choose|a: int| 0 <= a < pre.len() && pre[a].0@ == k;
                                assert(out@[a].0@ == k);
                            }
                        }
                    }
                } else {
                    proof {
                        assert forall|k: Seq<char>| (bound_before(frames, d, k)
                            || named_before(vars, t + 1, k))
                            <==> #[trigger] named_before(out@, out@.len() as int, k) by {
                            if named_before(vars, t + 1, k) {
                                let u = choose|u: int| 0 <= u < t + 1 && vars[u].0@ == k;
                                if u == t {
                                    let b = choose|b: int| 0 <= b < out@.len() && out@[b].0@ == name@;
                                    assert(out@[b].0@ == k);
                                } else {
                                    assert(named_before(vars, t as int, k));
                                }
                            }
                            if named_before(out@, out@.len() as int, k) {
                                if named_before(vars, t as int, k) {
                                    let u = choose|u: int| 0 <= u < t && vars[u].0@ == k;
                                    assert(named_before(vars, t + 1, k));
                                }
                            }
                        }
                    }
                }
                t = t + 1;
            }
            proof {
                assert forall|k: Seq<char>| bound_before(frames, d + 1, k)
                    <==> #[trigger] named_before(out@, out@.len() as int, k) by {
                    lemma_bindings_contains(vars, k);
                    if bound_before(frames, d + 1, k) {
                        let j = choose|j: int| 0 <= j < d + 1 && #[trigger] frames[j].vars.contains_key(k);
                        if j == d {
                            let u = choose|u: int| 0 <= u < vars.len() && vars[u].0@ == k;
                            assert(named_before(vars, vars.len() as int, k));
                        } else {
                            assert(bound_before(frames, d, k));
                        }
                    }
                    if named_before(out@, out@.len() as int, k) {
                        if !bound_before(frames, d, k) {
                            assert(named_before(vars, vars.len() as int, k));
                            let u = choose|u: int| 0 <= u < vars.len() && vars[u].0@ == k;
                            assert(frames[d].vars.contains_key(k));
                            assert(bound_before(frames, d + 1, k));
                        } else {
                            let j = choose|j: int| 0 <= j < d && #[trigger] frames[j].vars.contains_key(k);
                            assert(bound_before(frames, d + 1, k));
                        }
                    }
                }
            }
            match scope.parent {
                Some(p) => {
                    proof {
                        lemma_chain_len(m, p.0);
                        assert(chain_ids(m, scope_id) == seq![scope_id] + chain_ids(m, p.0));
                        assert(ids.skip(d)[1] == ids[d + 1]);
                        d = d + 1;
                    }
                    scope_id = p.0;
                },
                None => {
                    proof {
                        assert(chain(m, scope_id).len() == 1);
                        assert(frames.skip(d).len() == 1);
                        d = d + 1;
                    }
                    break;
                },
            }
        }
        proof {
            assert forall|k: Seq<char>| (lookup(frames, k) is Some) implies exists|i: int| 0 <= i < out@.len() && out@[i].0@ == k by {
                if !bound_before(frames, d, k) {
                    assert forall|i: int| 0 <= i < frames.len() implies !(#[trigger] frames[i].vars.contains_key(k)) by {
                        if frames[i].vars.contains_key(k) {
                            assert(bound_before(frames, d, k));
                        }
                    }
                    lemma_lookup_none(frames, k);
                } else {
                    assert(named_before(out@, out@.len() as int, k));
                }
            }
        }
        out
    }
}

impl<V> Scope<V> {
    /// A scope of the given type with no variables.
    fn new(scope_type: ScopeType, parent: Option<ScopeId>) -> (s: Self)
        ensures
            s.scope_type == scope_type,
            s.variables@.len() == 0,
            s.parent == parent,
    {
        Scope { scope_type, variables: Vec::new(), parent }
    }
}

impl<V> Default for NamespaceGraph<V> {
    fn default() -> (ns: Self)
        ensures
            ns.wf(),
            ns.frames() == seq![Frame::<V> { scope_type: ScopeType::Global, vars: Map::empty() }],
    {
        Self::new()
    }
}

/// The index of the entry named `name`, if any.
fn find_var<V>(vars: &Vec<(String, V)>, name: &str) -> (r: Option<usize>)
    ensures
        match r {
            Some(i) => i < vars@.len() && vars@[i as int].0@ == name@,
            None => forall|i: int| 0 <= i < vars@.len() ==> vars@[i].0@ != name@,
        },
{
    let mut i: usize = 0;
    while i < vars.len()
        invariant
            i <= vars@.len(),
            forall|j: int| 0 <= j < i ==> vars@[j].0@ != name@,
        decreases vars@.len() - i,
    {
        if str_eq(vars[i].0.as_str(), name) {
            return Some(i);
        }
        i = i + 1;
    }
    None
}
/// A read after a write: after `define` (which binds `name` to `value` in
/// the current scope) `get` finds `value` for `name`, and every other name
/// looks up as before.
pub proof fn lemma_define_then_lookup<V>(frames: Seq<Frame<V>>, name: Seq<char>, value: V, other: Seq<char>)
    requires
        frames.len() >= 1,
    ensures
        ({
            let after = frames.update(0, Frame { scope_type: frames[0].scope_type, vars: frames[0].vars.insert(name, value) });
            &&& lookup(after, name) == Some(value)
            &&& other != name ==> lookup(after, other) == lookup(frames, other)
        }),
{
    let after = frames.update(0, Frame { scope_type: frames[0].scope_type, vars: frames[0].vars.insert(name, value) });
    assert(after.skip(1) =~= frames.skip(1));
}

/// A new child scope sees every binding of its parent until it binds the
/// name itself: lookups through `with_parent` give the parent's values.
pub proof fn lemma_child_sees_parent<V>(frames: Seq<Frame<V>>, name: Seq<char>)
    ensures
        lookup(seq![Frame::<V> { scope_type: ScopeType::Block, vars: Map::empty() }] + frames, name) == lookup(frames, name),
{
    let all = seq![Frame::<V> { scope_type: ScopeType::Block, vars: Map::empty() }] + frames;
    assert(all.skip(1) =~= frames);
}

/// A definition in a child scope shadows the parent's binding of the same
/// name, and leaves the parent's frames untouched.
pub proof fn lemma_shadowing<V>(frames: Seq<Frame<V>>, name: Seq<char>, value: V)
    requires
        frames.len() >= 1,
    ensures
        lookup(frames.update(0, Frame { scope_type: frames[0].scope_type, vars: frames[0].vars.insert(name, value) }), name) == Some(value),
        frames.update(0, Frame { scope_type: frames[0].scope_type, vars: frames[0].vars.insert(name, value) }).skip(1) == frames.skip(1),
{
    let after = frames.update(0, Frame { scope_type: frames[0].scope_type, vars: frames[0].vars.insert(name, value) });
    assert(after.skip(1) =~= frames.skip(1));
}

/// `set` writes where the name is bound: afterwards `get` finds the new
/// value, and every other name looks up as before.
pub proof fn lemma_set_then_lookup<V>(frames: Seq<Frame<V>>, name: Seq<char>, value: V, other: Seq<char>)
    requires
        lookup(frames, name) is Some,
    ensures
        ({
            let d = binding_depth(frames, name) as int;
            let after = frames.update(d, Frame { scope_type: frames[d].scope_type, vars: frames[d].vars.insert(name, value) });
            &&& lookup(after, name) == Some(value)
            &&& other != name ==> lookup(after, other) == lookup(frames, other)
        }),
    decreases frames.len(),
{
    lemma_lookup_depth(frames, name);
    let d = binding_depth(frames, name) as int;
    let after = frames.update(d, Frame { scope_type: frames[d].scope_type, vars: frames[d].vars.insert(name, value) });
    if d == 0 {
        assert(after.skip(1) =~= frames.skip(1));
    } else {
        lemma_set_then_lookup(frames.skip(1), name, value, other);
        assert(after.skip(1) =~= frames.skip(1).update(d - 1, Frame {
            scope_type: frames[d].scope_type,
            vars: frames[d].vars.insert(name, value),
        }));
    }
}

/// Removing a name from the current scope uncovers the enclosing scopes'
/// binding of it, if any.
pub proof fn lemma_remove_uncovers<V>(frames: Seq<Frame<V>>, name: Seq<char>)
    requires
        frames.len() >= 1,
    ensures
        lookup(frames.update(0, Frame { scope_type: frames[0].scope_type, vars: frames[0].vars.remove(name) }), name)
            == lookup(frames.skip(1), name),
{
    let after = frames.update(0, Frame { scope_type: frames[0].scope_type, vars: frames[0].vars.remove(name) });
    assert(after.skip(1) =~= frames.skip(1));
}

} // verus!
