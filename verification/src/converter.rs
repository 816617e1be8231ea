//! Conversion of the AST into the execution graph.
//!
//! Every AST construct becomes one node; its parts become child nodes joined
//! by typed edges.  The bodies of lambdas, functions and graph methods get
//! arenas of their own.

use vstd::prelude::*;
use crate::arena::{ArenaId, NodeIndex, NodeRef};
use crate::ast::{
    Argument, AssignmentTarget, CatchClause, Expr, GraphMethod, GraphProperty, GraphRule, LiteralValue,
    MatchArm, MatchPattern, Parameter, Pattern, PatternClause, Program, Stmt, TypeAnnotation,
};
use crate::error::SourcePosition;
use crate::execution_graph::ExecutionGraph;
use crate::node::{AstGraphNode, AstNodeType, AstProperty, ExecEdgeType};
use crate::text::{append_decimal, decimal};

verus! {

// ---------------------------------------------------------------------------
// How many nodes a conversion adds
// ---------------------------------------------------------------------------

pub open spec fn opt_expr_nodes(e: Option<Box<Expr>>) -> nat
    decreases e,
{
    match e {
        Some(b) => expr_nodes(*b),
        None => 0,
    }
}

pub open spec fn opt_plain_expr_nodes(e: Option<Expr>) -> nat
    decreases e,
{
    match e {
        Some(x) => expr_nodes(x),
        None => 0,
    }
}

/// The number of nodes converting `e` adds.
pub open spec fn expr_nodes(e: Expr) -> nat
    decreases e,
{
    match e {
        Expr::Literal { .. } => 1,
        Expr::Variable { .. } => 1,
        Expr::Binary { left, right, .. } => 1 + expr_nodes(*left) + expr_nodes(*right),
        Expr::Unary { operand, .. } => 1 + expr_nodes(*operand),
        Expr::Call { callee, args, .. } => 1 + expr_nodes(*callee) + args_nodes(args@),
        Expr::MethodCall { object, args, .. } => 1 + expr_nodes(*object) + args_nodes(args@),
        Expr::SuperMethodCall { args, .. } => 1 + args_nodes(args@),
        Expr::PropertyAccess { object, .. } => 1 + expr_nodes(*object),
        Expr::Index { object, index, .. } => 1 + expr_nodes(*object) + expr_nodes(*index),
        Expr::Lambda { body, .. } => 1 + expr_nodes(*body),
        Expr::Block { statements, .. } => 1 + stmts_nodes(statements@),
        Expr::List { elements, .. } => 1 + exprs_nodes(elements@),
        Expr::MapLit { entries, .. } => 1 + entries_nodes(entries@),
        Expr::Graph { config, parent, .. } => 1 + settings_nodes(config@) + opt_expr_nodes(parent),
        Expr::Conditional { condition, then_expr, else_expr, .. } =>
            1 + expr_nodes(*condition) + expr_nodes(*then_expr) + opt_expr_nodes(else_expr),
        Expr::Raise { error, .. } => 1 + expr_nodes(*error),
        Expr::Match { value, arms, .. } => 1 + expr_nodes(*value) + arms_nodes(arms@),
        Expr::Instantiate { class_name, overrides, .. } => 1 + expr_nodes(*class_name) + entries_nodes(overrides@),
    }
}

pub open spec fn exprs_nodes(s: Seq<Expr>) -> nat
    decreases s,
{
    if s.len() == 0 { 0 } else { expr_nodes(s[0]) + exprs_nodes(s.subrange(1, s.len() as int)) }
}

/// A mutable positional argument gets a wrapper node; a named one always does.
pub open spec fn arg_nodes(a: Argument) -> nat
    decreases a,
{
    match a {
        Argument::Positional { expr, mutable } => expr_nodes(expr) + if mutable { 1nat } else { 0nat },
        Argument::Named { value, .. } => 1 + expr_nodes(value),
    }
}

pub open spec fn args_nodes(s: Seq<Argument>) -> nat
    decreases s,
{
    if s.len() == 0 { 0 } else { arg_nodes(s[0]) + args_nodes(s.subrange(1, s.len() as int)) }
}

/// Key/value entries each become an entry node with the value below it.
pub open spec fn entries_nodes(s: Seq<(String, Expr)>) -> nat
    decreases s,
{
    if s.len() == 0 { 0 } else { 1 + expr_nodes(s[0].1) + entries_nodes(s.subrange(1, s.len() as int)) }
}

/// Settings are edges straight to their values.
pub open spec fn settings_nodes(s: Seq<(String, Expr)>) -> nat
    decreases s,
{
    if s.len() == 0 { 0 } else { expr_nodes(s[0].1) + settings_nodes(s.subrange(1, s.len() as int)) }
}

pub open spec fn pattern_nodes(p: MatchPattern) -> nat
    decreases p,
{
    match p {
        MatchPattern::List { elements, .. } => 1 + patterns_nodes(elements@),
        _ => 1,
    }
}

pub open spec fn patterns_nodes(s: Seq<MatchPattern>) -> nat
    decreases s,
{
    if s.len() == 0 { 0 } else { pattern_nodes(s[0]) + patterns_nodes(s.subrange(1, s.len() as int)) }
}

pub open spec fn arm_nodes(a: MatchArm) -> nat
    decreases a,
{
    1 + pattern_nodes(a.pattern) + expr_nodes(a.body)
}

pub open spec fn arms_nodes(s: Seq<MatchArm>) -> nat
    decreases s,
{
    if s.len() == 0 { 0 } else { arm_nodes(s[0]) + arms_nodes(s.subrange(1, s.len() as int)) }
}

pub open spec fn param_nodes(p: Parameter) -> nat
    decreases p,
{
    1 + opt_plain_expr_nodes(p.default_value)
}

pub open spec fn params_nodes(s: Seq<Parameter>) -> nat
    decreases s,
{
    if s.len() == 0 { 0 } else { param_nodes(s[0]) + params_nodes(s.subrange(1, s.len() as int)) }
}

pub open spec fn clause_nodes(c: PatternClause) -> nat
    decreases c,
{
    2 + expr_nodes(c.body) + opt_plain_expr_nodes(c.guard)
}

pub open spec fn clauses_nodes(s: Seq<PatternClause>) -> nat
    decreases s,
{
    if s.len() == 0 { 0 } else { clause_nodes(s[0]) + clauses_nodes(s.subrange(1, s.len() as int)) }
}

pub open spec fn opt_clauses_nodes(c: Option<Vec<PatternClause>>) -> nat
    decreases c,
{
    match c {
        Some(v) => clauses_nodes(v@),
        None => 0,
    }
}

pub open spec fn catch_nodes(c: CatchClause) -> nat
    decreases c,
{
    2 + stmts_nodes(c.body@)
}

pub open spec fn catches_nodes(s: Seq<CatchClause>) -> nat
    decreases s,
{
    if s.len() == 0 { 0 } else { catch_nodes(s[0]) + catches_nodes(s.subrange(1, s.len() as int)) }
}

pub open spec fn property_nodes(p: GraphProperty) -> nat
    decreases p,
{
    1 + expr_nodes(p.value)
}

pub open spec fn properties_nodes(s: Seq<GraphProperty>) -> nat
    decreases s,
{
    if s.len() == 0 { 0 } else { property_nodes(s[0]) + properties_nodes(s.subrange(1, s.len() as int)) }
}

pub open spec fn method_nodes(m: GraphMethod) -> nat
    decreases m,
{
    2 + params_nodes(m.params@) + stmts_nodes(m.body@) + opt_expr_nodes(m.guard)
}

pub open spec fn methods_nodes(s: Seq<GraphMethod>) -> nat
    decreases s,
{
    if s.len() == 0 { 0 } else { method_nodes(s[0]) + methods_nodes(s.subrange(1, s.len() as int)) }
}

pub open spec fn rule_nodes(r: GraphRule) -> nat
    decreases r,
{
    1 + opt_plain_expr_nodes(r.param)
}

pub open spec fn rules_nodes(s: Seq<GraphRule>) -> nat
    decreases s,
{
    if s.len() == 0 { 0 } else { rule_nodes(s[0]) + rules_nodes(s.subrange(1, s.len() as int)) }
}

pub open spec fn opt_block_nodes(b: Option<Vec<Stmt>>) -> nat
    decreases b,
{
    match b {
        Some(v) => 1 + stmts_nodes(v@),
        None => 0,
    }
}

/// The number of nodes converting `s` adds.
pub open spec fn stmt_nodes(s: Stmt) -> nat
    decreases s,
{
    match s {
        Stmt::Expression { expr, .. } => 1 + expr_nodes(expr),
        Stmt::VariableDecl { value, .. } => 1 + expr_nodes(value),
        Stmt::Assignment { target, value, .. } => 1 + expr_nodes(value) + match target {
            AssignmentTarget::Variable(_) => 0nat,
            AssignmentTarget::Index { object, index } => expr_nodes(*object) + expr_nodes(*index),
            AssignmentTarget::Property { object, .. } => expr_nodes(*object),
        },
        Stmt::FunctionDecl { params, body, pattern_clauses, guard, .. } =>
            2 + params_nodes(params@) + stmts_nodes(body@) + opt_clauses_nodes(pattern_clauses) + opt_expr_nodes(guard),
        Stmt::If { condition, then_branch, else_branch, .. } =>
            2 + expr_nodes(condition) + stmts_nodes(then_branch@) + opt_block_nodes(else_branch),
        Stmt::While { condition, body, .. } => 2 + expr_nodes(condition) + stmts_nodes(body@),
        Stmt::For { iterable, body, .. } => 2 + expr_nodes(iterable) + stmts_nodes(body@),
        Stmt::Return { value, .. } => 1 + opt_plain_expr_nodes(value),
        Stmt::Break { .. } => 1,
        Stmt::Continue { .. } => 1,
        Stmt::Import { .. } => 1,
        Stmt::Load { .. } => 2,
        Stmt::ModuleDecl { .. } => 1,
        Stmt::Configure { settings, body, .. } => 1 + settings_nodes(settings@) + opt_block_nodes(body),
        Stmt::Precision { body, .. } => 2 + stmts_nodes(body@),
        Stmt::Try { body, catch_clauses, finally_block, .. } =>
            2 + stmts_nodes(body@) + catches_nodes(catch_clauses@) + opt_block_nodes(finally_block),
        Stmt::GraphDecl { parent, properties, methods, rules, config, .. } =>
            1 + opt_expr_nodes(parent) + properties_nodes(properties@) + methods_nodes(methods@) + rules_nodes(rules@)
                + config@.len(),
    }
}

pub open spec fn stmts_nodes(s: Seq<Stmt>) -> nat
    decreases s,
{
    if s.len() == 0 { 0 } else { stmt_nodes(s[0]) + stmts_nodes(s.subrange(1, s.len() as int)) }
}

// ---------------------------------------------------------------------------
// The node each construct becomes
// ---------------------------------------------------------------------------

pub open spec fn literal_node_type(v: LiteralValue) -> AstNodeType {
    match v {
        LiteralValue::Number(_) => AstNodeType::NumberLit,
        LiteralValue::String(_) => AstNodeType::StringLit,
        LiteralValue::Boolean(_) => AstNodeType::BoolLit,
        LiteralValue::NoneValue => AstNodeType::NoneLit,
        LiteralValue::Symbol(_) => AstNodeType::SymbolLit,
    }
}

pub open spec fn expr_node_type(e: Expr) -> AstNodeType {
    match e {
        Expr::Literal { value, .. } => literal_node_type(value),
        Expr::Variable { .. } => AstNodeType::Identifier,
        Expr::Binary { .. } => AstNodeType::BinaryExpr,
        Expr::Unary { .. } => AstNodeType::UnaryExpr,
        Expr::Call { .. } => AstNodeType::CallExpr,
        Expr::MethodCall { .. } => AstNodeType::MethodCallExpr,
        Expr::SuperMethodCall { .. } => AstNodeType::SuperMethodCallExpr,
        Expr::PropertyAccess { .. } => AstNodeType::PropertyAccessExpr,
        Expr::Index { .. } => AstNodeType::IndexExpr,
        Expr::Lambda { .. } => AstNodeType::LambdaExpr,
        Expr::Block { .. } => AstNodeType::BlockExpr,
        Expr::List { .. } => AstNodeType::ListExpr,
        Expr::MapLit { .. } => AstNodeType::MapExpr,
        Expr::Graph { .. } => AstNodeType::GraphExpr,
        Expr::Conditional { .. } => AstNodeType::ConditionalExpr,
        Expr::Raise { .. } => AstNodeType::RaiseExpr,
        Expr::Match { .. } => AstNodeType::MatchExpr,
        Expr::Instantiate { .. } => AstNodeType::InstantiateExpr,
    }
}

pub open spec fn stmt_node_type(s: Stmt) -> AstNodeType {
    match s {
        Stmt::Expression { .. } => AstNodeType::ExpressionStmt,
        Stmt::VariableDecl { .. } => AstNodeType::VarDeclStmt,
        Stmt::Assignment { .. } => AstNodeType::AssignStmt,
        Stmt::FunctionDecl { .. } => AstNodeType::FuncDeclStmt,
        Stmt::If { .. } => AstNodeType::IfStmt,
        Stmt::While { .. } => AstNodeType::WhileStmt,
        Stmt::For { .. } => AstNodeType::ForStmt,
        Stmt::Return { .. } => AstNodeType::ReturnStmt,
        Stmt::Break { .. } => AstNodeType::BreakStmt,
        Stmt::Continue { .. } => AstNodeType::ContinueStmt,
        Stmt::Import { .. } => AstNodeType::ImportStmt,
        Stmt::Load { .. } => AstNodeType::LoadStmt,
        Stmt::ModuleDecl { .. } => AstNodeType::ModuleDeclStmt,
        Stmt::Configure { .. } => AstNodeType::ConfigureStmt,
        Stmt::Precision { .. } => AstNodeType::PrecisionStmt,
        Stmt::Try { .. } => AstNodeType::TryStmt,
        Stmt::GraphDecl { .. } => AstNodeType::GraphDeclStmt,
    }
}

/// A non-mutable positional argument is its expression's own node; the
/// others get a wrapper node.
pub open spec fn arg_node_type(a: Argument) -> AstNodeType {
    match a {
        Argument::Positional { expr, mutable } => if mutable { AstNodeType::ExpressionStmt } else { expr_node_type(expr) },
        Argument::Named { .. } => AstNodeType::ExpressionStmt,
    }
}

// ---------------------------------------------------------------------------
// Growth of the graph
// ---------------------------------------------------------------------------

/// `b` is `a` with nodes, arenas and edges from the new nodes added:
/// nothing that was there changed, and no more arenas were added than nodes.
pub open spec fn grew(a: ExecutionGraph, b: ExecutionGraph) -> bool {
    &&& b.wf()
    &&& a.total_nodes() <= b.total_nodes()
    &&& a.next_arena_id() <= b.next_arena_id()
    &&& b.next_arena_id() - a.next_arena_id() <= b.total_nodes() - a.total_nodes()
    &&& forall|id: u32| a.arenas().contains_key(id) ==> #[trigger] b.arenas().contains_key(id)
    &&& forall|r: NodeRef| a.node(r) is Some ==> #[trigger] b.node(r) == a.node(r)
    &&& forall|r: NodeRef| a.node(r) is Some ==> #[trigger] b.edges_from(r) == a.edges_from(r)
}

/// `b` is `a` grown as `grew` says, except that edges may have been added
/// from `from`.
pub open spec fn grew_from(a: ExecutionGraph, b: ExecutionGraph, from: NodeRef) -> bool {
    &&& b.wf()
    &&& a.total_nodes() <= b.total_nodes()
    &&& a.next_arena_id() <= b.next_arena_id()
    &&& b.next_arena_id() - a.next_arena_id() <= b.total_nodes() - a.total_nodes()
    &&& forall|id: u32| a.arenas().contains_key(id) ==> #[trigger] b.arenas().contains_key(id)
    &&& forall|r: NodeRef| a.node(r) is Some ==> #[trigger] b.node(r) == a.node(r)
    &&& forall|r: NodeRef| a.node(r) is Some && r != from ==> #[trigger] b.edges_from(r) == a.edges_from(r)
}

/// Every node with outgoing edges is a node of the graph.
pub open spec fn edges_from_nodes(g: ExecutionGraph) -> bool {
    forall|r: NodeRef| #[trigger] g.edges_from(r).len() > 0 ==> g.node(r) is Some
}

/// `n` more nodes and arenas fit in the `u32` ids and indices.
pub open spec fn room(g: ExecutionGraph, n: nat) -> bool {
    g.total_nodes() + n < u32::MAX && g.next_arena_id() + n < u32::MAX
}

/// `b` is `a` with exactly `n` nodes added.
pub open spec fn added(a: ExecutionGraph, b: ExecutionGraph, n: nat) -> bool {
    grew(a, b) && b.total_nodes() == a.total_nodes() + n
}

/// `r` is a node of `b` that `a` did not have, of type `t`.
pub open spec fn fresh_node(a: ExecutionGraph, b: ExecutionGraph, r: NodeRef, t: AstNodeType) -> bool {
    &&& a.node(r) is None
    &&& b.node(r) matches Some(n) && n.node_type == t
}

// ---------------------------------------------------------------------------
// What a converted expression looks like
// ---------------------------------------------------------------------------

/// The single property of a node: its key and value.
pub open spec fn only_property(n: AstGraphNode, key: Seq<char>, value: AstProperty) -> bool {
    n.properties@.len() == 1 && n.properties@[0].0@ == key && n.properties@[0].1 == value
}

/// The properties of a literal's node: its `value`, none for `none`.
pub open spec fn literal_properties(n: AstGraphNode, v: LiteralValue) -> bool {
    match v {
        LiteralValue::Number(x) => only_property(n, "value"@, AstProperty::Num(x)),
        LiteralValue::Boolean(b) => only_property(n, "value"@, AstProperty::Bool(b)),
        LiteralValue::NoneValue => n.properties@.len() == 0,
        LiteralValue::String(t) => string_property(n, "value"@, t@),
        LiteralValue::Symbol(t) => string_property(n, "value"@, t@),
    }
}

/// The single property of a node is the text `value` under `key`.
pub open spec fn string_property(n: AstGraphNode, key: Seq<char>, value: Seq<char>) -> bool {
    &&& n.properties@.len() == 1
    &&& n.properties@[0].0@ == key
    &&& n.properties@[0].1 matches AstProperty::Str(p) && p@ == value
}

/// Where the next node added to arena `a` of `g` goes: the arena's next
/// free index.
pub open spec fn next_slot(g: ExecutionGraph, a: ArenaId) -> NodeRef {
    NodeRef { arena_id: a, index: NodeIndex(g.arenas()[a.0].len() as u32) }
}

/// Node `r` lies in an arena that held none of the nodes of `g0`.
pub open spec fn in_new_arena(g0: ExecutionGraph, r: NodeRef) -> bool {
    forall|q: NodeRef| #[trigger] g0.node(q) is Some ==> q.arena_id != r.arena_id
}

/// A node in an arena that held none of `a0`'s nodes is in one that held
/// none of an earlier graph's either.
pub proof fn lemma_in_new_arena_stays(a0: ExecutionGraph, b0: ExecutionGraph, r: NodeRef)
    requires
        in_new_arena(a0, r),
        forall|q: NodeRef| b0.node(q) is Some ==> #[trigger] a0.node(q) is Some,
    ensures
        in_new_arena(b0, r),
{
    assert forall|q: NodeRef| #[trigger] b0.node(q) is Some implies q.arena_id != r.arena_id by {
        assert(a0.node(q) is Some);
    }
}

/// A property holding the text `t`.
pub open spec fn text_is(p: AstProperty, t: Seq<char>) -> bool {
    p matches AstProperty::Str(s) && s@ == t
}

/// From index `start` on, `ps` holds one property per text of `values`, in
/// order: the `k`-th under the key `prefix` followed by `k` in decimal.
pub open spec fn numbered_texts(ps: Seq<(String, AstProperty)>, start: int, prefix: Seq<char>, values: Seq<String>) -> bool {
    forall|k: int| 0 <= k < values.len() ==> #[trigger] numbered_text_at(ps, start, prefix, values, k)
}

/// Property `start + k` of `ps` holds the `k`-th text of `values` under the
/// key `prefix` followed by `k` in decimal.
pub open spec fn numbered_text_at(ps: Seq<(String, AstProperty)>, start: int, prefix: Seq<char>, values: Seq<String>, k: int) -> bool {
    ps[start + k].0@ == prefix + decimal(k as nat) && text_is(ps[start + k].1, values[k]@)
}

/// The properties of a lambda's node: `param_count`, then `param_<k>`
/// holding the name of its `k`-th parameter.
pub open spec fn lambda_properties(n: AstGraphNode, params: Seq<String>) -> bool {
    let ps = n.properties@;
    &&& ps.len() == params.len() + 1
    &&& ps[0].0@ == "param_count"@ && ps[0].1 == AstProperty::Int(params.len() as i64)
    &&& numbered_texts(ps, 1, "param_"@, params)
}

/// The `value` property of a literal pattern: the literal's number, text,
/// flag or symbol name, or `NoneValue`.
pub open spec fn literal_value_is(p: AstProperty, v: LiteralValue) -> bool {
    match v {
        LiteralValue::Number(x) => p == AstProperty::Num(x),
        LiteralValue::Boolean(b) => p == AstProperty::Bool(b),
        LiteralValue::NoneValue => p == AstProperty::NoneValue,
        LiteralValue::String(t) => text_is(p, t@),
        LiteralValue::Symbol(t) => text_is(p, t@),
    }
}

/// Node `r` of `g` was built since `g0` for match pattern `p`: a
/// `MatchPatternNode` at the unknown position whose first property is its
/// `pattern_type`, and:
/// - a literal pattern (`literal`) carries its `value`;
/// - a variable pattern (`variable`) carries its `name`;
/// - a wildcard (`wildcard`) carries nothing more;
/// - a list pattern (`list`) carries its `element_count` and `rest_name` (if
///   any), and has an `Element(i)` edge to the node built for its `i`-th
///   element;
/// only a list pattern has edges.
pub open spec fn pattern_built(g0: ExecutionGraph, g: ExecutionGraph, r: NodeRef, p: MatchPattern) -> bool
    decreases p,
{
    let es = g.edges_from(r);
    let ps = g.node(r)->0.properties@;
    &&& g0.node(r) is None
    &&& g.node(r) matches Some(n) && n.node_type == AstNodeType::MatchPatternNode
        && n.position.line == 0 && n.position.column == 0
    &&& ps.len() >= 1 && ps[0].0@ == "pattern_type"@
    &&& match p {
        MatchPattern::Literal(v) => {
            &&& text_is(ps[0].1, "literal"@) && ps.len() == 2 && es.len() == 0
            &&& ps[1].0@ == "value"@ && literal_value_is(ps[1].1, v)
        },
        MatchPattern::Variable(name) => {
            &&& text_is(ps[0].1, "variable"@) && ps.len() == 2 && es.len() == 0
            &&& ps[1].0@ == "name"@ && text_is(ps[1].1, name@)
        },
        MatchPattern::Wildcard => text_is(ps[0].1, "wildcard"@) && ps.len() == 1 && es.len() == 0,
        MatchPattern::List { elements, rest_name } => {
            &&& text_is(ps[0].1, "list"@)
            &&& ps.len() == (if rest_name is Some { 3int } else { 2int })
            &&& ps[1].0@ == "element_count"@ && ps[1].1 == AstProperty::Int(elements@.len() as i64)
            &&& (rest_name matches Some(rn) ==> (ps[2].0@ == "rest_name"@ && text_is(ps[2].1, rn@)))
            &&& es.len() == elements@.len()
            &&& forall|i: int| #![trigger es[i]] 0 <= i < elements@.len()
                ==> es[i].0 == ExecEdgeType::Element(i as u32) && pattern_built(g0, g, es[i].1, elements@[i])
        },
    }
}

/// What was built for a match pattern stays so while the graph grows (see
/// `lemma_expr_built_stays`).
pub proof fn lemma_pattern_built_stays(a0: ExecutionGraph, a: ExecutionGraph, b0: ExecutionGraph, b: ExecutionGraph, r: NodeRef, p: MatchPattern)
    requires
        pattern_built(a0, a, r, p),
        forall|q: NodeRef| b0.node(q) is Some ==> #[trigger] a0.node(q) is Some,
        forall|q: NodeRef| a.node(q) is Some ==> #[trigger] b.node(q) == a.node(q),
        forall|q: NodeRef| a.node(q) is Some && a0.node(q) is None ==> #[trigger] b.edges_from(q) == a.edges_from(q),
    ensures
        pattern_built(b0, b, r, p),
    decreases p,
{
    match p {
        MatchPattern::List { elements, .. } => {
            let es = a.edges_from(r);
            assert forall|i: int| #![trigger es[i]] 0 <= i < elements@.len() implies pattern_built(b0, b, es[i].1, elements@[i]) by {
                lemma_pattern_built_stays(a0, a, b0, b, es[i].1, elements@[i]);
            }
        },
        _ => {},
    }
}

/// `r` is an `ExpressionStmt` node built since `g0`, at `pos`, with a
/// single `ValueEdge`.
pub open spec fn wrapper_node(g0: ExecutionGraph, g: ExecutionGraph, r: NodeRef, pos: SourcePosition) -> bool {
    &&& g0.node(r) is None
    &&& g.node(r) matches Some(n) && n.node_type == AstNodeType::ExpressionStmt && n.position == pos
    &&& g.edges_from(r).len() == 1
    &&& g.edges_from(r)[0].0 == ExecEdgeType::ValueEdge
}

/// Node `r` of `g` was built since `g0` for call argument `a`: a positional
/// argument not marked `mut` is its expression's node; the others are an
/// `ExpressionStmt` wrapper at the expression's position, carrying
/// `arg_name` (named arguments) and `mutable` (when marked), with a
/// `ValueEdge` to the expression's node.
pub open spec fn arg_built(g0: ExecutionGraph, g: ExecutionGraph, r: NodeRef, a: Argument) -> bool
    decreases a, 0int,
{
    match a {
        Argument::Positional { expr, mutable } => if !mutable {
            expr_built(g0, g, r, expr)
        } else {
            &&& wrapper_node(g0, g, r, expr.position_spec())
            &&& only_property(g.node(r)->0, "mutable"@, AstProperty::Bool(true))
            &&& expr_built(g0, g, g.edges_from(r)[0].1, expr)
        },
        Argument::Named { name, value, mutable } => {
            &&& wrapper_node(g0, g, r, value.position_spec())
            &&& g.node(r)->0.properties@.len() == (if mutable { 2int } else { 1int })
            &&& g.node(r)->0.properties@[0].0@ == "arg_name"@
            &&& g.node(r)->0.properties@[0].1 matches AstProperty::Str(p) && p@ == name@
            &&& (mutable ==> (g.node(r)->0.properties@[1].0@ == "mutable"@
                && g.node(r)->0.properties@[1].1 == AstProperty::Bool(true)))
            &&& expr_built(g0, g, g.edges_from(r)[0].1, value)
        },
    }
}

/// Edges `es` are `Argument(i)` edges, one per argument in order, each to
/// the node built since `g0` for that argument.
pub open spec fn args_built(g0: ExecutionGraph, g: ExecutionGraph, es: Seq<(ExecEdgeType, NodeRef)>, args: Seq<Argument>) -> bool
    decreases args, 0int,
{
    &&& es.len() == args.len()
    &&& forall|i: int| #![trigger es[i]] 0 <= i < args.len()
        ==> es[i].0 == ExecEdgeType::Argument(i as u32) && arg_built(g0, g, es[i].1, args[i])
}

/// Node `r` of `g` is a block built since `g0` at `pos`: a `BlockExpr` node
/// without properties, with an `Element(i)` edge to the node built for the
/// `i`-th statement, which lies in the block's arena.
pub open spec fn block_built(g0: ExecutionGraph, g: ExecutionGraph, r: NodeRef, stmts: Seq<Stmt>, pos: SourcePosition) -> bool
    decreases stmts, 0int,
{
    let es = g.edges_from(r);
    &&& g0.node(r) is None
    &&& g.node(r) matches Some(n) && n.node_type == AstNodeType::BlockExpr && n.position == pos && n.properties@.len() == 0
    &&& es.len() == stmts.len()
    &&& forall|i: int| #![trigger es[i]] 0 <= i < stmts.len()
        ==> es[i].0 == ExecEdgeType::Element(i as u32) && stmt_built(g0, g, es[i].1, stmts[i])
        && es[i].1.arena_id == r.arena_id
}

/// The properties of a variable declaration's node: `name`, `is_private`,
/// then the annotated type's `type_base` and `type_constraint` where given.
pub open spec fn declaration_properties(n: AstGraphNode, name: String, ta: Option<TypeAnnotation>, is_private: bool) -> bool {
    let ps = n.properties@;
    &&& ps.len() == 2 + match ta {
        Some(t) => if t.constraint is Some { 2int } else { 1int },
        None => 0int,
    }
    &&& ps[0].0@ == "name"@ && (ps[0].1 matches AstProperty::Str(v) && v@ == name@)
    &&& ps[1].0@ == "is_private"@ && ps[1].1 == AstProperty::Bool(is_private)
    &&& (ta matches Some(t) ==> (ps[2].0@ == "type_base"@ && (ps[2].1 matches AstProperty::Str(v) && v@ == t.base_type@)))
    &&& (ta matches Some(t) ==> (t.constraint matches Some(c) ==> (ps[3].0@ == "type_constraint"@
        && (ps[3].1 matches AstProperty::Str(v) && v@ == c@))))
}

/// Node `r` of `g` is a program built since `g0`: a `Program` node at the
/// unknown position, without properties, with an `Element(i)` edge to the
/// node built for the `i`-th statement.
pub open spec fn program_built(g0: ExecutionGraph, g: ExecutionGraph, r: NodeRef, stmts: Seq<Stmt>) -> bool {
    let es = g.edges_from(r);
    &&& g0.node(r) is None
    &&& g.node(r) matches Some(n) && n.node_type == AstNodeType::Program && n.position == (SourcePosition { line: 0, column: 0 })
        && n.properties@.len() == 0
    &&& es.len() == stmts.len()
    &&& forall|i: int| #![trigger es[i]] 0 <= i < stmts.len()
        ==> es[i].0 == ExecEdgeType::Element(i as u32) && stmt_built(g0, g, es[i].1, stmts[i])
        && es[i].1.arena_id == r.arena_id
}

/// Node `r` of `g` was built since `g0` for property `p` of a graph
/// declaration: a `GraphPropertyNode` at the property's position carrying
/// its `name`, with a `ValueEdge` to the node built for its value.
pub open spec fn property_built(g0: ExecutionGraph, g: ExecutionGraph, r: NodeRef, p: GraphProperty) -> bool
    decreases p, 0int,
{
    let es = g.edges_from(r);
    &&& g0.node(r) is None
    &&& g.node(r) matches Some(n) && n.node_type == AstNodeType::GraphPropertyNode && n.position == p.position
    &&& string_property(g.node(r)->0, "name"@, p.name@)
    &&& es.len() == 1 && es[0].0 == ExecEdgeType::ValueEdge
    &&& expr_built(g0, g, es[0].1, p.value)
}

/// Edges `es` are `Property(i)` edges, one per property in order, each to the
/// node built since `g0` for that property.
pub open spec fn properties_built(g0: ExecutionGraph, g: ExecutionGraph, es: Seq<(ExecEdgeType, NodeRef)>, items: Seq<GraphProperty>) -> bool
    decreases items, 0int,
{
    &&& es.len() == items.len()
    &&& forall|i: int| #![trigger es[i]] 0 <= i < items.len()
        ==> es[i].0 == ExecEdgeType::Property(i as u32) && property_built(g0, g, es[i].1, items[i])
}

/// Node `r` of `g` was built since `g0` for method `m` of a graph
/// declaration: a `GraphMethodNode` at the method's position carrying its
/// `name`, `is_static`, `is_setter`, `is_private` and `param_count`, with a
/// `Parameter(i)` edge to the node built for each parameter (see
/// `param_built`), a `Body` edge to its body block (in an arena of its own),
/// then a `Guard` edge to its guard's node if it has one.
pub open spec fn method_built(g0: ExecutionGraph, g: ExecutionGraph, r: NodeRef, m: GraphMethod) -> bool
    decreases m, 0int,
{
    let es = g.edges_from(r);
    let ps = g.node(r)->0.properties@;
    let np = m.params@.len() as int;
    &&& g0.node(r) is None
    &&& g.node(r) matches Some(n) && n.node_type == AstNodeType::GraphMethodNode && n.position == m.position
    &&& ps.len() == 5
    &&& ps[0].0@ == "name"@ && text_is(ps[0].1, m.name@)
    &&& ps[1].0@ == "is_static"@ && ps[1].1 == AstProperty::Bool(m.is_static)
    &&& ps[2].0@ == "is_setter"@ && ps[2].1 == AstProperty::Bool(m.is_setter)
    &&& ps[3].0@ == "is_private"@ && ps[3].1 == AstProperty::Bool(m.is_private)
    &&& ps[4].0@ == "param_count"@ && ps[4].1 == AstProperty::Int(m.params@.len() as i64)
    &&& es.len() == np + 1 + (if m.guard is Some { 1int } else { 0int })
    &&& params_built(g0, g, es.subrange(0, np), m.params@)
    &&& es[np].0 == ExecEdgeType::Body && block_built(g0, g, es[np].1, m.body@, m.position)
    &&& in_new_arena(g0, es[np].1)
    &&& (m.guard matches Some(x) ==> (es[np + 1].0 == ExecEdgeType::Guard && expr_built(g0, g, es[np + 1].1, *x)))
}

/// Edges `es` are `GraphMethod(i)` edges, one per method in order, each to the
/// node built since `g0` for that method.
pub open spec fn methods_built(g0: ExecutionGraph, g: ExecutionGraph, es: Seq<(ExecEdgeType, NodeRef)>, items: Seq<GraphMethod>) -> bool
    decreases items, 0int,
{
    &&& es.len() == items.len()
    &&& forall|i: int| #![trigger es[i]] 0 <= i < items.len()
        ==> es[i].0 == ExecEdgeType::GraphMethod(i as u32) && method_built(g0, g, es[i].1, items[i])
}

/// Node `r` of `g` was built since `g0` for rule `rl` of a graph
/// declaration: a `GraphRuleNode` at the rule's position carrying its
/// `name`, with a `ValueEdge` to the node built for its parameter if it has
/// one, and no other edge.
pub open spec fn rule_built(g0: ExecutionGraph, g: ExecutionGraph, r: NodeRef, rl: GraphRule) -> bool
    decreases rl, 0int,
{
    let es = g.edges_from(r);
    &&& g0.node(r) is None
    &&& g.node(r) matches Some(n) && n.node_type == AstNodeType::GraphRuleNode && n.position == rl.position
    &&& string_property(g.node(r)->0, "name"@, rl.name@)
    &&& es.len() == (if rl.param is Some { 1int } else { 0int })
    &&& (rl.param matches Some(x) ==> (es[0].0 == ExecEdgeType::ValueEdge && expr_built(g0, g, es[0].1, x)))
}

/// Edges `es` are `Rule(i)` edges, one per rule in order, each to the
/// node built since `g0` for that rule.
pub open spec fn rules_built(g0: ExecutionGraph, g: ExecutionGraph, es: Seq<(ExecEdgeType, NodeRef)>, items: Seq<GraphRule>) -> bool
    decreases items, 0int,
{
    &&& es.len() == items.len()
    &&& forall|i: int| #![trigger es[i]] 0 <= i < items.len()
        ==> es[i].0 == ExecEdgeType::Rule(i as u32) && rule_built(g0, g, es[i].1, items[i])
}

/// Node `r` of `g` was built since `g0` for an access setting of a graph
/// declaration: a `MapEntryNode` at `pos` without edges, carrying the `key`,
/// each of the `values` as `value_<j>` (see `numbered_texts`), then their
/// `count`.
pub open spec fn config_entry_built(g0: ExecutionGraph, g: ExecutionGraph, r: NodeRef, key: Seq<char>, values: Seq<String>, pos: SourcePosition) -> bool {
    let ps = g.node(r)->0.properties@;
    &&& g0.node(r) is None
    &&& g.node(r) matches Some(n) && n.node_type == AstNodeType::MapEntryNode && n.position == pos
    &&& g.edges_from(r).len() == 0
    &&& ps.len() == values.len() + 2
    &&& ps[0].0@ == "key"@ && text_is(ps[0].1, key)
    &&& numbered_texts(ps, 1, "value_"@, values)
    &&& ps[values.len() + 1int].0@ == "count"@ && ps[values.len() + 1int].1 == AstProperty::Int(values.len() as i64)
}

/// Edges `es` are `Setting(key)` edges, one per entry of `config` in order,
/// each to the entry node built since `g0` for it at `pos`.
pub open spec fn config_children(
    g0: ExecutionGraph,
    g: ExecutionGraph,
    es: Seq<(ExecEdgeType, NodeRef)>,
    config: Seq<(String, Vec<String>)>,
    pos: SourcePosition,
) -> bool {
    &&& es.len() == config.len()
    &&& forall|i: int| #![trigger es[i]] 0 <= i < config.len() ==> (es[i].0 matches ExecEdgeType::Setting(k)
        && k@ == config[i].0@) && config_entry_built(g0, g, es[i].1, config[i].0@, config[i].1@, pos)
}

/// What was built for a property of a graph declaration stays so while the
/// graph grows (see `lemma_expr_built_stays`).
pub proof fn lemma_property_built_stays(a0: ExecutionGraph, a: ExecutionGraph, b0: ExecutionGraph, b: ExecutionGraph, r: NodeRef, p: GraphProperty)
    requires
        property_built(a0, a, r, p),
        forall|q: NodeRef| b0.node(q) is Some ==> #[trigger] a0.node(q) is Some,
        forall|q: NodeRef| a.node(q) is Some ==> #[trigger] b.node(q) == a.node(q),
        forall|q: NodeRef| a.node(q) is Some && a0.node(q) is None ==> #[trigger] b.edges_from(q) == a.edges_from(q),
    ensures
        property_built(b0, b, r, p),
    decreases p, 0int,
{
    lemma_expr_built_stays(a0, a, b0, b, a.edges_from(r)[0].1, p.value);
}

/// What was built for the properties of a graph declaration stays so while the
/// graph grows (see `lemma_expr_built_stays`).
pub proof fn lemma_properties_built_stays(
    a0: ExecutionGraph,
    a: ExecutionGraph,
    b0: ExecutionGraph,
    b: ExecutionGraph,
    es: Seq<(ExecEdgeType, NodeRef)>,
    items: Seq<GraphProperty>,
)
    requires
        properties_built(a0, a, es, items),
        forall|q: NodeRef| b0.node(q) is Some ==> #[trigger] a0.node(q) is Some,
        forall|q: NodeRef| a.node(q) is Some ==> #[trigger] b.node(q) == a.node(q),
        forall|q: NodeRef| a.node(q) is Some && a0.node(q) is None ==> #[trigger] b.edges_from(q) == a.edges_from(q),
    ensures
        properties_built(b0, b, es, items),
    decreases items, 0int,
{
    assert forall|i: int| #![trigger es[i]] 0 <= i < items.len() implies property_built(b0, b, es[i].1, items[i]) by {
        lemma_property_built_stays(a0, a, b0, b, es[i].1, items[i]);
    }
}

/// What was built for a method of a graph declaration stays so while the
/// graph grows (see `lemma_expr_built_stays`).
pub proof fn lemma_method_built_stays(a0: ExecutionGraph, a: ExecutionGraph, b0: ExecutionGraph, b: ExecutionGraph, r: NodeRef, m: GraphMethod)
    requires
        method_built(a0, a, r, m),
        forall|q: NodeRef| b0.node(q) is Some ==> #[trigger] a0.node(q) is Some,
        forall|q: NodeRef| a.node(q) is Some ==> #[trigger] b.node(q) == a.node(q),
        forall|q: NodeRef| a.node(q) is Some && a0.node(q) is None ==> #[trigger] b.edges_from(q) == a.edges_from(q),
    ensures
        method_built(b0, b, r, m),
    decreases m, 0int,
{
    let es = a.edges_from(r);
    let np = m.params@.len() as int;
    lemma_params_built_stays(a0, a, b0, b, es.subrange(0, np), m.params@);
    lemma_block_built_stays(a0, a, b0, b, es[np].1, m.body@, m.position);
    lemma_in_new_arena_stays(a0, b0, es[np].1);
    match m.guard {
        Some(x) => {
            lemma_expr_built_stays(a0, a, b0, b, es[np + 1].1, *x);
        },
        None => {},
    }
}

/// What was built for the methods of a graph declaration stays so while the
/// graph grows (see `lemma_expr_built_stays`).
pub proof fn lemma_methods_built_stays(
    a0: ExecutionGraph,
    a: ExecutionGraph,
    b0: ExecutionGraph,
    b: ExecutionGraph,
    es: Seq<(ExecEdgeType, NodeRef)>,
    items: Seq<GraphMethod>,
)
    requires
        methods_built(a0, a, es, items),
        forall|q: NodeRef| b0.node(q) is Some ==> #[trigger] a0.node(q) is Some,
        forall|q: NodeRef| a.node(q) is Some ==> #[trigger] b.node(q) == a.node(q),
        forall|q: NodeRef| a.node(q) is Some && a0.node(q) is None ==> #[trigger] b.edges_from(q) == a.edges_from(q),
    ensures
        methods_built(b0, b, es, items),
    decreases items, 0int,
{
    assert forall|i: int| #![trigger es[i]] 0 <= i < items.len() implies method_built(b0, b, es[i].1, items[i]) by {
        lemma_method_built_stays(a0, a, b0, b, es[i].1, items[i]);
    }
}

/// What was built for a rule of a graph declaration stays so while the
/// graph grows (see `lemma_expr_built_stays`).
pub proof fn lemma_rule_built_stays(a0: ExecutionGraph, a: ExecutionGraph, b0: ExecutionGraph, b: ExecutionGraph, r: NodeRef, rl: GraphRule)
    requires
        rule_built(a0, a, r, rl),
        forall|q: NodeRef| b0.node(q) is Some ==> #[trigger] a0.node(q) is Some,
        forall|q: NodeRef| a.node(q) is Some ==> #[trigger] b.node(q) == a.node(q),
        forall|q: NodeRef| a.node(q) is Some && a0.node(q) is None ==> #[trigger] b.edges_from(q) == a.edges_from(q),
    ensures
        rule_built(b0, b, r, rl),
    decreases rl, 0int,
{
    match rl.param {
        Some(x) => {
            lemma_expr_built_stays(a0, a, b0, b, a.edges_from(r)[0].1, x);
        },
        None => {},
    }
}

/// What was built for the rules of a graph declaration stays so while the
/// graph grows (see `lemma_expr_built_stays`).
pub proof fn lemma_rules_built_stays(
    a0: ExecutionGraph,
    a: ExecutionGraph,
    b0: ExecutionGraph,
    b: ExecutionGraph,
    es: Seq<(ExecEdgeType, NodeRef)>,
    items: Seq<GraphRule>,
)
    requires
        rules_built(a0, a, es, items),
        forall|q: NodeRef| b0.node(q) is Some ==> #[trigger] a0.node(q) is Some,
        forall|q: NodeRef| a.node(q) is Some ==> #[trigger] b.node(q) == a.node(q),
        forall|q: NodeRef| a.node(q) is Some && a0.node(q) is None ==> #[trigger] b.edges_from(q) == a.edges_from(q),
    ensures
        rules_built(b0, b, es, items),
    decreases items, 0int,
{
    assert forall|i: int| #![trigger es[i]] 0 <= i < items.len() implies rule_built(b0, b, es[i].1, items[i]) by {
        lemma_rule_built_stays(a0, a, b0, b, es[i].1, items[i]);
    }
}

/// How many pattern clauses a function declaration has.
pub open spec fn clause_count(c: Option<Vec<PatternClause>>) -> int {
    match c {
        Some(v) => v@.len() as int,
        None => 0int,
    }
}

/// Node `r` of `g` is a catch clause built since `g0`: a `CatchClauseNode`
/// at the clause's position with a `Body` edge to its block.
pub open spec fn catch_built(g0: ExecutionGraph, g: ExecutionGraph, r: NodeRef, c: CatchClause) -> bool
    decreases c, 0int,
{
    let es = g.edges_from(r);
    &&& g0.node(r) is None
    &&& g.node(r) matches Some(n) && n.node_type == AstNodeType::CatchClauseNode && n.position == c.position
    &&& es.len() == 1 && es[0].0 == ExecEdgeType::Body
    &&& block_built(g0, g, es[0].1, c.body@, c.position)
}

/// Node `r` of `g` was built since `g0` for parameter `p`: an `Identifier`
/// node at the unknown position carrying its `name` and `is_variadic`, with
/// a `DefaultValue` edge to the node built for its default value if it has
/// one, and no other edge.
pub open spec fn param_built(g0: ExecutionGraph, g: ExecutionGraph, r: NodeRef, p: Parameter) -> bool
    decreases p, 0int,
{
    let es = g.edges_from(r);
    let ps = g.node(r)->0.properties@;
    &&& g0.node(r) is None
    &&& g.node(r) matches Some(n) && n.node_type == AstNodeType::Identifier
        && n.position.line == 0 && n.position.column == 0
    &&& ps.len() == 2
    &&& ps[0].0@ == "name"@ && text_is(ps[0].1, p.name@)
    &&& ps[1].0@ == "is_variadic"@ && ps[1].1 == AstProperty::Bool(p.is_variadic)
    &&& es.len() == (if p.default_value is Some { 1int } else { 0int })
    &&& (p.default_value matches Some(d) ==> (es[0].0 == ExecEdgeType::DefaultValue && expr_built(g0, g, es[0].1, d)))
}

/// Edges `es` are `Parameter(i)` edges, one per parameter in order, each to
/// the node built since `g0` for that parameter.
pub open spec fn params_built(g0: ExecutionGraph, g: ExecutionGraph, es: Seq<(ExecEdgeType, NodeRef)>, params: Seq<Parameter>) -> bool
    decreases params, 0int,
{
    &&& es.len() == params.len()
    &&& forall|i: int| #![trigger es[i]] 0 <= i < params.len()
        ==> es[i].0 == ExecEdgeType::Parameter(i as u32) && param_built(g0, g, es[i].1, params[i])
}

/// Node `r` of `g` was built since `g0` for the pattern `p` of a pattern
/// clause: a `MatchPatternNode` at the pattern's position carrying its
/// `pattern_type` (`literal`, `variable` or `wildcard`), then the literal's
/// `value` or the variable's `name`; it has no edges.
pub open spec fn function_pattern_built(g0: ExecutionGraph, g: ExecutionGraph, r: NodeRef, p: Pattern) -> bool {
    let ps = g.node(r)->0.properties@;
    &&& g0.node(r) is None
    &&& g.node(r) matches Some(n) && n.node_type == AstNodeType::MatchPatternNode
    &&& g.edges_from(r).len() == 0
    &&& ps.len() >= 1 && ps[0].0@ == "pattern_type"@
    &&& match p {
        Pattern::Literal { value, position } => {
            &&& g.node(r)->0.position == position
            &&& text_is(ps[0].1, "literal"@) && ps.len() == 2
            &&& ps[1].0@ == "value"@ && literal_value_is(ps[1].1, value)
        },
        Pattern::Variable { name, position } => {
            &&& g.node(r)->0.position == position
            &&& text_is(ps[0].1, "variable"@) && ps.len() == 2
            &&& ps[1].0@ == "name"@ && text_is(ps[1].1, name@)
        },
        Pattern::Wildcard { position } => {
            &&& g.node(r)->0.position == position
            &&& text_is(ps[0].1, "wildcard"@) && ps.len() == 1
        },
    }
}

/// Node `r` of `g` was built since `g0` for pattern clause `c`: a
/// `PatternClauseNode` at the clause's position without properties, with
/// edges `ArmPattern`, to the node built for its pattern (see
/// `function_pattern_built`), `ArmBody`, to the node built for its body,
/// then `Guard`, to the node built for its guard if it has one.
pub open spec fn clause_built(g0: ExecutionGraph, g: ExecutionGraph, r: NodeRef, c: PatternClause) -> bool
    decreases c, 0int,
{
    let es = g.edges_from(r);
    &&& g0.node(r) is None
    &&& g.node(r) matches Some(n) && n.node_type == AstNodeType::PatternClauseNode
        && n.position == c.position && n.properties@.len() == 0
    &&& es.len() == (if c.guard is Some { 3int } else { 2int })
    &&& es[0].0 == ExecEdgeType::ArmPattern && function_pattern_built(g0, g, es[0].1, c.pattern)
    &&& es[1].0 == ExecEdgeType::ArmBody && expr_built(g0, g, es[1].1, c.body)
    &&& (c.guard matches Some(x) ==> (es[2].0 == ExecEdgeType::Guard && expr_built(g0, g, es[2].1, x)))
}

/// Edges `es` are `PatternClause(i)` edges, one per clause in order, each to
/// the node built since `g0` for that clause.
pub open spec fn clauses_built(g0: ExecutionGraph, g: ExecutionGraph, es: Seq<(ExecEdgeType, NodeRef)>, clauses: Seq<PatternClause>) -> bool
    decreases clauses, 0int,
{
    &&& es.len() == clauses.len()
    &&& forall|i: int| #![trigger es[i]] 0 <= i < clauses.len()
        ==> es[i].0 == ExecEdgeType::PatternClause(i as u32) && clause_built(g0, g, es[i].1, clauses[i])
}

/// What was built for a parameter stays so while the graph grows (see
/// `lemma_expr_built_stays`).
pub proof fn lemma_param_built_stays(a0: ExecutionGraph, a: ExecutionGraph, b0: ExecutionGraph, b: ExecutionGraph, r: NodeRef, p: Parameter)
    requires
        param_built(a0, a, r, p),
        forall|q: NodeRef| b0.node(q) is Some ==> #[trigger] a0.node(q) is Some,
        forall|q: NodeRef| a.node(q) is Some ==> #[trigger] b.node(q) == a.node(q),
        forall|q: NodeRef| a.node(q) is Some && a0.node(q) is None ==> #[trigger] b.edges_from(q) == a.edges_from(q),
    ensures
        param_built(b0, b, r, p),
    decreases p, 0int,
{
    match p.default_value {
        Some(d) => {
            lemma_expr_built_stays(a0, a, b0, b, a.edges_from(r)[0].1, d);
        },
        None => {},
    }
}

/// What was built for the parameters of a function stays so while the graph
/// grows (see `lemma_expr_built_stays`).
pub proof fn lemma_params_built_stays(
    a0: ExecutionGraph,
    a: ExecutionGraph,
    b0: ExecutionGraph,
    b: ExecutionGraph,
    es: Seq<(ExecEdgeType, NodeRef)>,
    params: Seq<Parameter>,
)
    requires
        params_built(a0, a, es, params),
        forall|q: NodeRef| b0.node(q) is Some ==> #[trigger] a0.node(q) is Some,
        forall|q: NodeRef| a.node(q) is Some ==> #[trigger] b.node(q) == a.node(q),
        forall|q: NodeRef| a.node(q) is Some && a0.node(q) is None ==> #[trigger] b.edges_from(q) == a.edges_from(q),
    ensures
        params_built(b0, b, es, params),
    decreases params, 0int,
{
    assert forall|i: int| #![trigger es[i]] 0 <= i < params.len() implies param_built(b0, b, es[i].1, params[i]) by {
        lemma_param_built_stays(a0, a, b0, b, es[i].1, params[i]);
    }
}

/// What was built for a pattern clause stays so while the graph grows (see
/// `lemma_expr_built_stays`).
pub proof fn lemma_clause_built_stays(a0: ExecutionGraph, a: ExecutionGraph, b0: ExecutionGraph, b: ExecutionGraph, r: NodeRef, c: PatternClause)
    requires
        clause_built(a0, a, r, c),
        forall|q: NodeRef| b0.node(q) is Some ==> #[trigger] a0.node(q) is Some,
        forall|q: NodeRef| a.node(q) is Some ==> #[trigger] b.node(q) == a.node(q),
        forall|q: NodeRef| a.node(q) is Some && a0.node(q) is None ==> #[trigger] b.edges_from(q) == a.edges_from(q),
    ensures
        clause_built(b0, b, r, c),
    decreases c, 0int,
{
    let es = a.edges_from(r);
    assert(a.node(es[0].1) is Some);
    lemma_expr_built_stays(a0, a, b0, b, es[1].1, c.body);
    match c.guard {
        Some(x) => {
            lemma_expr_built_stays(a0, a, b0, b, es[2].1, x);
        },
        None => {},
    }
}

/// What was built for the pattern clauses of a function stays so while the
/// graph grows (see `lemma_expr_built_stays`).
pub proof fn lemma_clauses_built_stays(
    a0: ExecutionGraph,
    a: ExecutionGraph,
    b0: ExecutionGraph,
    b: ExecutionGraph,
    es: Seq<(ExecEdgeType, NodeRef)>,
    clauses: Seq<PatternClause>,
)
    requires
        clauses_built(a0, a, es, clauses),
        forall|q: NodeRef| b0.node(q) is Some ==> #[trigger] a0.node(q) is Some,
        forall|q: NodeRef| a.node(q) is Some ==> #[trigger] b.node(q) == a.node(q),
        forall|q: NodeRef| a.node(q) is Some && a0.node(q) is None ==> #[trigger] b.edges_from(q) == a.edges_from(q),
    ensures
        clauses_built(b0, b, es, clauses),
    decreases clauses, 0int,
{
    assert forall|i: int| #![trigger es[i]] 0 <= i < clauses.len() implies clause_built(b0, b, es[i].1, clauses[i]) by {
        lemma_clause_built_stays(a0, a, b0, b, es[i].1, clauses[i]);
    }
}

/// The properties of a node are the text `value` under `key`, then the
/// `alias` if there is one.
pub open spec fn named_with_alias(n: AstGraphNode, key: Seq<char>, value: Seq<char>, alias: Option<String>) -> bool {
    let ps = n.properties@;
    &&& ps.len() == (if alias is Some { 2int } else { 1int })
    &&& ps[0].0@ == key && (ps[0].1 matches AstProperty::Str(v) && v@ == value)
    &&& (alias matches Some(a) ==> (ps[1].0@ == "alias"@ && (ps[1].1 matches AstProperty::Str(v) && v@ == a@)))
}

/// Node `r` of `g`, which `g0` did not have, was built for statement `s`:
/// it has `s`'s node type and position, and:
/// - an expression statement has a `ValueEdge` to its expression's node;
/// - a variable declaration carries its name, privacy and type (see
///   `declaration_properties`) and has a `ValueEdge` to the value's node;
/// - an assignment carries `target_type` (`variable`, `index` or
///   `property`) and the `target_name` of a variable or property, and has a
///   `ValueEdge` to the value's node, then for an index target `Object` and
///   `Target` (the index), for a property target `Object`;
/// - `if` has edges `Condition`, `ThenBranch` and, with an else part,
///   `ElseBranch`, the branches being blocks (see `block_built`);
/// - `while` has edges `Condition` and `Body` (a block);
/// - `for` carries its `variable` and has edges `Iterable` and `Body`;
/// - `return` has a `ValueEdge` to its value's node when it has one;
/// - `break` and `continue` have no edges;
/// - an import carries its `module` and `alias` (if any), a module
///   declaration its `name` and `alias` (if any); neither has edges;
/// - a load has a `ValueEdge` to a string literal node holding the path;
/// - a precision block carries its `places` (if given) and has a `Body`
///   edge to its block;
/// - a configure statement has a `Setting(key)` edge to the node of each
///   setting's value, in order, then a `Body` edge to its block if it has
///   one;
/// - a function declaration carries its `name`, `param_count`,
///   `is_private`, `is_setter`, `is_static` and `receiver` (if any), and has
///   a `Parameter(i)` edge to the node built for each parameter (see
///   `param_built`), a `Body` edge to its body block (in an arena of its
///   own), a `PatternClause(i)` edge to the node built for each pattern
///   clause (see `clause_built`), then a `Guard` edge to its guard's node if
///   it has one;
/// - a graph declaration carries its `name` and `graph_type` (if any), and
///   has a `Parent` edge to its parent's node if it has one, then a
///   `Property(i)`, `GraphMethod(i)` and `Rule(i)` edge to the node built
///   for each property, method and rule (see `property_built`,
///   `method_built` and `rule_built`), then a `Setting(key)` edge to an
///   entry node per configuration entry (see `config_entry_built`);
/// - a try statement has a `Body` edge to its block, a `CatchHandler(i)`
///   edge to each catch clause's node (see `catch_built`), then a
///   `FinallyBlock` edge if it has a finally block;
/// each edge in this order, and no other edges.
pub open spec fn stmt_built(g0: ExecutionGraph, g: ExecutionGraph, r: NodeRef, s: Stmt) -> bool
    decreases s, 0int,
{
    let es = g.edges_from(r);
    let n = g.node(r)->0;
    &&& g0.node(r) is None
    &&& g.node(r) matches Some(m) && m.node_type == stmt_node_type(s)
    &&& match s {
        Stmt::Expression { expr, position } => {
            &&& n.position == position && n.properties@.len() == 0
            &&& es.len() == 1 && es[0].0 == ExecEdgeType::ValueEdge
            &&& expr_built(g0, g, es[0].1, expr)
        },
        Stmt::VariableDecl { name, type_annotation, value, is_private, position } => {
            &&& n.position == position
            &&& declaration_properties(n, name, type_annotation, is_private)
            &&& es.len() == 1 && es[0].0 == ExecEdgeType::ValueEdge
            &&& expr_built(g0, g, es[0].1, value)
        },
        Stmt::Assignment { target, value, position } => {
            &&& n.position == position
            &&& es.len() > 0 && es[0].0 == ExecEdgeType::ValueEdge
            &&& expr_built(g0, g, es[0].1, value)
            &&& match target {
                AssignmentTarget::Variable(name) => {
                    &&& es.len() == 1
                    &&& n.properties@.len() == 2
                    &&& n.properties@[0].0@ == "target_type"@ && (n.properties@[0].1 matches AstProperty::Str(v) && v@ == "variable"@)
                    &&& n.properties@[1].0@ == "target_name"@ && (n.properties@[1].1 matches AstProperty::Str(v) && v@ == name@)
                },
                AssignmentTarget::Index { object, index } => {
                    &&& es.len() == 3 && es[1].0 == ExecEdgeType::Object && es[2].0 == ExecEdgeType::Target
                    &&& expr_built(g0, g, es[1].1, *object)
                    &&& expr_built(g0, g, es[2].1, *index)
                    &&& n.properties@.len() == 1
                    &&& n.properties@[0].0@ == "target_type"@ && (n.properties@[0].1 matches AstProperty::Str(v) && v@ == "index"@)
                },
                AssignmentTarget::Property { object, property } => {
                    &&& es.len() == 2 && es[1].0 == ExecEdgeType::Object
                    &&& expr_built(g0, g, es[1].1, *object)
                    &&& n.properties@.len() == 2
                    &&& n.properties@[0].0@ == "target_type"@ && (n.properties@[0].1 matches AstProperty::Str(v) && v@ == "property"@)
                    &&& n.properties@[1].0@ == "target_name"@ && (n.properties@[1].1 matches AstProperty::Str(v) && v@ == property@)
                },
            }
        },
        Stmt::If { condition, then_branch, else_branch, position } => {
            &&& n.position == position && n.properties@.len() == 0
            &&& es.len() == (if else_branch is Some { 3int } else { 2int })
            &&& es[0].0 == ExecEdgeType::Condition && es[1].0 == ExecEdgeType::ThenBranch
            &&& expr_built(g0, g, es[0].1, condition)
            &&& block_built(g0, g, es[1].1, then_branch@, position)
            &&& (else_branch matches Some(b) ==> (es[2].0 == ExecEdgeType::ElseBranch && block_built(g0, g, es[2].1, b@, position)))
        },
        Stmt::While { condition, body, position } => {
            &&& n.position == position && n.properties@.len() == 0
            &&& es.len() == 2 && es[0].0 == ExecEdgeType::Condition && es[1].0 == ExecEdgeType::Body
            &&& expr_built(g0, g, es[0].1, condition)
            &&& block_built(g0, g, es[1].1, body@, position)
        },
        Stmt::For { variable, iterable, body, position } => {
            &&& n.position == position
            &&& string_property(n, "variable"@, variable@)
            &&& es.len() == 2 && es[0].0 == ExecEdgeType::Iterable && es[1].0 == ExecEdgeType::Body
            &&& expr_built(g0, g, es[0].1, iterable)
            &&& block_built(g0, g, es[1].1, body@, position)
        },
        Stmt::Return { value, position } => {
            &&& n.position == position && n.properties@.len() == 0
            &&& es.len() == (if value is Some { 1int } else { 0int })
            &&& (value matches Some(v) ==> (es[0].0 == ExecEdgeType::ValueEdge && expr_built(g0, g, es[0].1, v)))
        },
        Stmt::Import { module, alias, position } => {
            &&& n.position == position && es.len() == 0
            &&& named_with_alias(n, "module"@, module@, alias)
        },
        Stmt::ModuleDecl { name, alias, position } => {
            &&& n.position == position && es.len() == 0
            &&& named_with_alias(n, "name"@, name@, alias)
        },
        Stmt::Load { path, position } => {
            &&& n.position == position && n.properties@.len() == 0
            &&& es.len() == 1 && es[0].0 == ExecEdgeType::ValueEdge
            &&& g0.node(es[0].1) is None
            &&& g.node(es[0].1) matches Some(p) && p.node_type == AstNodeType::StringLit && p.position == position
            &&& string_property(g.node(es[0].1)->0, "value"@, path@)
        },
        Stmt::Precision { places, body, position } => {
            &&& n.position == position
            &&& n.properties@.len() == (if places is Some { 1int } else { 0int })
            &&& (places matches Some(p) ==> (n.properties@[0].0@ == "places"@ && n.properties@[0].1 == AstProperty::Int(p as i64)))
            &&& es.len() == 1 && es[0].0 == ExecEdgeType::Body
            &&& block_built(g0, g, es[0].1, body@, position)
        },
        Stmt::Configure { settings, body, position } => {
            &&& n.position == position && n.properties@.len() == 0
            &&& es.len() == settings@.len() + (if body is Some { 1int } else { 0int })
            &&& forall|i: int| #![trigger es[i]] 0 <= i < settings@.len() ==> (es[i].0 matches ExecEdgeType::Setting(k)
                && k@ == settings@[i].0@) && expr_built(g0, g, es[i].1, settings@[i].1)
            &&& (body matches Some(b) ==> (es[settings@.len() as int].0 == ExecEdgeType::Body
                && block_built(g0, g, es[settings@.len() as int].1, b@, position)))
        },
        Stmt::Try { body, catch_clauses, finally_block, position } => {
            let cs = es.subrange(1, catch_clauses@.len() + 1int);
            &&& n.position == position && n.properties@.len() == 0
            &&& es.len() == 1 + catch_clauses@.len() + (if finally_block is Some { 1int } else { 0int })
            &&& es[0].0 == ExecEdgeType::Body && block_built(g0, g, es[0].1, body@, position)
            &&& forall|i: int| #![trigger cs[i]] 0 <= i < catch_clauses@.len() ==> cs[i].0 == ExecEdgeType::CatchHandler(i as u32)
                && catch_built(g0, g, cs[i].1, catch_clauses@[i])
            &&& (finally_block matches Some(f) ==> (es[1int + catch_clauses@.len()].0 == ExecEdgeType::FinallyBlock
                && block_built(g0, g, es[1int + catch_clauses@.len()].1, f@, position)))
        },
        Stmt::FunctionDecl { name, receiver, params, body, pattern_clauses, is_private, is_setter, is_static, guard, position } => {
            let np = params@.len() as int;
            let nc = clause_count(pattern_clauses);
            let ps = n.properties@;
            let cs = es.subrange(np + 1, np + 1 + nc);
            &&& n.position == position
            &&& ps.len() == (if receiver is Some { 6int } else { 5int })
            &&& ps[0].0@ == "name"@ && (ps[0].1 matches AstProperty::Str(v) && v@ == name@)
            &&& ps[1].0@ == "param_count"@ && ps[1].1 == AstProperty::Int(params@.len() as i64)
            &&& ps[2].0@ == "is_private"@ && ps[2].1 == AstProperty::Bool(is_private)
            &&& ps[3].0@ == "is_setter"@ && ps[3].1 == AstProperty::Bool(is_setter)
            &&& ps[4].0@ == "is_static"@ && ps[4].1 == AstProperty::Bool(is_static)
            &&& (receiver matches Some(rv) ==> (ps[5].0@ == "receiver"@ && (ps[5].1 matches AstProperty::Str(v) && v@ == rv@)))
            &&& es.len() == np + 1 + nc + (if guard is Some { 1int } else { 0int })
            &&& params_built(g0, g, es.subrange(0, np), params@)
            &&& es[np].0 == ExecEdgeType::Body && block_built(g0, g, es[np].1, body@, position)
            &&& in_new_arena(g0, es[np].1)
            &&& (pattern_clauses matches Some(cl) ==> clauses_built(g0, g, cs, cl@))
            &&& (guard matches Some(x) ==> (es[np + 1 + nc].0 == ExecEdgeType::Guard && expr_built(g0, g, es[np + 1 + nc].1, *x)))
        },
        Stmt::GraphDecl { name, graph_type, parent, properties, methods, rules, config, position } => {
            let np = if parent is Some { 1int } else { 0int };
            let a = np + properties@.len();
            let b = a + methods@.len();
            let c = b + rules@.len();
            &&& n.position == position
            &&& n.properties@.len() == (if graph_type is Some { 2int } else { 1int })
            &&& n.properties@[0].0@ == "name"@ && (n.properties@[0].1 matches AstProperty::Str(v) && v@ == name@)
            &&& (graph_type matches Some(t) ==> (n.properties@[1].0@ == "graph_type"@
                && (n.properties@[1].1 matches AstProperty::Str(v) && v@ == t@)))
            &&& es.len() == c + config@.len()
            &&& (parent matches Some(p) ==> (es[0].0 == ExecEdgeType::Parent && expr_built(g0, g, es[0].1, *p)))
            &&& properties_built(g0, g, es.subrange(np, a), properties@)
            &&& methods_built(g0, g, es.subrange(a, b), methods@)
            &&& rules_built(g0, g, es.subrange(b, c), rules@)
            &&& config_children(g0, g, es.subrange(c, es.len() as int), config@, position)
        },
        Stmt::Break { position } => n.position == position && n.properties@.len() == 0 && es.len() == 0,
        Stmt::Continue { position } => n.position == position && n.properties@.len() == 0 && es.len() == 0,
    }
}

/// Node `r` of `g` is an entry built since `g0` at `pos`: a `MapEntryNode`
/// carrying the `key`, with a `ValueEdge` to the node built for `value`.
pub open spec fn entry_built(g0: ExecutionGraph, g: ExecutionGraph, r: NodeRef, key: Seq<char>, value: Expr, pos: SourcePosition) -> bool
    decreases value, 1int,
{
    let es = g.edges_from(r);
    &&& g0.node(r) is None
    &&& g.node(r) matches Some(n) && n.node_type == AstNodeType::MapEntryNode && n.position == pos
    &&& string_property(g.node(r)->0, "key"@, key)
    &&& es.len() == 1 && es[0].0 == ExecEdgeType::ValueEdge
    &&& expr_built(g0, g, es[0].1, value)
}

/// Node `r` of `g` is a match arm built since `g0`: a `MatchArmNode` at the
/// arm's position with edges `ArmPattern`, to the node built for its pattern
/// (see `pattern_built`), and `ArmBody`, to the node built for its body.
pub open spec fn arm_built(g0: ExecutionGraph, g: ExecutionGraph, r: NodeRef, arm: MatchArm) -> bool
    decreases arm, 0int,
{
    let es = g.edges_from(r);
    &&& g0.node(r) is None
    &&& g.node(r) matches Some(n) && n.node_type == AstNodeType::MatchArmNode && n.position == arm.position
    &&& es.len() == 2 && es[0].0 == ExecEdgeType::ArmPattern && es[1].0 == ExecEdgeType::ArmBody
    &&& pattern_built(g0, g, es[0].1, arm.pattern)
    &&& expr_built(g0, g, es[1].1, arm.body)
}

/// Node `r` of `g`, which `g0` did not have, was built for expression `e`:
/// it has `e`'s node type and position, and:
/// - a literal carries its `value` (nothing for `none`);
/// - a variable carries its `name`;
/// - a binary expression carries its `operator` and has edges `Left` and
///   `Right` to the nodes built for its operands, allocated after it in its
///   arena, the left one right after it and the right one after that;
/// - a unary expression carries its `operator` and has an `Operand` edge;
/// - a property access carries the `property` name and has an `Object` edge;
/// - an index expression has edges `Object` and `ValueEdge` (the index);
/// - a raise has a `ValueEdge` to the error expression;
/// - a conditional carries `is_unless` and has edges `Condition`,
///   `ThenBranch` and, when it has an else part, `ElseBranch`;
/// - a lambda carries its parameter names (see `lambda_properties`) and has
///   a `Body` edge to the node built for its body;
/// - a list has an `Element(i)` edge to the node built for its `i`-th
///   element;
/// - a block is built as `block_built` says;
/// - a map has an `Element(i)` edge to an entry node for its `i`-th entry
///   (see `entry_built`), an instantiation an `Object` edge to the class
///   expression's node, then an `Override(i)` edge to an entry node for its
///   `i`-th override;
/// - a match has a `MatchValue` edge, then a `MatchArm(i)` edge to the node
///   of its `i`-th arm (see `arm_built`);
/// - a graph has a `Setting(key)` edge to the node of each configured value,
///   in order, then a `Parent` edge when it has a parent;
/// - a call has a `Callee` edge, then the argument edges (see `args_built`);
/// - a method call carries the `method` name and has an `Object` edge, then
///   the argument edges;
/// - a call of a parent's method carries the `method` name and has the
///   argument edges;
/// each edge in this order, and no other edges.
pub open spec fn expr_built(g0: ExecutionGraph, g: ExecutionGraph, r: NodeRef, e: Expr) -> bool
    decreases e, 0int,
{
    let es = g.edges_from(r);
    &&& g0.node(r) is None
    &&& g.node(r) matches Some(n) && n.node_type == expr_node_type(e)
    &&& match e {
        Expr::Literal { value, position } => {
            &&& g.node(r)->0.position == position
            &&& literal_properties(g.node(r)->0, value)
        },
        Expr::Variable { name, position } => {
            &&& g.node(r)->0.position == position
            &&& string_property(g.node(r)->0, "name"@, name@)
        },
        Expr::Binary { left, op, right, position, .. } => {
            &&& g.node(r)->0.position == position
            &&& only_property(g.node(r)->0, "operator"@, AstProperty::BinaryOp(op))
            &&& es.len() == 2 && es[0].0 == ExecEdgeType::Left && es[1].0 == ExecEdgeType::Right
            &&& es[0].1.arena_id == r.arena_id && es[0].1.index.0 == r.index.0 + 1
            &&& es[1].1.arena_id == r.arena_id && es[0].1.index.0 < es[1].1.index.0
            &&& expr_built(g0, g, es[0].1, *left)
            &&& expr_built(g0, g, es[1].1, *right)
        },
        Expr::Unary { op, operand, position, .. } => {
            &&& g.node(r)->0.position == position
            &&& only_property(g.node(r)->0, "operator"@, AstProperty::UnaryOp(op))
            &&& es.len() == 1 && es[0].0 == ExecEdgeType::Operand
            &&& expr_built(g0, g, es[0].1, *operand)
        },
        Expr::PropertyAccess { object, property, position, .. } => {
            &&& g.node(r)->0.position == position
            &&& string_property(g.node(r)->0, "property"@, property@)
            &&& es.len() == 1 && es[0].0 == ExecEdgeType::Object
            &&& expr_built(g0, g, es[0].1, *object)
        },
        Expr::Index { object, index, position, .. } => {
            &&& g.node(r)->0.position == position
            &&& es.len() == 2 && es[0].0 == ExecEdgeType::Object && es[1].0 == ExecEdgeType::ValueEdge
            &&& expr_built(g0, g, es[0].1, *object)
            &&& expr_built(g0, g, es[1].1, *index)
        },
        Expr::Raise { error, position, .. } => {
            &&& g.node(r)->0.position == position
            &&& es.len() == 1 && es[0].0 == ExecEdgeType::ValueEdge
            &&& expr_built(g0, g, es[0].1, *error)
        },
        Expr::Conditional { condition, then_expr, else_expr, is_unless, position, .. } => {
            &&& g.node(r)->0.position == position
            &&& only_property(g.node(r)->0, "is_unless"@, AstProperty::Bool(is_unless))
            &&& es.len() == (if else_expr is Some { 3int } else { 2int })
            &&& es[0].0 == ExecEdgeType::Condition && es[1].0 == ExecEdgeType::ThenBranch
            &&& expr_built(g0, g, es[0].1, *condition)
            &&& expr_built(g0, g, es[1].1, *then_expr)
            &&& (else_expr matches Some(x) ==> (es[2].0 == ExecEdgeType::ElseBranch && expr_built(g0, g, es[2].1, *x)))
        },
        Expr::List { elements, position } => {
            &&& g.node(r)->0.position == position
            &&& es.len() == elements@.len()
            &&& forall|i: int| #![trigger es[i]] 0 <= i < elements@.len()
                ==> es[i].0 == ExecEdgeType::Element(i as u32) && expr_built(g0, g, es[i].1, elements@[i])
        },
        Expr::Call { callee, args, position } => {
            &&& g.node(r)->0.position == position
            &&& es.len() > 0 && es[0].0 == ExecEdgeType::Callee
            &&& expr_built(g0, g, es[0].1, *callee)
            &&& args_built(g0, g, es.subrange(1, es.len() as int), args@)
        },
        Expr::MethodCall { object, method, args, position } => {
            &&& g.node(r)->0.position == position
            &&& string_property(g.node(r)->0, "method"@, method@)
            &&& es.len() > 0 && es[0].0 == ExecEdgeType::Object
            &&& expr_built(g0, g, es[0].1, *object)
            &&& args_built(g0, g, es.subrange(1, es.len() as int), args@)
        },
        Expr::SuperMethodCall { method, args, position } => {
            &&& g.node(r)->0.position == position
            &&& string_property(g.node(r)->0, "method"@, method@)
            &&& args_built(g0, g, es, args@)
        },
        Expr::Block { statements, position } => block_built(g0, g, r, statements@, position),
        Expr::MapLit { entries, position } => {
            &&& g.node(r)->0.position == position
            &&& es.len() == entries@.len()
            &&& forall|i: int| #![trigger es[i]] 0 <= i < entries@.len() ==> es[i].0 == ExecEdgeType::Element(i as u32)
                && entry_built(g0, g, es[i].1, entries@[i].0@, entries@[i].1, position)
        },
        Expr::Instantiate { class_name, overrides, position } => {
            let os = es.subrange(1, es.len() as int);
            &&& g.node(r)->0.position == position
            &&& es.len() == overrides@.len() + 1
            &&& es[0].0 == ExecEdgeType::Object && expr_built(g0, g, es[0].1, *class_name)
            &&& forall|i: int| #![trigger os[i]] 0 <= i < overrides@.len() ==> os[i].0 == ExecEdgeType::Override(i as u32)
                && entry_built(g0, g, os[i].1, overrides@[i].0@, overrides@[i].1, position)
        },
        Expr::Match { value, arms, position } => {
            let as_ = es.subrange(1, es.len() as int);
            &&& g.node(r)->0.position == position
            &&& es.len() == arms@.len() + 1
            &&& es[0].0 == ExecEdgeType::MatchValue && expr_built(g0, g, es[0].1, *value)
            &&& forall|i: int| #![trigger as_[i]] 0 <= i < arms@.len() ==> as_[i].0 == ExecEdgeType::MatchArm(i as u32)
                && arm_built(g0, g, as_[i].1, arms@[i])
        },
        Expr::Graph { config, parent, position } => {
            &&& g.node(r)->0.position == position
            &&& es.len() == config@.len() + (if parent is Some { 1int } else { 0int })
            &&& forall|i: int| #![trigger es[i]] 0 <= i < config@.len() ==> (es[i].0 matches ExecEdgeType::Setting(k)
                && k@ == config@[i].0@) && expr_built(g0, g, es[i].1, config@[i].1)
            &&& (parent matches Some(p) ==> (es[config@.len() as int].0 == ExecEdgeType::Parent
                && expr_built(g0, g, es[config@.len() as int].1, *p)))
        },
        Expr::Lambda { params, body, position } => {
            &&& g.node(r)->0.position == position
            &&& lambda_properties(g.node(r)->0, params@)
            &&& es.len() == 1 && es[0].0 == ExecEdgeType::Body
            &&& expr_built(g0, g, es[0].1, *body)
            &&& in_new_arena(g0, es[0].1)
        },
    }
}

/// What was built for an expression stays so while the graph grows: its
/// nodes keep their values, the nodes built since `a0` keep their edges, and
/// an older starting point `b0` only has fewer nodes.
pub proof fn lemma_expr_built_stays(a0: ExecutionGraph, a: ExecutionGraph, b0: ExecutionGraph, b: ExecutionGraph, r: NodeRef, e: Expr)
    requires
        expr_built(a0, a, r, e),
        forall|q: NodeRef| b0.node(q) is Some ==> #[trigger] a0.node(q) is Some,
        forall|q: NodeRef| a.node(q) is Some ==> #[trigger] b.node(q) == a.node(q),
        forall|q: NodeRef| a.node(q) is Some && a0.node(q) is None ==> #[trigger] b.edges_from(q) == a.edges_from(q),
    ensures
        expr_built(b0, b, r, e),
    decreases e, 0int,
{
    let es = a.edges_from(r);
    match e {
        Expr::Binary { left, right, .. } => {
            lemma_expr_built_stays(a0, a, b0, b, es[0].1, *left);
            lemma_expr_built_stays(a0, a, b0, b, es[1].1, *right);
        },
        Expr::Unary { operand, .. } => {
            lemma_expr_built_stays(a0, a, b0, b, es[0].1, *operand);
        },
        Expr::PropertyAccess { object, .. } => {
            lemma_expr_built_stays(a0, a, b0, b, es[0].1, *object);
        },
        Expr::Index { object, index, .. } => {
            lemma_expr_built_stays(a0, a, b0, b, es[0].1, *object);
            lemma_expr_built_stays(a0, a, b0, b, es[1].1, *index);
        },
        Expr::Raise { error, .. } => {
            lemma_expr_built_stays(a0, a, b0, b, es[0].1, *error);
        },
        Expr::Conditional { condition, then_expr, else_expr, .. } => {
            lemma_expr_built_stays(a0, a, b0, b, es[0].1, *condition);
            lemma_expr_built_stays(a0, a, b0, b, es[1].1, *then_expr);
            match else_expr {
                Some(x) => {
                    lemma_expr_built_stays(a0, a, b0, b, es[2].1, *x);
                },
                None => {},
            }
        },
        Expr::Lambda { body, .. } => {
            lemma_expr_built_stays(a0, a, b0, b, es[0].1, *body);
            lemma_in_new_arena_stays(a0, b0, es[0].1);
        },
        Expr::List { elements, .. } => {
            assert forall|i: int| #![trigger es[i]] 0 <= i < elements@.len() implies expr_built(b0, b, es[i].1, elements@[i]) by {
                lemma_expr_built_stays(a0, a, b0, b, es[i].1, elements@[i]);
            }
        },
        Expr::Call { callee, args, .. } => {
            lemma_expr_built_stays(a0, a, b0, b, es[0].1, *callee);
            lemma_args_built_stays(a0, a, b0, b, es.subrange(1, es.len() as int), args@);
        },
        Expr::MethodCall { object, args, .. } => {
            lemma_expr_built_stays(a0, a, b0, b, es[0].1, *object);
            lemma_args_built_stays(a0, a, b0, b, es.subrange(1, es.len() as int), args@);
        },
        Expr::SuperMethodCall { args, .. } => {
            lemma_args_built_stays(a0, a, b0, b, es, args@);
        },
        Expr::Block { statements, position } => {
            lemma_block_built_stays(a0, a, b0, b, r, statements@, position);
        },
        Expr::MapLit { entries, position } => {
            assert forall|i: int| #![trigger es[i]] 0 <= i < entries@.len()
                implies entry_built(b0, b, es[i].1, entries@[i].0@, entries@[i].1, position) by {
                lemma_entry_built_stays(a0, a, b0, b, es[i].1, entries@[i].0@, entries@[i].1, position);
            }
        },
        Expr::Instantiate { class_name, overrides, position } => {
            let os = es.subrange(1, es.len() as int);
            lemma_expr_built_stays(a0, a, b0, b, es[0].1, *class_name);
            assert forall|i: int| #![trigger os[i]] 0 <= i < overrides@.len()
                implies entry_built(b0, b, os[i].1, overrides@[i].0@, overrides@[i].1, position) by {
                lemma_entry_built_stays(a0, a, b0, b, os[i].1, overrides@[i].0@, overrides@[i].1, position);
            }
        },
        Expr::Match { value, arms, .. } => {
            let as_ = es.subrange(1, es.len() as int);
            lemma_expr_built_stays(a0, a, b0, b, es[0].1, *value);
            assert forall|i: int| #![trigger as_[i]] 0 <= i < arms@.len() implies arm_built(b0, b, as_[i].1, arms@[i]) by {
                lemma_arm_built_stays(a0, a, b0, b, as_[i].1, arms@[i]);
            }
        },
        Expr::Graph { config, parent, .. } => {
            assert forall|i: int| #![trigger es[i]] 0 <= i < config@.len() implies expr_built(b0, b, es[i].1, config@[i].1) by {
                lemma_expr_built_stays(a0, a, b0, b, es[i].1, config@[i].1);
            }
            match parent {
                Some(p) => {
                    lemma_expr_built_stays(a0, a, b0, b, es[config@.len() as int].1, *p);
                },
                None => {},
            }
        },
        _ => {},
    }
}

/// Growth with edges added only from `from` composes.
pub proof fn lemma_grew_from_trans(a: ExecutionGraph, b: ExecutionGraph, c: ExecutionGraph, from: NodeRef)
    requires
        grew_from(a, b, from),
        grew_from(b, c, from),
    ensures
        grew_from(a, c, from),
{
}

/// What was built for a catch clause stays so while the graph grows (see
/// `lemma_expr_built_stays`).
pub proof fn lemma_catch_built_stays(a0: ExecutionGraph, a: ExecutionGraph, b0: ExecutionGraph, b: ExecutionGraph, r: NodeRef, c: CatchClause)
    requires
        catch_built(a0, a, r, c),
        forall|q: NodeRef| b0.node(q) is Some ==> #[trigger] a0.node(q) is Some,
        forall|q: NodeRef| a.node(q) is Some ==> #[trigger] b.node(q) == a.node(q),
        forall|q: NodeRef| a.node(q) is Some && a0.node(q) is None ==> #[trigger] b.edges_from(q) == a.edges_from(q),
    ensures
        catch_built(b0, b, r, c),
    decreases c, 0int,
{
    lemma_block_built_stays(a0, a, b0, b, a.edges_from(r)[0].1, c.body@, c.position);
}

/// What was built for an entry stays so while the graph grows (see
/// `lemma_expr_built_stays`).
pub proof fn lemma_entry_built_stays(
    a0: ExecutionGraph,
    a: ExecutionGraph,
    b0: ExecutionGraph,
    b: ExecutionGraph,
    r: NodeRef,
    key: Seq<char>,
    value: Expr,
    pos: SourcePosition,
)
    requires
        entry_built(a0, a, r, key, value, pos),
        forall|q: NodeRef| b0.node(q) is Some ==> #[trigger] a0.node(q) is Some,
        forall|q: NodeRef| a.node(q) is Some ==> #[trigger] b.node(q) == a.node(q),
        forall|q: NodeRef| a.node(q) is Some && a0.node(q) is None ==> #[trigger] b.edges_from(q) == a.edges_from(q),
    ensures
        entry_built(b0, b, r, key, value, pos),
    decreases value, 1int,
{
    lemma_expr_built_stays(a0, a, b0, b, a.edges_from(r)[0].1, value);
}

/// What was built for a match arm stays so while the graph grows (see
/// `lemma_expr_built_stays`).
pub proof fn lemma_arm_built_stays(a0: ExecutionGraph, a: ExecutionGraph, b0: ExecutionGraph, b: ExecutionGraph, r: NodeRef, arm: MatchArm)
    requires
        arm_built(a0, a, r, arm),
        forall|q: NodeRef| b0.node(q) is Some ==> #[trigger] a0.node(q) is Some,
        forall|q: NodeRef| a.node(q) is Some ==> #[trigger] b.node(q) == a.node(q),
        forall|q: NodeRef| a.node(q) is Some && a0.node(q) is None ==> #[trigger] b.edges_from(q) == a.edges_from(q),
    ensures
        arm_built(b0, b, r, arm),
    decreases arm, 0int,
{
    lemma_pattern_built_stays(a0, a, b0, b, a.edges_from(r)[0].1, arm.pattern);
    lemma_expr_built_stays(a0, a, b0, b, a.edges_from(r)[1].1, arm.body);
}

/// What was built for a block stays so while the graph grows (see
/// `lemma_expr_built_stays`).
pub proof fn lemma_block_built_stays(
    a0: ExecutionGraph,
    a: ExecutionGraph,
    b0: ExecutionGraph,
    b: ExecutionGraph,
    r: NodeRef,
    stmts: Seq<Stmt>,
    pos: SourcePosition,
)
    requires
        block_built(a0, a, r, stmts, pos),
        forall|q: NodeRef| b0.node(q) is Some ==> #[trigger] a0.node(q) is Some,
        forall|q: NodeRef| a.node(q) is Some ==> #[trigger] b.node(q) == a.node(q),
        forall|q: NodeRef| a.node(q) is Some && a0.node(q) is None ==> #[trigger] b.edges_from(q) == a.edges_from(q),
    ensures
        block_built(b0, b, r, stmts, pos),
    decreases stmts, 0int,
{
    let es = a.edges_from(r);
    assert forall|i: int| #![trigger es[i]] 0 <= i < stmts.len() implies stmt_built(b0, b, es[i].1, stmts[i]) by {
        lemma_stmt_built_stays(a0, a, b0, b, es[i].1, stmts[i]);
    }
}

/// What was built for a statement stays so while the graph grows (see
/// `lemma_expr_built_stays`).
pub proof fn lemma_stmt_built_stays(a0: ExecutionGraph, a: ExecutionGraph, b0: ExecutionGraph, b: ExecutionGraph, r: NodeRef, s: Stmt)
    requires
        stmt_built(a0, a, r, s),
        forall|q: NodeRef| b0.node(q) is Some ==> #[trigger] a0.node(q) is Some,
        forall|q: NodeRef| a.node(q) is Some ==> #[trigger] b.node(q) == a.node(q),
        forall|q: NodeRef| a.node(q) is Some && a0.node(q) is None ==> #[trigger] b.edges_from(q) == a.edges_from(q),
    ensures
        stmt_built(b0, b, r, s),
    decreases s, 0int,
{
    let es = a.edges_from(r);
    match s {
        Stmt::Expression { expr, .. } => {
            lemma_expr_built_stays(a0, a, b0, b, es[0].1, expr);
        },
        Stmt::VariableDecl { value, .. } => {
            lemma_expr_built_stays(a0, a, b0, b, es[0].1, value);
        },
        Stmt::Assignment { target, value, .. } => {
            lemma_expr_built_stays(a0, a, b0, b, es[0].1, value);
            match target {
                AssignmentTarget::Index { object, index } => {
                    lemma_expr_built_stays(a0, a, b0, b, es[1].1, *object);
                    lemma_expr_built_stays(a0, a, b0, b, es[2].1, *index);
                },
                AssignmentTarget::Property { object, .. } => {
                    lemma_expr_built_stays(a0, a, b0, b, es[1].1, *object);
                },
                _ => {},
            }
        },
        Stmt::If { condition, then_branch, else_branch, position } => {
            lemma_expr_built_stays(a0, a, b0, b, es[0].1, condition);
            lemma_block_built_stays(a0, a, b0, b, es[1].1, then_branch@, position);
            match else_branch {
                Some(e) => {
                    lemma_block_built_stays(a0, a, b0, b, es[2].1, e@, position);
                },
                None => {},
            }
        },
        Stmt::While { condition, body, position } => {
            lemma_expr_built_stays(a0, a, b0, b, es[0].1, condition);
            lemma_block_built_stays(a0, a, b0, b, es[1].1, body@, position);
        },
        Stmt::For { iterable, body, position, .. } => {
            lemma_expr_built_stays(a0, a, b0, b, es[0].1, iterable);
            lemma_block_built_stays(a0, a, b0, b, es[1].1, body@, position);
        },
        Stmt::Return { value, .. } => {
            match value {
                Some(v) => {
                    lemma_expr_built_stays(a0, a, b0, b, es[0].1, v);
                },
                None => {},
            }
        },
        Stmt::Precision { body, position, .. } => {
            lemma_block_built_stays(a0, a, b0, b, es[0].1, body@, position);
        },
        Stmt::GraphDecl { parent, properties, methods, rules, config, position, .. } => {
            let np = if parent is Some { 1int } else { 0int };
            let a_ = np + properties@.len();
            let b_ = a_ + methods@.len();
            let c_ = b_ + rules@.len();
            match parent {
                Some(p) => {
                    lemma_expr_built_stays(a0, a, b0, b, es[0].1, *p);
                },
                None => {},
            }
            lemma_properties_built_stays(a0, a, b0, b, es.subrange(np, a_), properties@);
            lemma_methods_built_stays(a0, a, b0, b, es.subrange(a_, b_), methods@);
            lemma_rules_built_stays(a0, a, b0, b, es.subrange(b_, c_), rules@);
            let cs = es.subrange(c_, es.len() as int);
            assert forall|i: int| #![trigger cs[i]] 0 <= i < config@.len()
                implies config_entry_built(b0, b, cs[i].1, config@[i].0@, config@[i].1@, position) by {
                assert(a.node(cs[i].1) is Some);
            }
        },
        Stmt::FunctionDecl { params, body, pattern_clauses, guard, position, .. } => {
            let np = params@.len() as int;
            let nc = clause_count(pattern_clauses);
            let cs = es.subrange(np + 1, np + 1 + nc);
            lemma_block_built_stays(a0, a, b0, b, es[np].1, body@, position);
            lemma_in_new_arena_stays(a0, b0, es[np].1);
            lemma_params_built_stays(a0, a, b0, b, es.subrange(0, np), params@);
            match pattern_clauses {
                Some(cl) => {
                    lemma_clauses_built_stays(a0, a, b0, b, cs, cl@);
                },
                None => {},
            }
            match guard {
                Some(x) => {
                    lemma_expr_built_stays(a0, a, b0, b, es[np + 1 + nc].1, *x);
                },
                None => {},
            }
        },
        Stmt::Configure { settings, body, position } => {
            assert forall|i: int| #![trigger es[i]] 0 <= i < settings@.len() implies expr_built(b0, b, es[i].1, settings@[i].1) by {
                lemma_expr_built_stays(a0, a, b0, b, es[i].1, settings@[i].1);
            }
            match body {
                Some(bl) => {
                    lemma_block_built_stays(a0, a, b0, b, es[settings@.len() as int].1, bl@, position);
                },
                None => {},
            }
        },
        Stmt::Try { body, catch_clauses, finally_block, position } => {
            let cs = es.subrange(1, catch_clauses@.len() + 1int);
            lemma_block_built_stays(a0, a, b0, b, es[0].1, body@, position);
            assert forall|i: int| #![trigger cs[i]] 0 <= i < catch_clauses@.len() implies catch_built(b0, b, cs[i].1, catch_clauses@[i]) by {
                lemma_catch_built_stays(a0, a, b0, b, cs[i].1, catch_clauses@[i]);
            }
            match finally_block {
                Some(f) => {
                    lemma_block_built_stays(a0, a, b0, b, es[1int + catch_clauses@.len()].1, f@, position);
                },
                None => {},
            }
        },
        _ => {},
    }
}

/// What was built for a call argument stays so while the graph grows (see
/// `lemma_expr_built_stays`).
pub proof fn lemma_arg_built_stays(a0: ExecutionGraph, a: ExecutionGraph, b0: ExecutionGraph, b: ExecutionGraph, r: NodeRef, arg: Argument)
    requires
        arg_built(a0, a, r, arg),
        forall|q: NodeRef| b0.node(q) is Some ==> #[trigger] a0.node(q) is Some,
        forall|q: NodeRef| a.node(q) is Some ==> #[trigger] b.node(q) == a.node(q),
        forall|q: NodeRef| a.node(q) is Some && a0.node(q) is None ==> #[trigger] b.edges_from(q) == a.edges_from(q),
    ensures
        arg_built(b0, b, r, arg),
    decreases arg, 0int,
{
    match arg {
        Argument::Positional { expr, mutable } => {
            if mutable {
                lemma_expr_built_stays(a0, a, b0, b, a.edges_from(r)[0].1, expr);
            } else {
                lemma_expr_built_stays(a0, a, b0, b, r, expr);
            }
        },
        Argument::Named { value, .. } => {
            lemma_expr_built_stays(a0, a, b0, b, a.edges_from(r)[0].1, value);
        },
    }
}

/// What was built for the arguments of a call stays so while the graph
/// grows (see `lemma_expr_built_stays`).
pub proof fn lemma_args_built_stays(
    a0: ExecutionGraph,
    a: ExecutionGraph,
    b0: ExecutionGraph,
    b: ExecutionGraph,
    es: Seq<(ExecEdgeType, NodeRef)>,
    args: Seq<Argument>,
)
    requires
        args_built(a0, a, es, args),
        forall|q: NodeRef| b0.node(q) is Some ==> #[trigger] a0.node(q) is Some,
        forall|q: NodeRef| a.node(q) is Some ==> #[trigger] b.node(q) == a.node(q),
        forall|q: NodeRef| a.node(q) is Some && a0.node(q) is None ==> #[trigger] b.edges_from(q) == a.edges_from(q),
    ensures
        args_built(b0, b, es, args),
    decreases args, 0int,
{
    assert forall|i: int| #![trigger es[i]] 0 <= i < args.len() implies arg_built(b0, b, es[i].1, args[i]) by {
        lemma_arg_built_stays(a0, a, b0, b, es[i].1, args[i]);
    }
}

/// Converts AST structures into an execution graph.
pub struct AstToGraphConverter {
    graph: ExecutionGraph,
    /// The arena for top-level code.
    default_arena: ArenaId,
}

impl AstToGraphConverter {
    /// The graph built so far.
    pub closed spec fn graph_spec(&self) -> ExecutionGraph {
        self.graph
    }

    /// The arena for top-level code.
    pub closed spec fn default_arena_spec(&self) -> ArenaId {
        self.default_arena
    }

    /// The graph is consistent, holds the default arena, and has edges only
    /// from its nodes.
    pub closed spec fn wf(&self) -> bool {
        self.graph.wf() && self.graph.arenas().contains_key(self.default_arena.0) && edges_from_nodes(self.graph)
    }

    /// A converter with an empty graph of one (default) arena.
    pub fn new() -> (c: Self)
        ensures
            c.wf(),
            c.graph_spec().total_nodes() == 0,
            c.graph_spec().next_arena_id() == 1,
            c.default_arena_spec().0 == 0,
    {
        let mut graph = ExecutionGraph::new();
        let default_arena = graph.new_arena();
        AstToGraphConverter { graph, default_arena }
    }

    /// Adds one node.
    fn add_node(
        &mut self,
        arena: ArenaId,
        node_type: AstNodeType,
        properties: Vec<(String, AstProperty)>,
        position: SourcePosition,
    ) -> (r: NodeRef)
        requires
            old(self).wf(),
            old(self).graph.arenas().contains_key(arena.0),
            room(old(self).graph, 1),
        ensures
            final(self).wf(),
            added(old(self).graph, final(self).graph, 1),
            final(self).default_arena == old(self).default_arena,
            fresh_node(old(self).graph, final(self).graph, r, node_type),
            r.arena_id == arena,
            r == next_slot(old(self).graph, arena),
            final(self).graph.arenas()[arena.0].len() == old(self).graph.arenas()[arena.0].len() + 1,
            final(self).graph.node(r) == Some(AstGraphNode { node_type, properties, position }),
            forall|q: NodeRef| #[trigger] final(self).graph.edges_from(q) == old(self).graph.edges_from(q),
            final(self).graph.next_arena_id() == old(self).graph.next_arena_id(),
    {
        proof {
            self.graph.lemma_arena_within_total(arena.0);
        }
        self.graph.add_node(arena, AstGraphNode { node_type, properties, position })
    }

    /// Adds one edge.
    fn add_edge(&mut self, from: NodeRef, edge_type: ExecEdgeType, to: NodeRef)
        requires
            old(self).wf(),
            old(self).graph.node(from) is Some,
        ensures
            final(self).wf(),
            final(self).default_arena == old(self).default_arena,
            final(self).graph.edges_from(from) == old(self).graph.edges_from(from).push((edge_type, to)),
            forall|q: NodeRef| q != from ==> #[trigger] final(self).graph.edges_from(q) == old(self).graph.edges_from(q),
            forall|q: NodeRef| #[trigger] final(self).graph.node(q) == old(self).graph.node(q),
            final(self).graph.arenas() == old(self).graph.arenas(),
            final(self).graph.total_nodes() == old(self).graph.total_nodes(),
            final(self).graph.next_arena_id() == old(self).graph.next_arena_id(),
    {
        self.graph.add_edge(from, edge_type, to);
    }

    /// Convert an expression into the given arena.
    pub fn convert_expr_in(&mut self, expr: &Expr, arena: ArenaId) -> (r: NodeRef)
        requires
            old(self).wf(),
            old(self).graph_spec().arenas().contains_key(arena.0),
            room(old(self).graph_spec(), expr_nodes(*expr)),
        ensures
            r == next_slot(old(self).graph_spec(), arena),
            r.arena_id == arena,
            final(self).wf(),
            added(old(self).graph_spec(), final(self).graph_spec(), expr_nodes(*expr)),
            final(self).default_arena_spec() == old(self).default_arena_spec(),
            fresh_node(old(self).graph_spec(), final(self).graph_spec(), r, expr_node_type(*expr)),
            expr_built(old(self).graph_spec(), final(self).graph_spec(), r, *expr),
        decreases *expr, 1int,
    {
        match expr {
            Expr::Binary { .. } => self.convert_binary(expr, arena),
            Expr::Unary { .. } => self.convert_unary(expr, arena),
            Expr::PropertyAccess { .. } => self.convert_property_access(expr, arena),
            Expr::Index { .. } => self.convert_index(expr, arena),
            Expr::Raise { .. } => self.convert_raise(expr, arena),
            Expr::Conditional { .. } => self.convert_conditional(expr, arena),
            Expr::Lambda { .. } => self.convert_lambda(expr, arena),
            Expr::List { .. } => self.convert_list(expr, arena),
            Expr::Call { .. } => self.convert_call(expr, arena),
            Expr::MethodCall { .. } => self.convert_method_call(expr, arena),
            Expr::SuperMethodCall { .. } => self.convert_super_method_call(expr, arena),
            Expr::Block { statements, position } => self.convert_stmt_block(statements, arena, *position),
            Expr::MapLit { .. } => self.convert_map(expr, arena),
            Expr::Instantiate { .. } => self.convert_instantiate(expr, arena),
            Expr::Match { .. } => self.convert_match(expr, arena),
            Expr::Graph { .. } => self.convert_graph_expr(expr, arena),
            Expr::Literal { value, position } => {
                let r = self.convert_literal(value, *position, arena);
                assert(expr_nodes(*expr) == 1);
                r
            },
            Expr::Variable { name, position } => {
                let mut props: Vec<(String, AstProperty)> = Vec::new();
                props.push((String::from_str("name"), AstProperty::Str(name.clone())));
                proof {
                    reveal_strlit("name");
                }
                self.add_node(arena, AstNodeType::Identifier, props, *position)
            },
        }
    }

    /// A binary expression: an operator node with its operands below it.
    #[verifier::spinoff_prover]
    fn convert_binary(&mut self, expr: &Expr, arena: ArenaId) -> (r: NodeRef)
        requires
            old(self).wf(),
            old(self).graph_spec().arenas().contains_key(arena.0),
            room(old(self).graph_spec(), expr_nodes(*expr)),
            expr is Binary,
        ensures
            r == next_slot(old(self).graph_spec(), arena),
            r.arena_id == arena,
            final(self).wf(),
            added(old(self).graph_spec(), final(self).graph_spec(), expr_nodes(*expr)),
            final(self).default_arena_spec() == old(self).default_arena_spec(),
            fresh_node(old(self).graph_spec(), final(self).graph_spec(), r, expr_node_type(*expr)),
            expr_built(old(self).graph_spec(), final(self).graph_spec(), r, *expr),
        decreases *expr, 0int,
    {
        match expr {
            Expr::Binary { left, op, right, position } => {
                let mut props: Vec<(String, AstProperty)> = Vec::new();
                props.push((String::from_str("operator"), AstProperty::BinaryOp(*op)));
                let node = self.add_node(arena, AstNodeType::BinaryExpr, props, *position);
                let ghost g1 = self.graph;
                let left_ref = self.convert_expr_in(left, arena);
                let ghost g2 = self.graph;
                let right_ref = self.convert_expr_in(right, arena);
                let ghost g3 = self.graph;
                self.add_edge(node, ExecEdgeType::Left, left_ref);
                self.add_edge(node, ExecEdgeType::Right, right_ref);
                proof {
                    reveal_strlit("operator");
                    assert(old(self).graph.edges_from(node).len() == 0);
                    assert(g2.edges_from(node) == g1.edges_from(node));
                    assert(g3.edges_from(node) == g2.edges_from(node));
                    assert(self.graph.edges_from(node) =~= seq![(ExecEdgeType::Left, left_ref), (ExecEdgeType::Right, right_ref)]);
                    lemma_expr_built_stays(g1, g2, old(self).graph, self.graph, left_ref, **left);
                    lemma_expr_built_stays(g2, g3, old(self).graph, self.graph, right_ref, **right);
                    g2.lemma_node_index_in_arena(left_ref);
                    g2.lemma_arena_within_total(arena.0);
                    g1.lemma_arena_within_total(arena.0);
                    assert(left_ref.index.0 == node.index.0 + 1);
                    assert(left_ref.index.0 < right_ref.index.0);
                }
                node
            },
            _ => unreached(),
        }
    }

    /// A unary expression: an operator node with its operand below it.
    #[verifier::spinoff_prover]
    fn convert_unary(&mut self, expr: &Expr, arena: ArenaId) -> (r: NodeRef)
        requires
            old(self).wf(),
            old(self).graph_spec().arenas().contains_key(arena.0),
            room(old(self).graph_spec(), expr_nodes(*expr)),
            expr is Unary,
        ensures
            r == next_slot(old(self).graph_spec(), arena),
            r.arena_id == arena,
            final(self).wf(),
            added(old(self).graph_spec(), final(self).graph_spec(), expr_nodes(*expr)),
            final(self).default_arena_spec() == old(self).default_arena_spec(),
            fresh_node(old(self).graph_spec(), final(self).graph_spec(), r, expr_node_type(*expr)),
            expr_built(old(self).graph_spec(), final(self).graph_spec(), r, *expr),
        decreases *expr, 0int,
    {
        match expr {
            Expr::Unary { op, operand, position } => {
                let mut props: Vec<(String, AstProperty)> = Vec::new();
                props.push((String::from_str("operator"), AstProperty::UnaryOp(*op)));
                let node = self.add_node(arena, AstNodeType::UnaryExpr, props, *position);
                let ghost g1 = self.graph;
                let operand_ref = self.convert_expr_in(operand, arena);
                let ghost g2 = self.graph;
                self.add_edge(node, ExecEdgeType::Operand, operand_ref);
                proof {
                    reveal_strlit("operator");
                    assert(old(self).graph.edges_from(node).len() == 0);
                    assert(g2.edges_from(node) == g1.edges_from(node));
                    assert(self.graph.edges_from(node) =~= seq![(ExecEdgeType::Operand, operand_ref)]);
                    lemma_expr_built_stays(g1, g2, old(self).graph, self.graph, operand_ref, **operand);
                }
                node
            },
            _ => unreached(),
        }
    }

    /// A property access: a node with the property name and the object below it.
    #[verifier::spinoff_prover]
    fn convert_property_access(&mut self, expr: &Expr, arena: ArenaId) -> (r: NodeRef)
        requires
            old(self).wf(),
            old(self).graph_spec().arenas().contains_key(arena.0),
            room(old(self).graph_spec(), expr_nodes(*expr)),
            expr is PropertyAccess,
        ensures
            r == next_slot(old(self).graph_spec(), arena),
            r.arena_id == arena,
            final(self).wf(),
            added(old(self).graph_spec(), final(self).graph_spec(), expr_nodes(*expr)),
            final(self).default_arena_spec() == old(self).default_arena_spec(),
            fresh_node(old(self).graph_spec(), final(self).graph_spec(), r, expr_node_type(*expr)),
            expr_built(old(self).graph_spec(), final(self).graph_spec(), r, *expr),
        decreases *expr, 0int,
    {
        match expr {
            Expr::PropertyAccess { object, property, position } => {
                let mut props: Vec<(String, AstProperty)> = Vec::new();
                props.push((String::from_str("property"), AstProperty::Str(property.clone())));
                let node = self.add_node(arena, AstNodeType::PropertyAccessExpr, props, *position);
                let ghost g1 = self.graph;
                let obj_ref = self.convert_expr_in(object, arena);
                let ghost g2 = self.graph;
                self.add_edge(node, ExecEdgeType::Object, obj_ref);
                proof {
                    reveal_strlit("property");
                    assert(old(self).graph.edges_from(node).len() == 0);
                    assert(g2.edges_from(node) == g1.edges_from(node));
                    assert(self.graph.edges_from(node) =~= seq![(ExecEdgeType::Object, obj_ref)]);
                    lemma_expr_built_stays(g1, g2, old(self).graph, self.graph, obj_ref, **object);
                }
                node
            },
            _ => unreached(),
        }
    }

    /// An index expression: a node with the object and the index below it.
    #[verifier::spinoff_prover]
    fn convert_index(&mut self, expr: &Expr, arena: ArenaId) -> (r: NodeRef)
        requires
            old(self).wf(),
            old(self).graph_spec().arenas().contains_key(arena.0),
            room(old(self).graph_spec(), expr_nodes(*expr)),
            expr is Index,
        ensures
            r == next_slot(old(self).graph_spec(), arena),
            r.arena_id == arena,
            final(self).wf(),
            added(old(self).graph_spec(), final(self).graph_spec(), expr_nodes(*expr)),
            final(self).default_arena_spec() == old(self).default_arena_spec(),
            fresh_node(old(self).graph_spec(), final(self).graph_spec(), r, expr_node_type(*expr)),
            expr_built(old(self).graph_spec(), final(self).graph_spec(), r, *expr),
        decreases *expr, 0int,
    {
        match expr {
            Expr::Index { object, index, position } => {
                let node = self.add_node(arena, AstNodeType::IndexExpr, Vec::new(), *position);
                let ghost g1 = self.graph;
                let obj_ref = self.convert_expr_in(object, arena);
                let ghost g2 = self.graph;
                let idx_ref = self.convert_expr_in(index, arena);
                let ghost g3 = self.graph;
                self.add_edge(node, ExecEdgeType::Object, obj_ref);
                self.add_edge(node, ExecEdgeType::ValueEdge, idx_ref);
                proof {
                    assert(old(self).graph.edges_from(node).len() == 0);
                    assert(g2.edges_from(node) == g1.edges_from(node));
                    assert(g3.edges_from(node) == g2.edges_from(node));
                    assert(self.graph.edges_from(node) =~= seq![(ExecEdgeType::Object, obj_ref), (ExecEdgeType::ValueEdge, idx_ref)]);
                    lemma_expr_built_stays(g1, g2, old(self).graph, self.graph, obj_ref, **object);
                    lemma_expr_built_stays(g2, g3, old(self).graph, self.graph, idx_ref, **index);
                }
                node
            },
            _ => unreached(),
        }
    }

    /// A raise: a node with the error expression below it.
    #[verifier::spinoff_prover]
    fn convert_raise(&mut self, expr: &Expr, arena: ArenaId) -> (r: NodeRef)
        requires
            old(self).wf(),
            old(self).graph_spec().arenas().contains_key(arena.0),
            room(old(self).graph_spec(), expr_nodes(*expr)),
            expr is Raise,
        ensures
            r == next_slot(old(self).graph_spec(), arena),
            r.arena_id == arena,
            final(self).wf(),
            added(old(self).graph_spec(), final(self).graph_spec(), expr_nodes(*expr)),
            final(self).default_arena_spec() == old(self).default_arena_spec(),
            fresh_node(old(self).graph_spec(), final(self).graph_spec(), r, expr_node_type(*expr)),
            expr_built(old(self).graph_spec(), final(self).graph_spec(), r, *expr),
        decreases *expr, 0int,
    {
        match expr {
            Expr::Raise { error, position } => {
                let node = self.add_node(arena, AstNodeType::RaiseExpr, Vec::new(), *position);
                let ghost g1 = self.graph;
                let err_ref = self.convert_expr_in(error, arena);
                let ghost g2 = self.graph;
                self.add_edge(node, ExecEdgeType::ValueEdge, err_ref);
                proof {
                    assert(old(self).graph.edges_from(node).len() == 0);
                    assert(g2.edges_from(node) == g1.edges_from(node));
                    assert(self.graph.edges_from(node) =~= seq![(ExecEdgeType::ValueEdge, err_ref)]);
                    lemma_expr_built_stays(g1, g2, old(self).graph, self.graph, err_ref, **error);
                }
                node
            },
            _ => unreached(),
        }
    }

    /// A conditional: a node with the condition, the then branch and the else branch (if any) below it.
    #[verifier::spinoff_prover]
    #[verifier::rlimit(50)]
    fn convert_conditional(&mut self, expr: &Expr, arena: ArenaId) -> (r: NodeRef)
        requires
            old(self).wf(),
            old(self).graph_spec().arenas().contains_key(arena.0),
            room(old(self).graph_spec(), expr_nodes(*expr)),
            expr is Conditional,
        ensures
            r == next_slot(old(self).graph_spec(), arena),
            r.arena_id == arena,
            final(self).wf(),
            added(old(self).graph_spec(), final(self).graph_spec(), expr_nodes(*expr)),
            final(self).default_arena_spec() == old(self).default_arena_spec(),
            fresh_node(old(self).graph_spec(), final(self).graph_spec(), r, expr_node_type(*expr)),
            expr_built(old(self).graph_spec(), final(self).graph_spec(), r, *expr),
        decreases *expr, 0int,
    {
        match expr {
            Expr::Conditional { condition, then_expr, else_expr, is_unless, position } => {
                let mut props: Vec<(String, AstProperty)> = Vec::new();
                props.push((String::from_str("is_unless"), AstProperty::Bool(*is_unless)));
                let node = self.add_node(arena, AstNodeType::ConditionalExpr, props, *position);
                let ghost g1 = self.graph;
                let cond_ref = self.convert_expr_in(condition, arena);
                let ghost g2 = self.graph;
                let then_ref = self.convert_expr_in(then_expr, arena);
                let ghost g3 = self.graph;
                self.add_edge(node, ExecEdgeType::Condition, cond_ref);
                self.add_edge(node, ExecEdgeType::ThenBranch, then_ref);
                let ghost g4 = self.graph;
                proof {
                    reveal_strlit("is_unless");
                    assert(old(self).graph.edges_from(node).len() == 0);
                    assert(g2.edges_from(node) == g1.edges_from(node));
                    assert(g3.edges_from(node) == g2.edges_from(node));
                    assert(g4.edges_from(node) =~= seq![(ExecEdgeType::Condition, cond_ref), (ExecEdgeType::ThenBranch, then_ref)]);
                    lemma_expr_built_stays(g1, g2, g1, g4, cond_ref, **condition);
                    lemma_expr_built_stays(g2, g3, g1, g4, then_ref, **then_expr);
                    lemma_expr_built_stays(g1, g4, old(self).graph, g4, cond_ref, **condition);
                    lemma_expr_built_stays(g1, g4, old(self).graph, g4, then_ref, **then_expr);
                }
                match else_expr {
                    Some(else_e) => {
                        assert(opt_expr_nodes(*else_expr) == expr_nodes(**else_e));
                        let else_ref = self.convert_expr_in(else_e, arena);
                        let ghost g5 = self.graph;
                        self.add_edge(node, ExecEdgeType::ElseBranch, else_ref);
                        proof {
                            assert(g5.edges_from(node) == g4.edges_from(node));
                            assert(self.graph.edges_from(node) =~= seq![
                                (ExecEdgeType::Condition, cond_ref),
                                (ExecEdgeType::ThenBranch, then_ref),
                                (ExecEdgeType::ElseBranch, else_ref),
                            ]);
                            lemma_expr_built_stays(g1, g4, old(self).graph, self.graph, cond_ref, **condition);
                            lemma_expr_built_stays(g1, g4, old(self).graph, self.graph, then_ref, **then_expr);
                            lemma_expr_built_stays(g4, g5, old(self).graph, self.graph, else_ref, **else_e);
                        }
                    },
                    None => {
                        assert(opt_expr_nodes(*else_expr) == 0);
                    },
                }
                node
            },
            _ => unreached(),
        }
    }

    /// A lambda: a node with the parameter names, and its body in an arena of its own below it.
    #[verifier::spinoff_prover]
    #[verifier::loop_isolation(false)]
    fn convert_lambda(&mut self, expr: &Expr, arena: ArenaId) -> (r: NodeRef)
        requires
            old(self).wf(),
            old(self).graph_spec().arenas().contains_key(arena.0),
            room(old(self).graph_spec(), expr_nodes(*expr)),
            expr is Lambda,
        ensures
            r == next_slot(old(self).graph_spec(), arena),
            r.arena_id == arena,
            final(self).wf(),
            added(old(self).graph_spec(), final(self).graph_spec(), expr_nodes(*expr)),
            final(self).default_arena_spec() == old(self).default_arena_spec(),
            fresh_node(old(self).graph_spec(), final(self).graph_spec(), r, expr_node_type(*expr)),
            expr_built(old(self).graph_spec(), final(self).graph_spec(), r, *expr),
        decreases *expr, 0int,
    {
        match expr {
            Expr::Lambda { params, body, position } => {
                let mut props: Vec<(String, AstProperty)> = Vec::new();
                props.push((String::from_str("param_count"), AstProperty::Int(params.len() as i64)));
                let props = with_numbered_texts(props, "param_", params);
                proof {
                    assert(props@[0] == props@.subrange(0, 1)[0]);
                }
                let node = self.add_node(arena, AstNodeType::LambdaExpr, props, *position);
                let ghost g0 = self.graph;
                let body_arena = self.new_body_arena();
                let ghost g1 = self.graph;
                let body_ref = self.convert_expr_in(body, body_arena);
                let ghost g2 = self.graph;
                self.add_edge(node, ExecEdgeType::Body, body_ref);
                proof {
                    assert(old(self).graph.edges_from(node).len() == 0);
                    assert(g2.edges_from(node) == g1.edges_from(node));
                    assert(self.graph.edges_from(node) =~= seq![(ExecEdgeType::Body, body_ref)]);
                    lemma_expr_built_stays(g1, g2, old(self).graph, self.graph, body_ref, **body);
                    assert forall|q: NodeRef| #[trigger] old(self).graph.node(q) is Some implies q.arena_id != body_ref.arena_id by {
                        assert(g0.node(q) is Some);
                    }
                }
                node
            },
            _ => unreached(),
        }
    }

    /// A list: a node with its elements below it, in order.
    #[verifier::spinoff_prover]
    #[verifier::loop_isolation(false)]
    fn convert_list(&mut self, expr: &Expr, arena: ArenaId) -> (r: NodeRef)
        requires
            old(self).wf(),
            old(self).graph_spec().arenas().contains_key(arena.0),
            room(old(self).graph_spec(), expr_nodes(*expr)),
            expr is List,
        ensures
            r == next_slot(old(self).graph_spec(), arena),
            r.arena_id == arena,
            final(self).wf(),
            added(old(self).graph_spec(), final(self).graph_spec(), expr_nodes(*expr)),
            final(self).default_arena_spec() == old(self).default_arena_spec(),
            fresh_node(old(self).graph_spec(), final(self).graph_spec(), r, expr_node_type(*expr)),
            expr_built(old(self).graph_spec(), final(self).graph_spec(), r, *expr),
        decreases *expr, 0int,
    {
        match expr {
            Expr::List { elements, position } => {
                let node = self.add_node(arena, AstNodeType::ListExpr, Vec::new(), *position);
                let ghost g1 = self.graph;
                proof {
                    assert(elements@.subrange(0, elements@.len() as int) =~= elements@);
                    assert(old(self).graph.edges_from(node).len() == 0);
                }
                let mut i: usize = 0;
                while i < elements.len()
                    invariant
                        self.wf(),
                        self.default_arena == old(self).default_arena,
                        self.graph.arenas().contains_key(arena.0),
                        grew(old(self).graph, self.graph),
                        forall|q: NodeRef| g1.node(q) is Some ==> #[trigger] self.graph.node(q) == g1.node(q),
                        g1.node(node) is Some,
                        i <= elements@.len(),
                        self.graph.total_nodes() + exprs_nodes(elements@.subrange(i as int, elements@.len() as int)) + 0
                            == old(self).graph.total_nodes() + expr_nodes(*expr),
                        room(old(self).graph, expr_nodes(*expr)),
                        fresh_node(old(self).graph, self.graph, node, AstNodeType::ListExpr),
                        self.graph.node(node) == g1.node(node),
                        self.graph.edges_from(node).len() == i,
                        forall|j: int| #![trigger self.graph.edges_from(node)[j]] 0 <= j < i ==> self.graph.edges_from(node)[j].0
                            == ExecEdgeType::Element(j as u32) && expr_built(g1, self.graph, self.graph.edges_from(node)[j].1, elements@[j]),
                    decreases elements@.len() - i,
                {
                    proof {
                        assert(elements@.subrange(i as int, elements@.len() as int).subrange(1, elements@.len() - i)
                            =~= elements@.subrange(i + 1, elements@.len() as int));
                    }
                    let ghost gi = self.graph;
                    let elem_ref = self.convert_expr_in(&elements[i], arena);
                    let ghost gj = self.graph;
                    self.add_edge(node, ExecEdgeType::Element(i as u32), elem_ref);
                    proof {
                        assert(gj.edges_from(node) == gi.edges_from(node));
                        assert forall|j: int| #![trigger self.graph.edges_from(node)[j]] 0 <= j < i + 1 implies self.graph.edges_from(node)[j].0
                            == ExecEdgeType::Element(j as u32) && expr_built(g1, self.graph, self.graph.edges_from(node)[j].1, elements@[j]) by {
                            if j < i {
                                assert(self.graph.edges_from(node)[j] == gi.edges_from(node)[j]);
                                lemma_expr_built_stays(g1, gi, g1, self.graph, gi.edges_from(node)[j].1, elements@[j]);
                            } else {
                                lemma_expr_built_stays(gi, gj, g1, self.graph, elem_ref, elements@[j]);
                            }
                        }
                    }
                    i = i + 1;
                }
                proof {
                    let es = self.graph.edges_from(node);
                    assert forall|j: int| #![trigger es[j]] 0 <= j < elements@.len() implies es[j].0
                        == ExecEdgeType::Element(j as u32) && expr_built(old(self).graph, self.graph, es[j].1, elements@[j]) by {
                        lemma_expr_built_stays(g1, self.graph, old(self).graph, self.graph, es[j].1, elements@[j]);
                    }
                }
                node
            },
            _ => unreached(),
        }
    }

    /// The arguments of a call, each converted and linked from `node` by an
    /// `Argument(i)` edge, in order.
    #[verifier::loop_isolation(false)]
    #[verifier::spinoff_prover]
    fn convert_arguments(&mut self, node: NodeRef, args: &Vec<Argument>, arena: ArenaId)
        requires
            old(self).wf(),
            old(self).graph.arenas().contains_key(arena.0),
            old(self).graph.node(node) is Some,
            room(old(self).graph, args_nodes(args@)),
        ensures
            final(self).wf(),
            final(self).default_arena == old(self).default_arena,
            grew_from(old(self).graph, final(self).graph, node),
            final(self).graph.total_nodes() == old(self).graph.total_nodes() + args_nodes(args@),
            final(self).graph.edges_from(node).len() == old(self).graph.edges_from(node).len() + args@.len(),
            final(self).graph.edges_from(node).subrange(0, old(self).graph.edges_from(node).len() as int)
                == old(self).graph.edges_from(node),
            args_built(
                old(self).graph,
                final(self).graph,
                final(self).graph.edges_from(node).subrange(
                    old(self).graph.edges_from(node).len() as int,
                    final(self).graph.edges_from(node).len() as int,
                ),
                args@,
            ),
        decreases args@, 0int,
    {
        let ghost g0 = self.graph;
        let ghost n0 = g0.edges_from(node).len();
        proof {
            assert(args@.subrange(0, args@.len() as int) =~= args@);
        }
        let mut i: usize = 0;
        while i < args.len()
            invariant
                self.wf(),
                self.default_arena == old(self).default_arena,
                self.graph.arenas().contains_key(arena.0),
                grew_from(g0, self.graph, node),
                i <= args@.len(),
                self.graph.total_nodes() + args_nodes(args@.subrange(i as int, args@.len() as int))
                    == g0.total_nodes() + args_nodes(args@),
                room(g0, args_nodes(args@)),
                self.graph.edges_from(node).len() == n0 + i,
                self.graph.edges_from(node).subrange(0, n0 as int) == g0.edges_from(node),
                forall|j: int| #![trigger self.graph.edges_from(node)[n0 + j]] 0 <= j < i ==> self.graph.edges_from(node)[n0 + j].0
                    == ExecEdgeType::Argument(j as u32) && arg_built(g0, self.graph, self.graph.edges_from(node)[n0 + j].1, args@[j]),
            decreases args@.len() - i,
        {
            proof {
                assert(args@.subrange(i as int, args@.len() as int).subrange(1, args@.len() - i)
                    =~= args@.subrange(i + 1, args@.len() as int));
            }
            let ghost gi = self.graph;
            let arg_ref = self.convert_argument(&args[i], arena);
            let ghost gj = self.graph;
            self.add_edge(node, ExecEdgeType::Argument(i as u32), arg_ref);
            proof {
                assert(gj.edges_from(node) == gi.edges_from(node));
                assert(self.graph.edges_from(node).subrange(0, n0 as int) =~= gi.edges_from(node).subrange(0, n0 as int));
                assert forall|j: int| #![trigger self.graph.edges_from(node)[n0 + j]] 0 <= j < i + 1 implies self.graph.edges_from(node)[n0 + j].0
                    == ExecEdgeType::Argument(j as u32) && arg_built(g0, self.graph, self.graph.edges_from(node)[n0 + j].1, args@[j]) by {
                    if j < i {
                        assert(self.graph.edges_from(node)[n0 + j] == gi.edges_from(node)[n0 + j]);
                        lemma_arg_built_stays(g0, gi, g0, self.graph, gi.edges_from(node)[n0 + j].1, args@[j]);
                    } else {
                        lemma_arg_built_stays(gi, gj, g0, self.graph, arg_ref, args@[j]);
                    }
                }
            }
            i = i + 1;
        }
        proof {
            let es = self.graph.edges_from(node).subrange(n0 as int, self.graph.edges_from(node).len() as int);
            assert forall|j: int| #![trigger es[j]] 0 <= j < args@.len() implies es[j].0
                == ExecEdgeType::Argument(j as u32) && arg_built(g0, self.graph, es[j].1, args@[j]) by {
                assert(es[j] == self.graph.edges_from(node)[n0 + j]);
            }
        }
    }

    /// A call: a node with the callee and then the arguments below it.
    #[verifier::spinoff_prover]
    fn convert_call(&mut self, expr: &Expr, arena: ArenaId) -> (r: NodeRef)
        requires
            old(self).wf(),
            old(self).graph_spec().arenas().contains_key(arena.0),
            room(old(self).graph_spec(), expr_nodes(*expr)),
            expr is Call,
        ensures
            r == next_slot(old(self).graph_spec(), arena),
            r.arena_id == arena,
            final(self).wf(),
            added(old(self).graph_spec(), final(self).graph_spec(), expr_nodes(*expr)),
            final(self).default_arena_spec() == old(self).default_arena_spec(),
            fresh_node(old(self).graph_spec(), final(self).graph_spec(), r, expr_node_type(*expr)),
            expr_built(old(self).graph_spec(), final(self).graph_spec(), r, *expr),
        decreases *expr, 0int,
    {
        match expr {
            Expr::Call { callee, args, position } => {
                let node = self.add_node(arena, AstNodeType::CallExpr, Vec::new(), *position);
                let ghost g1 = self.graph;
                let callee_ref = self.convert_expr_in(callee, arena);
                let ghost g2 = self.graph;
                self.add_edge(node, ExecEdgeType::Callee, callee_ref);
                let ghost g3 = self.graph;
                proof {
                    assert(old(self).graph.edges_from(node).len() == 0);
                    assert(g2.edges_from(node) == g1.edges_from(node));
                    assert(g3.edges_from(node) =~= seq![(ExecEdgeType::Callee, callee_ref)]);
                }
                self.convert_arguments(node, args, arena);
                proof {
                    let es = self.graph.edges_from(node);
                    assert(es.subrange(1, es.len() as int) =~= es.subrange(g3.edges_from(node).len() as int, es.len() as int));
                    assert(es[0] == g3.edges_from(node)[0]);
                    lemma_expr_built_stays(g1, g2, old(self).graph, self.graph, callee_ref, **callee);
                    lemma_args_built_stays(g3, self.graph, old(self).graph, self.graph, es.subrange(1, es.len() as int), args@);
                }
                node
            },
            _ => unreached(),
        }
    }

    /// A method call: a node with the method name, and the object and then the arguments below it.
    #[verifier::spinoff_prover]
    fn convert_method_call(&mut self, expr: &Expr, arena: ArenaId) -> (r: NodeRef)
        requires
            old(self).wf(),
            old(self).graph_spec().arenas().contains_key(arena.0),
            room(old(self).graph_spec(), expr_nodes(*expr)),
            expr is MethodCall,
        ensures
            r == next_slot(old(self).graph_spec(), arena),
            r.arena_id == arena,
            final(self).wf(),
            added(old(self).graph_spec(), final(self).graph_spec(), expr_nodes(*expr)),
            final(self).default_arena_spec() == old(self).default_arena_spec(),
            fresh_node(old(self).graph_spec(), final(self).graph_spec(), r, expr_node_type(*expr)),
            expr_built(old(self).graph_spec(), final(self).graph_spec(), r, *expr),
        decreases *expr, 0int,
    {
        match expr {
            Expr::MethodCall { object, method, args, position } => {
                let mut props: Vec<(String, AstProperty)> = Vec::new();
                props.push((String::from_str("method"), AstProperty::Str(method.clone())));
                let node = self.add_node(arena, AstNodeType::MethodCallExpr, props, *position);
                let ghost g1 = self.graph;
                let obj_ref = self.convert_expr_in(object, arena);
                let ghost g2 = self.graph;
                self.add_edge(node, ExecEdgeType::Object, obj_ref);
                let ghost g3 = self.graph;
                proof {
                    reveal_strlit("method");
                    assert(old(self).graph.edges_from(node).len() == 0);
                    assert(g2.edges_from(node) == g1.edges_from(node));
                    assert(g3.edges_from(node) =~= seq![(ExecEdgeType::Object, obj_ref)]);
                }
                self.convert_arguments(node, args, arena);
                proof {
                    let es = self.graph.edges_from(node);
                    assert(es.subrange(1, es.len() as int) =~= es.subrange(g3.edges_from(node).len() as int, es.len() as int));
                    assert(es[0] == g3.edges_from(node)[0]);
                    lemma_expr_built_stays(g1, g2, old(self).graph, self.graph, obj_ref, **object);
                    lemma_args_built_stays(g3, self.graph, old(self).graph, self.graph, es.subrange(1, es.len() as int), args@);
                }
                node
            },
            _ => unreached(),
        }
    }

    /// A call of a parent's method: a node with the method name and the arguments below it.
    #[verifier::spinoff_prover]
    fn convert_super_method_call(&mut self, expr: &Expr, arena: ArenaId) -> (r: NodeRef)
        requires
            old(self).wf(),
            old(self).graph_spec().arenas().contains_key(arena.0),
            room(old(self).graph_spec(), expr_nodes(*expr)),
            expr is SuperMethodCall,
        ensures
            r == next_slot(old(self).graph_spec(), arena),
            r.arena_id == arena,
            final(self).wf(),
            added(old(self).graph_spec(), final(self).graph_spec(), expr_nodes(*expr)),
            final(self).default_arena_spec() == old(self).default_arena_spec(),
            fresh_node(old(self).graph_spec(), final(self).graph_spec(), r, expr_node_type(*expr)),
            expr_built(old(self).graph_spec(), final(self).graph_spec(), r, *expr),
        decreases *expr, 0int,
    {
        match expr {
            Expr::SuperMethodCall { method, args, position } => {
                let mut props: Vec<(String, AstProperty)> = Vec::new();
                props.push((String::from_str("method"), AstProperty::Str(method.clone())));
                let node = self.add_node(arena, AstNodeType::SuperMethodCallExpr, props, *position);
                let ghost g1 = self.graph;
                proof {
                    reveal_strlit("method");
                    assert(old(self).graph.edges_from(node).len() == 0);
                }
                self.convert_arguments(node, args, arena);
                proof {
                    let es = self.graph.edges_from(node);
                    assert(es =~= es.subrange(g1.edges_from(node).len() as int, es.len() as int));
                    lemma_args_built_stays(g1, self.graph, old(self).graph, self.graph, es, args@);
                }
                node
            },
            _ => unreached(),
        }
    }

    /// A map: a node with an entry node per entry below it, in order.
    #[verifier::spinoff_prover]
    #[verifier::loop_isolation(false)]
    fn convert_map(&mut self, expr: &Expr, arena: ArenaId) -> (r: NodeRef)
        requires
            old(self).wf(),
            old(self).graph_spec().arenas().contains_key(arena.0),
            room(old(self).graph_spec(), expr_nodes(*expr)),
            expr is MapLit,
        ensures
            r == next_slot(old(self).graph_spec(), arena),
            r.arena_id == arena,
            final(self).wf(),
            added(old(self).graph_spec(), final(self).graph_spec(), expr_nodes(*expr)),
            final(self).default_arena_spec() == old(self).default_arena_spec(),
            fresh_node(old(self).graph_spec(), final(self).graph_spec(), r, expr_node_type(*expr)),
            expr_built(old(self).graph_spec(), final(self).graph_spec(), r, *expr),
        decreases *expr, 0int,
    {
        match expr {
            Expr::MapLit { entries, position } => {
                let node = self.add_node(arena, AstNodeType::MapExpr, Vec::new(), *position);
                let ghost g1 = self.graph;
                proof {
                    assert(entries@.subrange(0, entries@.len() as int) =~= entries@);
                    assert(old(self).graph.edges_from(node).len() == 0);
                }
                let mut i: usize = 0;
                while i < entries.len()
                    invariant
                        self.wf(),
                        self.default_arena == old(self).default_arena,
                        self.graph.arenas().contains_key(arena.0),
                        grew(old(self).graph, self.graph),
                        room(old(self).graph, expr_nodes(*expr)),
                        forall|q: NodeRef| g1.node(q) is Some ==> #[trigger] self.graph.node(q) == g1.node(q),
                        g1.node(node) is Some,
                        fresh_node(old(self).graph, self.graph, node, AstNodeType::MapExpr),
                        i <= entries@.len(),
                        self.graph.total_nodes() + entries_nodes(entries@.subrange(i as int, entries@.len() as int)) + 0
                            == old(self).graph.total_nodes() + expr_nodes(*expr),
                        self.graph.edges_from(node).len() == i,
                        forall|j: int| #![trigger self.graph.edges_from(node)[j]] 0 <= j < i ==> self.graph.edges_from(node)[j].0
                            == ExecEdgeType::Element(j as u32) && entry_built(g1, self.graph, self.graph.edges_from(node)[j].1,
                            entries@[j].0@, entries@[j].1, *position),
                    decreases entries@.len() - i,
                {
                    proof {
                        assert(entries@.subrange(i as int, entries@.len() as int).subrange(1, entries@.len() - i)
                            =~= entries@.subrange(i + 1, entries@.len() as int));
                    }
                    let ghost gi = self.graph;
                    let entry_ref = self.convert_entry(&entries[i].0, &entries[i].1, *position, arena);
                    let ghost gj = self.graph;
                    self.add_edge(node, ExecEdgeType::Element(i as u32), entry_ref);
                    proof {
                        assert(gj.edges_from(node) == gi.edges_from(node));
                        assert forall|j: int| #![trigger self.graph.edges_from(node)[j]] 0 <= j < i + 1 implies self.graph.edges_from(node)[j].0
                            == ExecEdgeType::Element(j as u32) && entry_built(g1, self.graph, self.graph.edges_from(node)[j].1,
                            entries@[j].0@, entries@[j].1, *position) by {
                            if j < i {
                                assert(self.graph.edges_from(node)[j] == gi.edges_from(node)[j]);
                                lemma_entry_built_stays(g1, gi, g1, self.graph, gi.edges_from(node)[j].1, entries@[j].0@, entries@[j].1, *position);
                            } else {
                                lemma_entry_built_stays(gi, gj, g1, self.graph, entry_ref, entries@[j].0@, entries@[j].1, *position);
                            }
                        }
                    }
                    i = i + 1;
                }
                proof {
                    let es = self.graph.edges_from(node);
                    assert forall|j: int| #![trigger es[j]] 0 <= j < entries@.len() implies es[j].0 == ExecEdgeType::Element(j as u32)
                        && entry_built(old(self).graph, self.graph, es[j].1, entries@[j].0@, entries@[j].1, *position) by {
                        lemma_entry_built_stays(g1, self.graph, old(self).graph, self.graph, es[j].1, entries@[j].0@, entries@[j].1, *position);
                    }
                }
                node
            },
            _ => unreached(),
        }
    }

    /// An instantiation: a node with the class expression, then an entry node per override, below it.
    #[verifier::spinoff_prover]
    #[verifier::loop_isolation(false)]
    fn convert_instantiate(&mut self, expr: &Expr, arena: ArenaId) -> (r: NodeRef)
        requires
            old(self).wf(),
            old(self).graph_spec().arenas().contains_key(arena.0),
            room(old(self).graph_spec(), expr_nodes(*expr)),
            expr is Instantiate,
        ensures
            r == next_slot(old(self).graph_spec(), arena),
            r.arena_id == arena,
            final(self).wf(),
            added(old(self).graph_spec(), final(self).graph_spec(), expr_nodes(*expr)),
            final(self).default_arena_spec() == old(self).default_arena_spec(),
            fresh_node(old(self).graph_spec(), final(self).graph_spec(), r, expr_node_type(*expr)),
            expr_built(old(self).graph_spec(), final(self).graph_spec(), r, *expr),
        decreases *expr, 0int,
    {
        match expr {
            Expr::Instantiate { class_name, overrides, position } => {
                let node = self.add_node(arena, AstNodeType::InstantiateExpr, Vec::new(), *position);
                let ghost g1 = self.graph;
                let class_ref = self.convert_expr_in(class_name, arena);
                let ghost g2 = self.graph;
                self.add_edge(node, ExecEdgeType::Object, class_ref);
                proof {
                    assert(overrides@.subrange(0, overrides@.len() as int) =~= overrides@);
                    assert(old(self).graph.edges_from(node).len() == 0);
                    assert(g2.edges_from(node) == g1.edges_from(node));
                    lemma_expr_built_stays(g1, g2, g1, self.graph, class_ref, **class_name);
                }
                let mut i: usize = 0;
                while i < overrides.len()
                    invariant
                        self.wf(),
                        self.default_arena == old(self).default_arena,
                        self.graph.arenas().contains_key(arena.0),
                        grew(old(self).graph, self.graph),
                        room(old(self).graph, expr_nodes(*expr)),
                        forall|q: NodeRef| g1.node(q) is Some ==> #[trigger] self.graph.node(q) == g1.node(q),
                        g1.node(node) is Some,
                        fresh_node(old(self).graph, self.graph, node, AstNodeType::InstantiateExpr),
                        i <= overrides@.len(),
                        self.graph.total_nodes() + entries_nodes(overrides@.subrange(i as int, overrides@.len() as int)) + 0
                            == old(self).graph.total_nodes() + expr_nodes(*expr),
                        self.graph.edges_from(node).len() == 1 + i,
                        self.graph.edges_from(node)[0] == (ExecEdgeType::Object, class_ref),
                        expr_built(g1, self.graph, class_ref, **class_name),
                        forall|j: int| #![trigger self.graph.edges_from(node)[1 + j]] 0 <= j < i ==> self.graph.edges_from(node)[1 + j].0
                            == ExecEdgeType::Override(j as u32) && entry_built(g1, self.graph, self.graph.edges_from(node)[1 + j].1,
                            overrides@[j].0@, overrides@[j].1, *position),
                    decreases overrides@.len() - i,
                {
                    proof {
                        assert(overrides@.subrange(i as int, overrides@.len() as int).subrange(1, overrides@.len() - i)
                            =~= overrides@.subrange(i + 1, overrides@.len() as int));
                    }
                    let ghost gi = self.graph;
                    let ov_ref = self.convert_entry(&overrides[i].0, &overrides[i].1, *position, arena);
                    let ghost gj = self.graph;
                    self.add_edge(node, ExecEdgeType::Override(i as u32), ov_ref);
                    proof {
                        assert(gj.edges_from(node) == gi.edges_from(node));
                        lemma_expr_built_stays(g1, gi, g1, self.graph, class_ref, **class_name);
                        assert forall|j: int| #![trigger self.graph.edges_from(node)[1 + j]] 0 <= j < i + 1 implies self.graph.edges_from(node)[1 + j].0
                            == ExecEdgeType::Override(j as u32) && entry_built(g1, self.graph, self.graph.edges_from(node)[1 + j].1,
                            overrides@[j].0@, overrides@[j].1, *position) by {
                            if j < i {
                                assert(self.graph.edges_from(node)[1 + j] == gi.edges_from(node)[1 + j]);
                                lemma_entry_built_stays(g1, gi, g1, self.graph, gi.edges_from(node)[1 + j].1, overrides@[j].0@, overrides@[j].1, *position);
                            } else {
                                lemma_entry_built_stays(gi, gj, g1, self.graph, ov_ref, overrides@[j].0@, overrides@[j].1, *position);
                            }
                        }
                    }
                    i = i + 1;
                }
                proof {
                    let es = self.graph.edges_from(node);
                    let os = es.subrange(1, es.len() as int);
                    lemma_expr_built_stays(g1, self.graph, old(self).graph, self.graph, class_ref, **class_name);
                    assert forall|j: int| #![trigger os[j]] 0 <= j < overrides@.len() implies os[j].0 == ExecEdgeType::Override(j as u32)
                        && entry_built(old(self).graph, self.graph, os[j].1, overrides@[j].0@, overrides@[j].1, *position) by {
                        assert(os[j] == es[1 + j]);
                        lemma_entry_built_stays(g1, self.graph, old(self).graph, self.graph, os[j].1, overrides@[j].0@, overrides@[j].1, *position);
                    }
                }
                node
            },
            _ => unreached(),
        }
    }

    /// A match: a node with the matched value, then an arm node per arm, below it.
    #[verifier::spinoff_prover]
    #[verifier::loop_isolation(false)]
    fn convert_match(&mut self, expr: &Expr, arena: ArenaId) -> (r: NodeRef)
        requires
            old(self).wf(),
            old(self).graph_spec().arenas().contains_key(arena.0),
            room(old(self).graph_spec(), expr_nodes(*expr)),
            expr is Match,
        ensures
            r == next_slot(old(self).graph_spec(), arena),
            r.arena_id == arena,
            final(self).wf(),
            added(old(self).graph_spec(), final(self).graph_spec(), expr_nodes(*expr)),
            final(self).default_arena_spec() == old(self).default_arena_spec(),
            fresh_node(old(self).graph_spec(), final(self).graph_spec(), r, expr_node_type(*expr)),
            expr_built(old(self).graph_spec(), final(self).graph_spec(), r, *expr),
        decreases *expr, 0int,
    {
        match expr {
            Expr::Match { value, arms, position } => {
                let node = self.add_node(arena, AstNodeType::MatchExpr, Vec::new(), *position);
                let ghost g1 = self.graph;
                let val_ref = self.convert_expr_in(value, arena);
                let ghost g2 = self.graph;
                self.add_edge(node, ExecEdgeType::MatchValue, val_ref);
                proof {
                    assert(arms@.subrange(0, arms@.len() as int) =~= arms@);
                    assert(old(self).graph.edges_from(node).len() == 0);
                    assert(g2.edges_from(node) == g1.edges_from(node));
                    lemma_expr_built_stays(g1, g2, g1, self.graph, val_ref, **value);
                }
                let mut i: usize = 0;
                while i < arms.len()
                    invariant
                        self.wf(),
                        self.default_arena == old(self).default_arena,
                        self.graph.arenas().contains_key(arena.0),
                        grew(old(self).graph, self.graph),
                        room(old(self).graph, expr_nodes(*expr)),
                        forall|q: NodeRef| g1.node(q) is Some ==> #[trigger] self.graph.node(q) == g1.node(q),
                        g1.node(node) is Some,
                        fresh_node(old(self).graph, self.graph, node, AstNodeType::MatchExpr),
                        i <= arms@.len(),
                        self.graph.total_nodes() + arms_nodes(arms@.subrange(i as int, arms@.len() as int)) + 0
                            == old(self).graph.total_nodes() + expr_nodes(*expr),
                        self.graph.edges_from(node).len() == 1 + i,
                        self.graph.edges_from(node)[0] == (ExecEdgeType::MatchValue, val_ref),
                        expr_built(g1, self.graph, val_ref, **value),
                        forall|j: int| #![trigger self.graph.edges_from(node)[1 + j]] 0 <= j < i ==> self.graph.edges_from(node)[1 + j].0
                            == ExecEdgeType::MatchArm(j as u32) && arm_built(g1, self.graph, self.graph.edges_from(node)[1 + j].1, arms@[j]),
                    decreases arms@.len() - i,
                {
                    proof {
                        assert(arms@.subrange(i as int, arms@.len() as int).subrange(1, arms@.len() - i)
                            =~= arms@.subrange(i + 1, arms@.len() as int));
                    }
                    let ghost gi = self.graph;
                    let arm_ref = self.convert_match_arm(&arms[i], arena);
                    let ghost gj = self.graph;
                    self.add_edge(node, ExecEdgeType::MatchArm(i as u32), arm_ref);
                    proof {
                        assert(gj.edges_from(node) == gi.edges_from(node));
                        lemma_expr_built_stays(g1, gi, g1, self.graph, val_ref, **value);
                        assert forall|j: int| #![trigger self.graph.edges_from(node)[1 + j]] 0 <= j < i + 1 implies self.graph.edges_from(node)[1 + j].0
                            == ExecEdgeType::MatchArm(j as u32) && arm_built(g1, self.graph, self.graph.edges_from(node)[1 + j].1, arms@[j]) by {
                            if j < i {
                                assert(self.graph.edges_from(node)[1 + j] == gi.edges_from(node)[1 + j]);
                                lemma_arm_built_stays(g1, gi, g1, self.graph, gi.edges_from(node)[1 + j].1, arms@[j]);
                            } else {
                                lemma_arm_built_stays(gi, gj, g1, self.graph, arm_ref, arms@[j]);
                            }
                        }
                    }
                    i = i + 1;
                }
                proof {
                    let es = self.graph.edges_from(node);
                    let as_ = es.subrange(1, es.len() as int);
                    lemma_expr_built_stays(g1, self.graph, old(self).graph, self.graph, val_ref, **value);
                    assert forall|j: int| #![trigger as_[j]] 0 <= j < arms@.len() implies as_[j].0 == ExecEdgeType::MatchArm(j as u32)
                        && arm_built(old(self).graph, self.graph, as_[j].1, arms@[j]) by {
                        assert(as_[j] == es[1 + j]);
                        lemma_arm_built_stays(g1, self.graph, old(self).graph, self.graph, as_[j].1, arms@[j]);
                    }
                }
                node
            },
            _ => unreached(),
        }
    }

    /// A graph literal: a node with a `Setting(key)` edge per configured value, then the parent (if any), below it.
    #[verifier::spinoff_prover]
    #[verifier::loop_isolation(false)]
    fn convert_graph_expr(&mut self, expr: &Expr, arena: ArenaId) -> (r: NodeRef)
        requires
            old(self).wf(),
            old(self).graph_spec().arenas().contains_key(arena.0),
            room(old(self).graph_spec(), expr_nodes(*expr)),
            expr is Graph,
        ensures
            r == next_slot(old(self).graph_spec(), arena),
            r.arena_id == arena,
            final(self).wf(),
            added(old(self).graph_spec(), final(self).graph_spec(), expr_nodes(*expr)),
            final(self).default_arena_spec() == old(self).default_arena_spec(),
            fresh_node(old(self).graph_spec(), final(self).graph_spec(), r, expr_node_type(*expr)),
            expr_built(old(self).graph_spec(), final(self).graph_spec(), r, *expr),
        decreases *expr, 0int,
    {
        match expr {
            Expr::Graph { config, parent, position } => {
                let node = self.add_node(arena, AstNodeType::GraphExpr, Vec::new(), *position);
                let ghost g1 = self.graph;
                proof {
                    assert(config@.subrange(0, config@.len() as int) =~= config@);
                    assert(old(self).graph.edges_from(node).len() == 0);
                }
                let mut i: usize = 0;
                while i < config.len()
                    invariant
                        self.wf(),
                        self.default_arena == old(self).default_arena,
                        self.graph.arenas().contains_key(arena.0),
                        grew(old(self).graph, self.graph),
                        room(old(self).graph, expr_nodes(*expr)),
                        forall|q: NodeRef| g1.node(q) is Some ==> #[trigger] self.graph.node(q) == g1.node(q),
                        g1.node(node) is Some,
                        fresh_node(old(self).graph, self.graph, node, AstNodeType::GraphExpr),
                        i <= config@.len(),
                        self.graph.total_nodes() + settings_nodes(config@.subrange(i as int, config@.len() as int)) + opt_expr_nodes(*parent)
                            == old(self).graph.total_nodes() + expr_nodes(*expr),
                        self.graph.edges_from(node).len() == i,
                        forall|j: int| #![trigger self.graph.edges_from(node)[j]] 0 <= j < i ==> (self.graph.edges_from(node)[j].0
                            matches ExecEdgeType::Setting(k) && k@ == config@[j].0@)
                            && expr_built(g1, self.graph, self.graph.edges_from(node)[j].1, config@[j].1),
                    decreases config@.len() - i,
                {
                    proof {
                        assert(config@.subrange(i as int, config@.len() as int).subrange(1, config@.len() - i)
                            =~= config@.subrange(i + 1, config@.len() as int));
                    }
                    let ghost gi = self.graph;
                    let val_ref = self.convert_expr_in(&config[i].1, arena);
                    let ghost gj = self.graph;
                    self.add_edge(node, ExecEdgeType::Setting(config[i].0.clone()), val_ref);
                    proof {
                        assert(gj.edges_from(node) == gi.edges_from(node));
                        assert forall|j: int| #![trigger self.graph.edges_from(node)[j]] 0 <= j < i + 1 implies (self.graph.edges_from(node)[j].0
                            matches ExecEdgeType::Setting(k) && k@ == config@[j].0@)
                            && expr_built(g1, self.graph, self.graph.edges_from(node)[j].1, config@[j].1) by {
                            if j < i {
                                assert(self.graph.edges_from(node)[j] == gi.edges_from(node)[j]);
                                lemma_expr_built_stays(g1, gi, g1, self.graph, gi.edges_from(node)[j].1, config@[j].1);
                            } else {
                                lemma_expr_built_stays(gi, gj, g1, self.graph, val_ref, config@[j].1);
                            }
                        }
                    }
                    i = i + 1;
                }
                let ghost g3 = self.graph;
                match parent {
                    Some(parent_expr) => {
                        let parent_ref = self.convert_expr_in(parent_expr, arena);
                        let ghost g4 = self.graph;
                        self.add_edge(node, ExecEdgeType::Parent, parent_ref);
                        proof {
                            assert(g4.edges_from(node) == g3.edges_from(node));
                            assert(self.graph.edges_from(node) =~= g3.edges_from(node).push((ExecEdgeType::Parent, parent_ref)));
                            lemma_expr_built_stays(g3, g4, old(self).graph, self.graph, parent_ref, **parent_expr);
                        }
                    },
                    None => {},
                }
                proof {
                    let es = self.graph.edges_from(node);
                    assert forall|j: int| #![trigger es[j]] 0 <= j < config@.len() implies (es[j].0 matches ExecEdgeType::Setting(k)
                        && k@ == config@[j].0@) && expr_built(old(self).graph, self.graph, es[j].1, config@[j].1) by {
                        assert(es[j] == g3.edges_from(node)[j]);
                        lemma_expr_built_stays(g1, g3, old(self).graph, self.graph, es[j].1, config@[j].1);
                    }
                }
                node
            },
            _ => unreached(),
        }
    }

    /// Convert a statement into the given arena.
    pub fn convert_stmt(&mut self, stmt: &Stmt, arena: ArenaId) -> (r: NodeRef)
        requires
            old(self).wf(),
            old(self).graph_spec().arenas().contains_key(arena.0),
            room(old(self).graph_spec(), stmt_nodes(*stmt)),
        ensures
            r.arena_id == arena,
            r == next_slot(old(self).graph_spec(), arena),
            final(self).wf(),
            added(old(self).graph_spec(), final(self).graph_spec(), stmt_nodes(*stmt)),
            final(self).default_arena_spec() == old(self).default_arena_spec(),
            fresh_node(old(self).graph_spec(), final(self).graph_spec(), r, stmt_node_type(*stmt)),
            stmt_built(old(self).graph_spec(), final(self).graph_spec(), r, *stmt),
        decreases *stmt, 1int,
    {
        match stmt {
            Stmt::Expression { .. } => self.convert_expression_stmt(stmt, arena),
            Stmt::VariableDecl { .. } => self.convert_variable_decl(stmt, arena),
            Stmt::Assignment { .. } => self.convert_assignment(stmt, arena),
            Stmt::If { .. } => self.convert_if(stmt, arena),
            Stmt::While { .. } => self.convert_while(stmt, arena),
            Stmt::For { .. } => self.convert_for(stmt, arena),
            Stmt::Return { .. } => self.convert_return(stmt, arena),
            Stmt::Precision { .. } => self.convert_precision(stmt, arena),
            Stmt::Configure { .. } => self.convert_configure(stmt, arena),
            Stmt::Try { .. } => self.convert_try(stmt, arena),
            Stmt::FunctionDecl { .. } => self.convert_function_decl(stmt, arena),
            Stmt::GraphDecl { .. } => self.convert_graph_decl(stmt, arena),
            Stmt::Break { position } => {
                let node = self.add_node(arena, AstNodeType::BreakStmt, Vec::new(), *position);
                assert(old(self).graph.edges_from(node).len() == 0);
                node
            },
            Stmt::Continue { position } => {
                let node = self.add_node(arena, AstNodeType::ContinueStmt, Vec::new(), *position);
                assert(old(self).graph.edges_from(node).len() == 0);
                node
            },
            _ => self.convert_module_stmt(stmt, arena),
        }
    }

    /// An expression statement: a node with the expression below it.
    #[verifier::spinoff_prover]
    fn convert_expression_stmt(&mut self, stmt: &Stmt, arena: ArenaId) -> (r: NodeRef)
        requires
            old(self).wf(),
            old(self).graph_spec().arenas().contains_key(arena.0),
            room(old(self).graph_spec(), stmt_nodes(*stmt)),
            stmt is Expression,
        ensures
            r.arena_id == arena,
            r == next_slot(old(self).graph_spec(), arena),
            final(self).wf(),
            added(old(self).graph_spec(), final(self).graph_spec(), stmt_nodes(*stmt)),
            final(self).default_arena_spec() == old(self).default_arena_spec(),
            fresh_node(old(self).graph_spec(), final(self).graph_spec(), r, stmt_node_type(*stmt)),
            stmt_built(old(self).graph_spec(), final(self).graph_spec(), r, *stmt),
        decreases *stmt, 0int,
    {
        match stmt {
            Stmt::Expression { expr, position } => {
                let node = self.add_node(arena, AstNodeType::ExpressionStmt, Vec::new(), *position);
                let ghost g1 = self.graph;
                let expr_ref = self.convert_expr_in(expr, arena);
                let ghost g2 = self.graph;
                self.add_edge(node, ExecEdgeType::ValueEdge, expr_ref);
                proof {
                    assert(old(self).graph.edges_from(node).len() == 0);
                    assert(g2.edges_from(node) == g1.edges_from(node));
                    assert(self.graph.edges_from(node) =~= seq![(ExecEdgeType::ValueEdge, expr_ref)]);
                    lemma_expr_built_stays(g1, g2, old(self).graph, self.graph, expr_ref, *expr);
                }
                node
            },
            _ => unreached(),
        }
    }

    /// A variable declaration: a node with the name, privacy and type, and the value below it.
    #[verifier::spinoff_prover]
    fn convert_variable_decl(&mut self, stmt: &Stmt, arena: ArenaId) -> (r: NodeRef)
        requires
            old(self).wf(),
            old(self).graph_spec().arenas().contains_key(arena.0),
            room(old(self).graph_spec(), stmt_nodes(*stmt)),
            stmt is VariableDecl,
        ensures
            r.arena_id == arena,
            r == next_slot(old(self).graph_spec(), arena),
            final(self).wf(),
            added(old(self).graph_spec(), final(self).graph_spec(), stmt_nodes(*stmt)),
            final(self).default_arena_spec() == old(self).default_arena_spec(),
            fresh_node(old(self).graph_spec(), final(self).graph_spec(), r, stmt_node_type(*stmt)),
            stmt_built(old(self).graph_spec(), final(self).graph_spec(), r, *stmt),
        decreases *stmt, 0int,
    {
        match stmt {
            Stmt::VariableDecl { name, type_annotation, value, is_private, position } => {
                let mut props: Vec<(String, AstProperty)> = Vec::new();
                props.push((String::from_str("name"), AstProperty::Str(name.clone())));
                props.push((String::from_str("is_private"), AstProperty::Bool(*is_private)));
                match type_annotation {
                    Some(ta) => {
                        props.push((String::from_str("type_base"), AstProperty::Str(ta.base_type.clone())));
                        match &ta.constraint {
                            Some(c) => {
                                props.push((String::from_str("type_constraint"), AstProperty::Str(c.clone())));
                            },
                            None => {},
                        }
                    },
                    None => {},
                }
                proof {
                    reveal_strlit("name");
                    reveal_strlit("is_private");
                    reveal_strlit("type_base");
                    reveal_strlit("type_constraint");
                }
                let node = self.add_node(arena, AstNodeType::VarDeclStmt, props, *position);
                let ghost g1 = self.graph;
                let val_ref = self.convert_expr_in(value, arena);
                let ghost g2 = self.graph;
                self.add_edge(node, ExecEdgeType::ValueEdge, val_ref);
                proof {
                    assert(old(self).graph.edges_from(node).len() == 0);
                    assert(g2.edges_from(node) == g1.edges_from(node));
                    assert(self.graph.edges_from(node) =~= seq![(ExecEdgeType::ValueEdge, val_ref)]);
                    lemma_expr_built_stays(g1, g2, old(self).graph, self.graph, val_ref, *value);
                }
                node
            },
            _ => unreached(),
        }
    }

    /// An assignment: a node with the kind and name of the target, the value below it, then the target's object and index.
    #[verifier::spinoff_prover]
    fn convert_assignment(&mut self, stmt: &Stmt, arena: ArenaId) -> (r: NodeRef)
        requires
            old(self).wf(),
            old(self).graph_spec().arenas().contains_key(arena.0),
            room(old(self).graph_spec(), stmt_nodes(*stmt)),
            stmt is Assignment,
        ensures
            r.arena_id == arena,
            r == next_slot(old(self).graph_spec(), arena),
            final(self).wf(),
            added(old(self).graph_spec(), final(self).graph_spec(), stmt_nodes(*stmt)),
            final(self).default_arena_spec() == old(self).default_arena_spec(),
            fresh_node(old(self).graph_spec(), final(self).graph_spec(), r, stmt_node_type(*stmt)),
            stmt_built(old(self).graph_spec(), final(self).graph_spec(), r, *stmt),
        decreases *stmt, 0int,
    {
        match stmt {
            Stmt::Assignment { target, value, position } => {
                let mut props: Vec<(String, AstProperty)> = Vec::new();
                match target {
                    AssignmentTarget::Variable(name) => {
                        props.push((String::from_str("target_type"), AstProperty::Str(String::from_str("variable"))));
                        props.push((String::from_str("target_name"), AstProperty::Str(name.clone())));
                    },
                    AssignmentTarget::Index { .. } => {
                        props.push((String::from_str("target_type"), AstProperty::Str(String::from_str("index"))));
                    },
                    AssignmentTarget::Property { property, .. } => {
                        props.push((String::from_str("target_type"), AstProperty::Str(String::from_str("property"))));
                        props.push((String::from_str("target_name"), AstProperty::Str(property.clone())));
                    },
                }
                proof {
                    reveal_strlit("target_type");
                    reveal_strlit("target_name");
                    reveal_strlit("variable");
                    reveal_strlit("index");
                    reveal_strlit("property");
                }
                let node = self.add_node(arena, AstNodeType::AssignStmt, props, *position);
                let ghost g1 = self.graph;
                let val_ref = self.convert_expr_in(value, arena);
                let ghost g2 = self.graph;
                self.add_edge(node, ExecEdgeType::ValueEdge, val_ref);
                proof {
                    assert(old(self).graph.edges_from(node).len() == 0);
                    assert(g2.edges_from(node) == g1.edges_from(node));
                    assert(self.graph.edges_from(node) =~= seq![(ExecEdgeType::ValueEdge, val_ref)]);
                }
                let ghost g3 = self.graph;
                match target {
                    AssignmentTarget::Index { object, index } => {
                        let obj_ref = self.convert_expr_in(object, arena);
                        let ghost g4 = self.graph;
                        let idx_ref = self.convert_expr_in(index, arena);
                        let ghost g5 = self.graph;
                        self.add_edge(node, ExecEdgeType::Object, obj_ref);
                        self.add_edge(node, ExecEdgeType::Target, idx_ref);
                        proof {
                            assert(g5.edges_from(node) == g3.edges_from(node));
                            assert(self.graph.edges_from(node) =~= seq![
                                (ExecEdgeType::ValueEdge, val_ref),
                                (ExecEdgeType::Object, obj_ref),
                                (ExecEdgeType::Target, idx_ref),
                            ]);
                            lemma_expr_built_stays(g3, g4, old(self).graph, self.graph, obj_ref, **object);
                            lemma_expr_built_stays(g4, g5, old(self).graph, self.graph, idx_ref, **index);
                        }
                    },
                    AssignmentTarget::Property { object, .. } => {
                        let obj_ref = self.convert_expr_in(object, arena);
                        let ghost g4 = self.graph;
                        self.add_edge(node, ExecEdgeType::Object, obj_ref);
                        proof {
                            assert(g4.edges_from(node) == g3.edges_from(node));
                            assert(self.graph.edges_from(node) =~= seq![
                                (ExecEdgeType::ValueEdge, val_ref),
                                (ExecEdgeType::Object, obj_ref),
                            ]);
                            lemma_expr_built_stays(g3, g4, old(self).graph, self.graph, obj_ref, **object);
                        }
                    },
                    AssignmentTarget::Variable(_) => {},
                }
                proof {
                    lemma_expr_built_stays(g1, g2, old(self).graph, self.graph, val_ref, *value);
                }
                node
            },
            _ => unreached(),
        }
    }

    /// An if statement: a node with the condition, then the then block and the else block (if any), below it.
    #[verifier::spinoff_prover]
    fn convert_if(&mut self, stmt: &Stmt, arena: ArenaId) -> (r: NodeRef)
        requires
            old(self).wf(),
            old(self).graph_spec().arenas().contains_key(arena.0),
            room(old(self).graph_spec(), stmt_nodes(*stmt)),
            stmt is If,
        ensures
            r.arena_id == arena,
            r == next_slot(old(self).graph_spec(), arena),
            final(self).wf(),
            added(old(self).graph_spec(), final(self).graph_spec(), stmt_nodes(*stmt)),
            final(self).default_arena_spec() == old(self).default_arena_spec(),
            fresh_node(old(self).graph_spec(), final(self).graph_spec(), r, stmt_node_type(*stmt)),
            stmt_built(old(self).graph_spec(), final(self).graph_spec(), r, *stmt),
        decreases *stmt, 0int,
    {
        match stmt {
            Stmt::If { condition, then_branch, else_branch, position } => {
                let node = self.add_node(arena, AstNodeType::IfStmt, Vec::new(), *position);
                let ghost g1 = self.graph;
                let cond_ref = self.convert_expr_in(condition, arena);
                let ghost g2 = self.graph;
                self.add_edge(node, ExecEdgeType::Condition, cond_ref);
                let ghost g3 = self.graph;
                let then_node = self.convert_stmt_block(then_branch, arena, *position);
                let ghost g4 = self.graph;
                self.add_edge(node, ExecEdgeType::ThenBranch, then_node);
                proof {
                    assert(old(self).graph.edges_from(node).len() == 0);
                    assert(g2.edges_from(node) == g1.edges_from(node));
                    assert(g4.edges_from(node) == g3.edges_from(node));
                    assert(self.graph.edges_from(node) =~= seq![(ExecEdgeType::Condition, cond_ref), (ExecEdgeType::ThenBranch, then_node)]);
                }
                let ghost g5 = self.graph;
                match else_branch {
                    Some(else_stmts) => {
                        let else_node = self.convert_stmt_block(else_stmts, arena, *position);
                        let ghost g6 = self.graph;
                        self.add_edge(node, ExecEdgeType::ElseBranch, else_node);
                        proof {
                            assert(g6.edges_from(node) == g5.edges_from(node));
                            assert(self.graph.edges_from(node) =~= seq![
                                (ExecEdgeType::Condition, cond_ref),
                                (ExecEdgeType::ThenBranch, then_node),
                                (ExecEdgeType::ElseBranch, else_node),
                            ]);
                            lemma_block_built_stays(g5, g6, old(self).graph, self.graph, else_node, else_stmts@, *position);
                        }
                    },
                    None => {},
                }
                proof {
                    lemma_expr_built_stays(g1, g2, old(self).graph, self.graph, cond_ref, *condition);
                    lemma_block_built_stays(g3, g4, old(self).graph, self.graph, then_node, then_branch@, *position);
                }
                node
            },
            _ => unreached(),
        }
    }

    /// A while loop: a node with the condition and the body block below it.
    #[verifier::spinoff_prover]
    fn convert_while(&mut self, stmt: &Stmt, arena: ArenaId) -> (r: NodeRef)
        requires
            old(self).wf(),
            old(self).graph_spec().arenas().contains_key(arena.0),
            room(old(self).graph_spec(), stmt_nodes(*stmt)),
            stmt is While,
        ensures
            r.arena_id == arena,
            r == next_slot(old(self).graph_spec(), arena),
            final(self).wf(),
            added(old(self).graph_spec(), final(self).graph_spec(), stmt_nodes(*stmt)),
            final(self).default_arena_spec() == old(self).default_arena_spec(),
            fresh_node(old(self).graph_spec(), final(self).graph_spec(), r, stmt_node_type(*stmt)),
            stmt_built(old(self).graph_spec(), final(self).graph_spec(), r, *stmt),
        decreases *stmt, 0int,
    {
        match stmt {
            Stmt::While { condition, body, position } => {
                let node = self.add_node(arena, AstNodeType::WhileStmt, Vec::new(), *position);
                let ghost g1 = self.graph;
                let cond_ref = self.convert_expr_in(condition, arena);
                let ghost g2 = self.graph;
                self.add_edge(node, ExecEdgeType::Condition, cond_ref);
                let ghost g3 = self.graph;
                let body_node = self.convert_stmt_block(body, arena, *position);
                let ghost g4 = self.graph;
                self.add_edge(node, ExecEdgeType::Body, body_node);
                proof {
                    assert(old(self).graph.edges_from(node).len() == 0);
                    assert(g2.edges_from(node) == g1.edges_from(node));
                    assert(g4.edges_from(node) == g3.edges_from(node));
                    assert(self.graph.edges_from(node) =~= seq![(ExecEdgeType::Condition, cond_ref), (ExecEdgeType::Body, body_node)]);
                    lemma_expr_built_stays(g1, g2, old(self).graph, self.graph, cond_ref, *condition);
                    lemma_block_built_stays(g3, g4, old(self).graph, self.graph, body_node, body@, *position);
                }
                node
            },
            _ => unreached(),
        }
    }

    /// A for loop: a node with the loop variable, and the iterable and the body block below it.
    #[verifier::spinoff_prover]
    fn convert_for(&mut self, stmt: &Stmt, arena: ArenaId) -> (r: NodeRef)
        requires
            old(self).wf(),
            old(self).graph_spec().arenas().contains_key(arena.0),
            room(old(self).graph_spec(), stmt_nodes(*stmt)),
            stmt is For,
        ensures
            r.arena_id == arena,
            r == next_slot(old(self).graph_spec(), arena),
            final(self).wf(),
            added(old(self).graph_spec(), final(self).graph_spec(), stmt_nodes(*stmt)),
            final(self).default_arena_spec() == old(self).default_arena_spec(),
            fresh_node(old(self).graph_spec(), final(self).graph_spec(), r, stmt_node_type(*stmt)),
            stmt_built(old(self).graph_spec(), final(self).graph_spec(), r, *stmt),
        decreases *stmt, 0int,
    {
        match stmt {
            Stmt::For { variable, iterable, body, position } => {
                let mut props: Vec<(String, AstProperty)> = Vec::new();
                props.push((String::from_str("variable"), AstProperty::Str(variable.clone())));
                let node = self.add_node(arena, AstNodeType::ForStmt, props, *position);
                let ghost g1 = self.graph;
                let iter_ref = self.convert_expr_in(iterable, arena);
                let ghost g2 = self.graph;
                self.add_edge(node, ExecEdgeType::Iterable, iter_ref);
                let ghost g3 = self.graph;
                let body_node = self.convert_stmt_block(body, arena, *position);
                let ghost g4 = self.graph;
                self.add_edge(node, ExecEdgeType::Body, body_node);
                proof {
                    reveal_strlit("variable");
                    assert(old(self).graph.edges_from(node).len() == 0);
                    assert(g2.edges_from(node) == g1.edges_from(node));
                    assert(g4.edges_from(node) == g3.edges_from(node));
                    assert(self.graph.edges_from(node) =~= seq![(ExecEdgeType::Iterable, iter_ref), (ExecEdgeType::Body, body_node)]);
                    lemma_expr_built_stays(g1, g2, old(self).graph, self.graph, iter_ref, *iterable);
                    lemma_block_built_stays(g3, g4, old(self).graph, self.graph, body_node, body@, *position);
                }
                node
            },
            _ => unreached(),
        }
    }

    /// A return: a node with the returned value (if any) below it.
    #[verifier::spinoff_prover]
    fn convert_return(&mut self, stmt: &Stmt, arena: ArenaId) -> (r: NodeRef)
        requires
            old(self).wf(),
            old(self).graph_spec().arenas().contains_key(arena.0),
            room(old(self).graph_spec(), stmt_nodes(*stmt)),
            stmt is Return,
        ensures
            r.arena_id == arena,
            r == next_slot(old(self).graph_spec(), arena),
            final(self).wf(),
            added(old(self).graph_spec(), final(self).graph_spec(), stmt_nodes(*stmt)),
            final(self).default_arena_spec() == old(self).default_arena_spec(),
            fresh_node(old(self).graph_spec(), final(self).graph_spec(), r, stmt_node_type(*stmt)),
            stmt_built(old(self).graph_spec(), final(self).graph_spec(), r, *stmt),
        decreases *stmt, 0int,
    {
        match stmt {
            Stmt::Return { value, position } => {
                let node = self.add_node(arena, AstNodeType::ReturnStmt, Vec::new(), *position);
                let ghost g1 = self.graph;
                proof {
                    assert(old(self).graph.edges_from(node).len() == 0);
                }
                match value {
                    Some(val) => {
                        let val_ref = self.convert_expr_in(val, arena);
                        let ghost g2 = self.graph;
                        self.add_edge(node, ExecEdgeType::ValueEdge, val_ref);
                        proof {
                            assert(g2.edges_from(node) == g1.edges_from(node));
                            assert(self.graph.edges_from(node) =~= seq![(ExecEdgeType::ValueEdge, val_ref)]);
                            lemma_expr_built_stays(g1, g2, old(self).graph, self.graph, val_ref, *val);
                        }
                    },
                    None => {},
                }
                node
            },
            _ => unreached(),
        }
    }

    /// A precision block: a node with the number of places (if given) and the body block below it.
    #[verifier::spinoff_prover]
    #[verifier::loop_isolation(false)]
    fn convert_precision(&mut self, stmt: &Stmt, arena: ArenaId) -> (r: NodeRef)
        requires
            old(self).wf(),
            old(self).graph_spec().arenas().contains_key(arena.0),
            room(old(self).graph_spec(), stmt_nodes(*stmt)),
            stmt is Precision,
        ensures
            r.arena_id == arena,
            r == next_slot(old(self).graph_spec(), arena),
            final(self).wf(),
            added(old(self).graph_spec(), final(self).graph_spec(), stmt_nodes(*stmt)),
            final(self).default_arena_spec() == old(self).default_arena_spec(),
            fresh_node(old(self).graph_spec(), final(self).graph_spec(), r, stmt_node_type(*stmt)),
            stmt_built(old(self).graph_spec(), final(self).graph_spec(), r, *stmt),
        decreases *stmt, 0int,
    {
        match stmt {
            Stmt::Precision { places, body, position } => {
                let mut props: Vec<(String, AstProperty)> = Vec::new();
                match places {
                    Some(p) => {
                        props.push((String::from_str("places"), AstProperty::Int(*p as i64)));
                    },
                    None => {},
                }
                proof {
                    reveal_strlit("places");
                }
                let node = self.add_node(arena, AstNodeType::PrecisionStmt, props, *position);
                let ghost g1 = self.graph;
                let body_node = self.convert_stmt_block(body, arena, *position);
                let ghost g2 = self.graph;
                self.add_edge(node, ExecEdgeType::Body, body_node);
                proof {
                    assert(old(self).graph.edges_from(node).len() == 0);
                    assert(g2.edges_from(node) == g1.edges_from(node));
                    assert(self.graph.edges_from(node) =~= seq![(ExecEdgeType::Body, body_node)]);
                    lemma_block_built_stays(g1, g2, old(self).graph, self.graph, body_node, body@, *position);
                }
                node
            },
            _ => unreached(),
        }
    }

    /// A configure statement: a node with a `Setting(key)` edge per setting, then the body block (if any), below it.
    #[verifier::spinoff_prover]
    #[verifier::loop_isolation(false)]
    fn convert_configure(&mut self, stmt: &Stmt, arena: ArenaId) -> (r: NodeRef)
        requires
            old(self).wf(),
            old(self).graph_spec().arenas().contains_key(arena.0),
            room(old(self).graph_spec(), stmt_nodes(*stmt)),
            stmt is Configure,
        ensures
            r.arena_id == arena,
            r == next_slot(old(self).graph_spec(), arena),
            final(self).wf(),
            added(old(self).graph_spec(), final(self).graph_spec(), stmt_nodes(*stmt)),
            final(self).default_arena_spec() == old(self).default_arena_spec(),
            fresh_node(old(self).graph_spec(), final(self).graph_spec(), r, stmt_node_type(*stmt)),
            stmt_built(old(self).graph_spec(), final(self).graph_spec(), r, *stmt),
        decreases *stmt, 0int,
    {
        match stmt {
            Stmt::Configure { settings, body, position } => {
                let node = self.add_node(arena, AstNodeType::ConfigureStmt, Vec::new(), *position);
                let ghost g1 = self.graph;
                proof {
                    assert(settings@.subrange(0, settings@.len() as int) =~= settings@);
                    assert(old(self).graph.edges_from(node).len() == 0);
                }
                let mut i: usize = 0;
                while i < settings.len()
                    invariant
                        self.wf(),
                        self.default_arena == old(self).default_arena,
                        self.graph.arenas().contains_key(arena.0),
                        grew(old(self).graph, self.graph),
                        room(old(self).graph, stmt_nodes(*stmt)),
                        forall|q: NodeRef| g1.node(q) is Some ==> #[trigger] self.graph.node(q) == g1.node(q),
                        g1.node(node) is Some,
                        fresh_node(old(self).graph, self.graph, node, AstNodeType::ConfigureStmt),
                        i <= settings@.len(),
                        self.graph.total_nodes() + settings_nodes(settings@.subrange(i as int, settings@.len() as int)) + opt_block_nodes(*body)
                            == old(self).graph.total_nodes() + stmt_nodes(*stmt),
                        self.graph.edges_from(node).len() == i,
                        forall|j: int| #![trigger self.graph.edges_from(node)[j]] 0 <= j < i ==> (self.graph.edges_from(node)[j].0
                            matches ExecEdgeType::Setting(k) && k@ == settings@[j].0@)
                            && expr_built(g1, self.graph, self.graph.edges_from(node)[j].1, settings@[j].1),
                    decreases settings@.len() - i,
                {
                    proof {
                        assert(settings@.subrange(i as int, settings@.len() as int).subrange(1, settings@.len() - i)
                            =~= settings@.subrange(i + 1, settings@.len() as int));
                    }
                    let ghost gi = self.graph;
                    let val_ref = self.convert_expr_in(&settings[i].1, arena);
                    let ghost gj = self.graph;
                    self.add_edge(node, ExecEdgeType::Setting(settings[i].0.clone()), val_ref);
                    proof {
                        assert(gj.edges_from(node) == gi.edges_from(node));
                        assert forall|j: int| #![trigger self.graph.edges_from(node)[j]] 0 <= j < i + 1 implies (self.graph.edges_from(node)[j].0
                            matches ExecEdgeType::Setting(k) && k@ == settings@[j].0@)
                            && expr_built(g1, self.graph, self.graph.edges_from(node)[j].1, settings@[j].1) by {
                            if j < i {
                                assert(self.graph.edges_from(node)[j] == gi.edges_from(node)[j]);
                                lemma_expr_built_stays(g1, gi, g1, self.graph, gi.edges_from(node)[j].1, settings@[j].1);
                            } else {
                                lemma_expr_built_stays(gi, gj, g1, self.graph, val_ref, settings@[j].1);
                            }
                        }
                    }
                    i = i + 1;
                }
                let ghost g3 = self.graph;
                match body {
                    Some(body_stmts) => {
                        let body_node = self.convert_stmt_block(body_stmts, arena, *position);
                        let ghost g4 = self.graph;
                        self.add_edge(node, ExecEdgeType::Body, body_node);
                        proof {
                            assert(g4.edges_from(node) == g3.edges_from(node));
                            assert(self.graph.edges_from(node) =~= g3.edges_from(node).push((ExecEdgeType::Body, body_node)));
                            lemma_block_built_stays(g3, g4, old(self).graph, self.graph, body_node, body_stmts@, *position);
                        }
                    },
                    None => {},
                }
                proof {
                    let es = self.graph.edges_from(node);
                    assert forall|j: int| #![trigger es[j]] 0 <= j < settings@.len() implies (es[j].0 matches ExecEdgeType::Setting(k)
                        && k@ == settings@[j].0@) && expr_built(old(self).graph, self.graph, es[j].1, settings@[j].1) by {
                        assert(es[j] == g3.edges_from(node)[j]);
                        lemma_expr_built_stays(g1, g3, old(self).graph, self.graph, es[j].1, settings@[j].1);
                    }
                }
                node
            },
            _ => unreached(),
        }
    }

    /// A try statement: a node with the body block, a node per catch clause and the finally block (if any) below it.
    #[verifier::spinoff_prover]
    #[verifier::loop_isolation(false)]
    fn convert_try(&mut self, stmt: &Stmt, arena: ArenaId) -> (r: NodeRef)
        requires
            old(self).wf(),
            old(self).graph_spec().arenas().contains_key(arena.0),
            room(old(self).graph_spec(), stmt_nodes(*stmt)),
            stmt is Try,
        ensures
            r.arena_id == arena,
            r == next_slot(old(self).graph_spec(), arena),
            final(self).wf(),
            added(old(self).graph_spec(), final(self).graph_spec(), stmt_nodes(*stmt)),
            final(self).default_arena_spec() == old(self).default_arena_spec(),
            fresh_node(old(self).graph_spec(), final(self).graph_spec(), r, stmt_node_type(*stmt)),
            stmt_built(old(self).graph_spec(), final(self).graph_spec(), r, *stmt),
        decreases *stmt, 0int,
    {
        match stmt {
            Stmt::Try { body, catch_clauses, finally_block, position } => {
                let node = self.add_node(arena, AstNodeType::TryStmt, Vec::new(), *position);
                let ghost g1 = self.graph;
                let body_node = self.convert_stmt_block(body, arena, *position);
                let ghost g2 = self.graph;
                self.add_edge(node, ExecEdgeType::Body, body_node);
                proof {
                    assert(catch_clauses@.subrange(0, catch_clauses@.len() as int) =~= catch_clauses@);
                    assert(old(self).graph.edges_from(node).len() == 0);
                    assert(g2.edges_from(node) == g1.edges_from(node));
                    lemma_block_built_stays(g1, g2, g1, self.graph, body_node, body@, *position);
                }
                let mut i: usize = 0;
                while i < catch_clauses.len()
                    invariant
                        self.wf(),
                        self.default_arena == old(self).default_arena,
                        self.graph.arenas().contains_key(arena.0),
                        grew(old(self).graph, self.graph),
                        room(old(self).graph, stmt_nodes(*stmt)),
                        forall|q: NodeRef| g1.node(q) is Some ==> #[trigger] self.graph.node(q) == g1.node(q),
                        g1.node(node) is Some,
                        fresh_node(old(self).graph, self.graph, node, AstNodeType::TryStmt),
                        i <= catch_clauses@.len(),
                        self.graph.total_nodes() + catches_nodes(catch_clauses@.subrange(i as int, catch_clauses@.len() as int)) + opt_block_nodes(*finally_block)
                            == old(self).graph.total_nodes() + stmt_nodes(*stmt),
                        self.graph.edges_from(node).len() == 1 + i,
                        self.graph.edges_from(node)[0] == (ExecEdgeType::Body, body_node),
                        block_built(g1, self.graph, body_node, body@, *position),
                        forall|j: int| #![trigger self.graph.edges_from(node)[1 + j]] 0 <= j < i ==> self.graph.edges_from(node)[1 + j].0
                            == ExecEdgeType::CatchHandler(j as u32) && catch_built(g1, self.graph, self.graph.edges_from(node)[1 + j].1, catch_clauses@[j]),
                    decreases catch_clauses@.len() - i,
                {
                    proof {
                        assert(catch_clauses@.subrange(i as int, catch_clauses@.len() as int).subrange(1, catch_clauses@.len() - i)
                            =~= catch_clauses@.subrange(i + 1, catch_clauses@.len() as int));
                    }
                    let ghost gi = self.graph;
                    let catch_ref = self.convert_catch_clause(&catch_clauses[i], arena);
                    let ghost gj = self.graph;
                    self.add_edge(node, ExecEdgeType::CatchHandler(i as u32), catch_ref);
                    proof {
                        assert(gj.edges_from(node) == gi.edges_from(node));
                        lemma_block_built_stays(g1, gi, g1, self.graph, body_node, body@, *position);
                        assert forall|j: int| #![trigger self.graph.edges_from(node)[1 + j]] 0 <= j < i + 1 implies self.graph.edges_from(node)[1 + j].0
                            == ExecEdgeType::CatchHandler(j as u32) && catch_built(g1, self.graph, self.graph.edges_from(node)[1 + j].1, catch_clauses@[j]) by {
                            if j < i {
                                assert(self.graph.edges_from(node)[1 + j] == gi.edges_from(node)[1 + j]);
                                lemma_catch_built_stays(g1, gi, g1, self.graph, gi.edges_from(node)[1 + j].1, catch_clauses@[j]);
                            } else {
                                lemma_catch_built_stays(gi, gj, g1, self.graph, catch_ref, catch_clauses@[j]);
                            }
                        }
                    }
                    i = i + 1;
                }
                let ghost g3 = self.graph;
                match finally_block {
                    Some(finally) => {
                        let finally_node = self.convert_stmt_block(finally, arena, *position);
                        let ghost g4 = self.graph;
                        self.add_edge(node, ExecEdgeType::FinallyBlock, finally_node);
                        proof {
                            assert(g4.edges_from(node) == g3.edges_from(node));
                            assert(self.graph.edges_from(node) =~= g3.edges_from(node).push((ExecEdgeType::FinallyBlock, finally_node)));
                            lemma_block_built_stays(g3, g4, old(self).graph, self.graph, finally_node, finally@, *position);
                        }
                    },
                    None => {},
                }
                proof {
                    let es = self.graph.edges_from(node);
                    let cs = es.subrange(1, catch_clauses@.len() + 1int);
                    assert(es[0] == g3.edges_from(node)[0]);
                    lemma_block_built_stays(g1, g3, old(self).graph, self.graph, body_node, body@, *position);
                    assert forall|j: int| #![trigger cs[j]] 0 <= j < catch_clauses@.len() implies cs[j].0 == ExecEdgeType::CatchHandler(j as u32)
                        && catch_built(old(self).graph, self.graph, cs[j].1, catch_clauses@[j]) by {
                        assert(cs[j] == g3.edges_from(node)[1 + j]);
                        lemma_catch_built_stays(g1, g3, old(self).graph, self.graph, cs[j].1, catch_clauses@[j]);
                    }
                }
                node
            },
            _ => unreached(),
        }
    }

    /// A function declaration: a node with the name, parameter count,
    /// flags and receiver, and below it a node per parameter, the body
    /// block, a node per pattern clause and the guard (if any).
    #[verifier::spinoff_prover]
    #[verifier::rlimit(50)]
    fn convert_function_decl(&mut self, stmt: &Stmt, arena: ArenaId) -> (r: NodeRef)
        requires
            old(self).wf(),
            old(self).graph_spec().arenas().contains_key(arena.0),
            room(old(self).graph_spec(), stmt_nodes(*stmt)),
            stmt is FunctionDecl,
        ensures
            r.arena_id == arena,
            r == next_slot(old(self).graph_spec(), arena),
            final(self).wf(),
            added(old(self).graph_spec(), final(self).graph_spec(), stmt_nodes(*stmt)),
            final(self).default_arena_spec() == old(self).default_arena_spec(),
            fresh_node(old(self).graph_spec(), final(self).graph_spec(), r, stmt_node_type(*stmt)),
            stmt_built(old(self).graph_spec(), final(self).graph_spec(), r, *stmt),
        decreases *stmt, 0int,
    {
        match stmt {
            Stmt::FunctionDecl { name, receiver, params, body, pattern_clauses, is_private, is_setter, is_static, guard, position } => {
                let mut props: Vec<(String, AstProperty)> = Vec::new();
                props.push((String::from_str("name"), AstProperty::Str(name.clone())));
                props.push((String::from_str("param_count"), AstProperty::Int(params.len() as i64)));
                props.push((String::from_str("is_private"), AstProperty::Bool(*is_private)));
                props.push((String::from_str("is_setter"), AstProperty::Bool(*is_setter)));
                props.push((String::from_str("is_static"), AstProperty::Bool(*is_static)));
                match receiver {
                    Some(recv) => {
                        props.push((String::from_str("receiver"), AstProperty::Str(recv.clone())));
                    },
                    None => {},
                }
                proof {
                    reveal_strlit("name");
                    reveal_strlit("param_count");
                    reveal_strlit("is_private");
                    reveal_strlit("is_setter");
                    reveal_strlit("is_static");
                    reveal_strlit("receiver");
                }
                let node = self.add_node(arena, AstNodeType::FuncDeclStmt, props, *position);
                let ghost g1 = self.graph;
                proof {
                    assert(old(self).graph.edges_from(node).len() == 0);
                }
                self.convert_parameters(node, params, arena);
                let ghost g2 = self.graph;
                let body_node = self.convert_body(body, *position);
                let ghost g3 = self.graph;
                self.add_edge(node, ExecEdgeType::Body, body_node);
                let ghost g4 = self.graph;
                proof {
                    assert(g3.edges_from(node) == g2.edges_from(node));
                    assert(g4.edges_from(node) =~= g2.edges_from(node).push((ExecEdgeType::Body, body_node)));
                }
                match pattern_clauses {
                    Some(clauses) => {
                        self.convert_pattern_clauses(node, clauses, arena);
                    },
                    None => {},
                }
                let ghost g5 = self.graph;
                match guard {
                    Some(guard_expr) => {
                        let guard_ref = self.convert_expr_in(guard_expr, arena);
                        let ghost g6 = self.graph;
                        self.add_edge(node, ExecEdgeType::Guard, guard_ref);
                        proof {
                            assert(g6.edges_from(node) == g5.edges_from(node));
                            assert(self.graph.edges_from(node) =~= g5.edges_from(node).push((ExecEdgeType::Guard, guard_ref)));
                            lemma_expr_built_stays(g5, g6, old(self).graph, self.graph, guard_ref, **guard_expr);
                        }
                    },
                    None => {},
                }
                proof {
                    let es = self.graph.edges_from(node);
                    let np = params@.len() as int;
                    let nc = clause_count(*pattern_clauses);
                    let cs = es.subrange(np + 1, np + 1 + nc);
                    assert(es.subrange(0, np + 1) =~= g4.edges_from(node));
                    assert(es[np] == g4.edges_from(node)[np]);
                    assert(es.subrange(0, np) =~= g2.edges_from(node));
                    assert(g2.edges_from(node).subrange(0, np) =~= g2.edges_from(node));
                    assert(g1.edges_from(node).len() == 0);
                    lemma_block_built_stays(g2, g3, old(self).graph, self.graph, body_node, body@, *position);
                    lemma_in_new_arena_stays(g2, old(self).graph, body_node);
                    lemma_params_built_stays(g1, g2, old(self).graph, self.graph, es.subrange(0, np), params@);
                    match pattern_clauses {
                        Some(clauses) => {
                            assert(cs =~= g5.edges_from(node).subrange(np + 1, g5.edges_from(node).len() as int));
                            lemma_clauses_built_stays(g4, g5, old(self).graph, self.graph, cs, clauses@);
                        },
                        None => {},
                    }
                }
                node
            },
            _ => unreached(),
        }
    }

    /// The parameters of a function, each linked from `node` by a
    /// `Parameter(i)` edge.
    #[verifier::spinoff_prover]
    #[verifier::loop_isolation(false)]
    fn convert_parameters(&mut self, node: NodeRef, params: &Vec<Parameter>, arena: ArenaId)
        requires
            old(self).wf(),
            old(self).graph.arenas().contains_key(arena.0),
            old(self).graph.node(node) is Some,
            room(old(self).graph, params_nodes(params@)),
        ensures
            final(self).wf(),
            final(self).default_arena == old(self).default_arena,
            grew_from(old(self).graph, final(self).graph, node),
            final(self).graph.total_nodes() == old(self).graph.total_nodes() + params_nodes(params@),
            final(self).graph.edges_from(node).len() == old(self).graph.edges_from(node).len() + params@.len(),
            final(self).graph.edges_from(node).subrange(0, old(self).graph.edges_from(node).len() as int)
                == old(self).graph.edges_from(node),
            params_built(
                old(self).graph,
                final(self).graph,
                final(self).graph.edges_from(node).subrange(
                    old(self).graph.edges_from(node).len() as int,
                    final(self).graph.edges_from(node).len() as int,
                ),
                params@,
            ),
        decreases params@, 0int,
    {
        let ghost g0 = self.graph;
        let ghost n0 = g0.edges_from(node).len();
        proof {
            assert(params@.subrange(0, params@.len() as int) =~= params@);
        }
        let mut i: usize = 0;
        while i < params.len()
            invariant
                self.wf(),
                self.default_arena == old(self).default_arena,
                self.graph.arenas().contains_key(arena.0),
                grew_from(g0, self.graph, node),
                i <= params@.len(),
                self.graph.total_nodes() + params_nodes(params@.subrange(i as int, params@.len() as int))
                    == g0.total_nodes() + params_nodes(params@),
                room(g0, params_nodes(params@)),
                self.graph.edges_from(node).len() == n0 + i,
                self.graph.edges_from(node).subrange(0, n0 as int) == g0.edges_from(node),
                forall|j: int| #![trigger self.graph.edges_from(node)[n0 + j]] 0 <= j < i ==> self.graph.edges_from(node)[n0 + j].0
                    == ExecEdgeType::Parameter(j as u32) && param_built(g0, self.graph, self.graph.edges_from(node)[n0 + j].1, params@[j]),
            decreases params@.len() - i,
        {
            proof {
                assert(params@.subrange(i as int, params@.len() as int).subrange(1, params@.len() - i)
                    =~= params@.subrange(i + 1, params@.len() as int));
            }
            let ghost gi = self.graph;
            let param_ref = self.convert_parameter(&params[i], arena);
            let ghost gj = self.graph;
            self.add_edge(node, ExecEdgeType::Parameter(i as u32), param_ref);
            proof {
                assert(gj.edges_from(node) == gi.edges_from(node));
                assert(self.graph.edges_from(node).subrange(0, n0 as int) =~= gi.edges_from(node).subrange(0, n0 as int));
                assert forall|j: int| #![trigger self.graph.edges_from(node)[n0 + j]] 0 <= j < i + 1 implies self.graph.edges_from(node)[n0 + j].0
                    == ExecEdgeType::Parameter(j as u32) && param_built(g0, self.graph, self.graph.edges_from(node)[n0 + j].1, params@[j]) by {
                    if j < i {
                        assert(self.graph.edges_from(node)[n0 + j] == gi.edges_from(node)[n0 + j]);
                        lemma_param_built_stays(g0, gi, g0, self.graph, gi.edges_from(node)[n0 + j].1, params@[j]);
                    } else {
                        lemma_param_built_stays(gi, gj, g0, self.graph, param_ref, params@[j]);
                    }
                }
            }
            i = i + 1;
        }
        proof {
            let es = self.graph.edges_from(node).subrange(n0 as int, self.graph.edges_from(node).len() as int);
            assert forall|j: int| #![trigger es[j]] 0 <= j < params@.len() implies es[j].0
                == ExecEdgeType::Parameter(j as u32) && param_built(g0, self.graph, es[j].1, params@[j]) by {
                assert(es[j] == self.graph.edges_from(node)[n0 + j]);
            }
        }
    }

    /// The pattern clauses of a function, each linked from `node` by a
    /// `PatternClause(i)` edge.
    #[verifier::spinoff_prover]
    #[verifier::loop_isolation(false)]
    fn convert_pattern_clauses(&mut self, node: NodeRef, clauses: &Vec<PatternClause>, arena: ArenaId)
        requires
            old(self).wf(),
            old(self).graph.arenas().contains_key(arena.0),
            old(self).graph.node(node) is Some,
            room(old(self).graph, clauses_nodes(clauses@)),
        ensures
            final(self).wf(),
            final(self).default_arena == old(self).default_arena,
            grew_from(old(self).graph, final(self).graph, node),
            final(self).graph.total_nodes() == old(self).graph.total_nodes() + clauses_nodes(clauses@),
            final(self).graph.edges_from(node).len() == old(self).graph.edges_from(node).len() + clauses@.len(),
            final(self).graph.edges_from(node).subrange(0, old(self).graph.edges_from(node).len() as int)
                == old(self).graph.edges_from(node),
            clauses_built(
                old(self).graph,
                final(self).graph,
                final(self).graph.edges_from(node).subrange(
                    old(self).graph.edges_from(node).len() as int,
                    final(self).graph.edges_from(node).len() as int,
                ),
                clauses@,
            ),
        decreases clauses@, 0int,
    {
        let ghost g0 = self.graph;
        let ghost n0 = g0.edges_from(node).len();
        proof {
            assert(clauses@.subrange(0, clauses@.len() as int) =~= clauses@);
        }
        let mut i: usize = 0;
        while i < clauses.len()
            invariant
                self.wf(),
                self.default_arena == old(self).default_arena,
                self.graph.arenas().contains_key(arena.0),
                grew_from(g0, self.graph, node),
                i <= clauses@.len(),
                self.graph.total_nodes() + clauses_nodes(clauses@.subrange(i as int, clauses@.len() as int))
                    == g0.total_nodes() + clauses_nodes(clauses@),
                room(g0, clauses_nodes(clauses@)),
                self.graph.edges_from(node).len() == n0 + i,
                self.graph.edges_from(node).subrange(0, n0 as int) == g0.edges_from(node),
                forall|j: int| #![trigger self.graph.edges_from(node)[n0 + j]] 0 <= j < i ==> self.graph.edges_from(node)[n0 + j].0
                    == ExecEdgeType::PatternClause(j as u32) && clause_built(g0, self.graph, self.graph.edges_from(node)[n0 + j].1, clauses@[j]),
            decreases clauses@.len() - i,
        {
            proof {
                assert(clauses@.subrange(i as int, clauses@.len() as int).subrange(1, clauses@.len() - i)
                    =~= clauses@.subrange(i + 1, clauses@.len() as int));
            }
            let ghost gi = self.graph;
            let clause_ref = self.convert_pattern_clause(&clauses[i], arena);
            let ghost gj = self.graph;
            self.add_edge(node, ExecEdgeType::PatternClause(i as u32), clause_ref);
            proof {
                assert(gj.edges_from(node) == gi.edges_from(node));
                assert(self.graph.edges_from(node).subrange(0, n0 as int) =~= gi.edges_from(node).subrange(0, n0 as int));
                assert forall|j: int| #![trigger self.graph.edges_from(node)[n0 + j]] 0 <= j < i + 1 implies self.graph.edges_from(node)[n0 + j].0
                    == ExecEdgeType::PatternClause(j as u32) && clause_built(g0, self.graph, self.graph.edges_from(node)[n0 + j].1, clauses@[j]) by {
                    if j < i {
                        assert(self.graph.edges_from(node)[n0 + j] == gi.edges_from(node)[n0 + j]);
                        lemma_clause_built_stays(g0, gi, g0, self.graph, gi.edges_from(node)[n0 + j].1, clauses@[j]);
                    } else {
                        lemma_clause_built_stays(gi, gj, g0, self.graph, clause_ref, clauses@[j]);
                    }
                }
            }
            i = i + 1;
        }
        proof {
            let es = self.graph.edges_from(node).subrange(n0 as int, self.graph.edges_from(node).len() as int);
            assert forall|j: int| #![trigger es[j]] 0 <= j < clauses@.len() implies es[j].0
                == ExecEdgeType::PatternClause(j as u32) && clause_built(g0, self.graph, es[j].1, clauses@[j]) by {
                assert(es[j] == self.graph.edges_from(node)[n0 + j]);
            }
        }
    }

    /// The properties of a graph declaration, each linked from `node` by a `Property(i)` edge.
    #[verifier::spinoff_prover]
    #[verifier::loop_isolation(false)]
    fn convert_graph_properties(&mut self, node: NodeRef, items: &Vec<GraphProperty>, arena: ArenaId)
        requires
            old(self).wf(),
            old(self).graph.arenas().contains_key(arena.0),
            old(self).graph.node(node) is Some,
            room(old(self).graph, properties_nodes(items@)),
        ensures
            final(self).wf(),
            final(self).default_arena == old(self).default_arena,
            grew_from(old(self).graph, final(self).graph, node),
            final(self).graph.total_nodes() == old(self).graph.total_nodes() + properties_nodes(items@),
            final(self).graph.edges_from(node).len() == old(self).graph.edges_from(node).len() + items@.len(),
            final(self).graph.edges_from(node).subrange(0, old(self).graph.edges_from(node).len() as int)
                == old(self).graph.edges_from(node),
            properties_built(
                old(self).graph,
                final(self).graph,
                final(self).graph.edges_from(node).subrange(
                    old(self).graph.edges_from(node).len() as int,
                    final(self).graph.edges_from(node).len() as int,
                ),
                items@,
            ),
        decreases items@, 0int,
    {
        let ghost g0 = self.graph;
        let ghost n0 = g0.edges_from(node).len();
        proof {
            assert(items@.subrange(0, items@.len() as int) =~= items@);
        }
        let mut i: usize = 0;
        while i < items.len()
            invariant
                self.wf(),
                self.default_arena == old(self).default_arena,
                self.graph.arenas().contains_key(arena.0),
                grew_from(g0, self.graph, node),
                i <= items@.len(),
                self.graph.total_nodes() + properties_nodes(items@.subrange(i as int, items@.len() as int))
                    == g0.total_nodes() + properties_nodes(items@),
                room(g0, properties_nodes(items@)),
                self.graph.edges_from(node).len() == n0 + i,
                self.graph.edges_from(node).subrange(0, n0 as int) == g0.edges_from(node),
                forall|j: int| #![trigger self.graph.edges_from(node)[n0 + j]] 0 <= j < i ==> self.graph.edges_from(node)[n0 + j].0
                    == ExecEdgeType::Property(j as u32) && property_built(g0, self.graph, self.graph.edges_from(node)[n0 + j].1, items@[j]),
            decreases items@.len() - i,
        {
            proof {
                assert(items@.subrange(i as int, items@.len() as int).subrange(1, items@.len() - i)
                    =~= items@.subrange(i + 1, items@.len() as int));
            }
            let ghost gi = self.graph;
            let child = self.convert_graph_property(&items[i], arena);
            let ghost gj = self.graph;
            self.add_edge(node, ExecEdgeType::Property(i as u32), child);
            proof {
                assert(gj.edges_from(node) == gi.edges_from(node));
                assert(self.graph.edges_from(node).subrange(0, n0 as int) =~= gi.edges_from(node).subrange(0, n0 as int));
                assert forall|j: int| #![trigger self.graph.edges_from(node)[n0 + j]] 0 <= j < i + 1 implies self.graph.edges_from(node)[n0 + j].0
                    == ExecEdgeType::Property(j as u32) && property_built(g0, self.graph, self.graph.edges_from(node)[n0 + j].1, items@[j]) by {
                    if j < i {
                        assert(self.graph.edges_from(node)[n0 + j] == gi.edges_from(node)[n0 + j]);
                        lemma_property_built_stays(g0, gi, g0, self.graph, gi.edges_from(node)[n0 + j].1, items@[j]);
                    } else {
                        lemma_property_built_stays(gi, gj, g0, self.graph, child, items@[j]);
                    }
                }
            }
            i = i + 1;
        }
        proof {
            let es = self.graph.edges_from(node).subrange(n0 as int, self.graph.edges_from(node).len() as int);
            assert forall|j: int| #![trigger es[j]] 0 <= j < items@.len() implies es[j].0
                == ExecEdgeType::Property(j as u32) && property_built(g0, self.graph, es[j].1, items@[j]) by {
                assert(es[j] == self.graph.edges_from(node)[n0 + j]);
            }
        }
    }

    /// The methods of a graph declaration, each linked from `node` by a `GraphMethod(i)` edge.
    #[verifier::spinoff_prover]
    #[verifier::loop_isolation(false)]
    fn convert_graph_methods(&mut self, node: NodeRef, items: &Vec<GraphMethod>, arena: ArenaId)
        requires
            old(self).wf(),
            old(self).graph.arenas().contains_key(arena.0),
            old(self).graph.node(node) is Some,
            room(old(self).graph, methods_nodes(items@)),
        ensures
            final(self).wf(),
            final(self).default_arena == old(self).default_arena,
            grew_from(old(self).graph, final(self).graph, node),
            final(self).graph.total_nodes() == old(self).graph.total_nodes() + methods_nodes(items@),
            final(self).graph.edges_from(node).len() == old(self).graph.edges_from(node).len() + items@.len(),
            final(self).graph.edges_from(node).subrange(0, old(self).graph.edges_from(node).len() as int)
                == old(self).graph.edges_from(node),
            methods_built(
                old(self).graph,
                final(self).graph,
                final(self).graph.edges_from(node).subrange(
                    old(self).graph.edges_from(node).len() as int,
                    final(self).graph.edges_from(node).len() as int,
                ),
                items@,
            ),
        decreases items@, 0int,
    {
        let ghost g0 = self.graph;
        let ghost n0 = g0.edges_from(node).len();
        proof {
            assert(items@.subrange(0, items@.len() as int) =~= items@);
        }
        let mut i: usize = 0;
        while i < items.len()
            invariant
                self.wf(),
                self.default_arena == old(self).default_arena,
                self.graph.arenas().contains_key(arena.0),
                grew_from(g0, self.graph, node),
                i <= items@.len(),
                self.graph.total_nodes() + methods_nodes(items@.subrange(i as int, items@.len() as int))
                    == g0.total_nodes() + methods_nodes(items@),
                room(g0, methods_nodes(items@)),
                self.graph.edges_from(node).len() == n0 + i,
                self.graph.edges_from(node).subrange(0, n0 as int) == g0.edges_from(node),
                forall|j: int| #![trigger self.graph.edges_from(node)[n0 + j]] 0 <= j < i ==> self.graph.edges_from(node)[n0 + j].0
                    == ExecEdgeType::GraphMethod(j as u32) && method_built(g0, self.graph, self.graph.edges_from(node)[n0 + j].1, items@[j]),
            decreases items@.len() - i,
        {
            proof {
                assert(items@.subrange(i as int, items@.len() as int).subrange(1, items@.len() - i)
                    =~= items@.subrange(i + 1, items@.len() as int));
            }
            let ghost gi = self.graph;
            let child = self.convert_graph_method(&items[i], arena);
            let ghost gj = self.graph;
            self.add_edge(node, ExecEdgeType::GraphMethod(i as u32), child);
            proof {
                assert(gj.edges_from(node) == gi.edges_from(node));
                assert(self.graph.edges_from(node).subrange(0, n0 as int) =~= gi.edges_from(node).subrange(0, n0 as int));
                assert forall|j: int| #![trigger self.graph.edges_from(node)[n0 + j]] 0 <= j < i + 1 implies self.graph.edges_from(node)[n0 + j].0
                    == ExecEdgeType::GraphMethod(j as u32) && method_built(g0, self.graph, self.graph.edges_from(node)[n0 + j].1, items@[j]) by {
                    if j < i {
                        assert(self.graph.edges_from(node)[n0 + j] == gi.edges_from(node)[n0 + j]);
                        lemma_method_built_stays(g0, gi, g0, self.graph, gi.edges_from(node)[n0 + j].1, items@[j]);
                    } else {
                        lemma_method_built_stays(gi, gj, g0, self.graph, child, items@[j]);
                    }
                }
            }
            i = i + 1;
        }
        proof {
            let es = self.graph.edges_from(node).subrange(n0 as int, self.graph.edges_from(node).len() as int);
            assert forall|j: int| #![trigger es[j]] 0 <= j < items@.len() implies es[j].0
                == ExecEdgeType::GraphMethod(j as u32) && method_built(g0, self.graph, es[j].1, items@[j]) by {
                assert(es[j] == self.graph.edges_from(node)[n0 + j]);
            }
        }
    }

    /// The rules of a graph declaration, each linked from `node` by a `Rule(i)` edge.
    #[verifier::spinoff_prover]
    #[verifier::loop_isolation(false)]
    fn convert_graph_rules(&mut self, node: NodeRef, items: &Vec<GraphRule>, arena: ArenaId)
        requires
            old(self).wf(),
            old(self).graph.arenas().contains_key(arena.0),
            old(self).graph.node(node) is Some,
            room(old(self).graph, rules_nodes(items@)),
        ensures
            final(self).wf(),
            final(self).default_arena == old(self).default_arena,
            grew_from(old(self).graph, final(self).graph, node),
            final(self).graph.total_nodes() == old(self).graph.total_nodes() + rules_nodes(items@),
            final(self).graph.edges_from(node).len() == old(self).graph.edges_from(node).len() + items@.len(),
            final(self).graph.edges_from(node).subrange(0, old(self).graph.edges_from(node).len() as int)
                == old(self).graph.edges_from(node),
            rules_built(
                old(self).graph,
                final(self).graph,
                final(self).graph.edges_from(node).subrange(
                    old(self).graph.edges_from(node).len() as int,
                    final(self).graph.edges_from(node).len() as int,
                ),
                items@,
            ),
        decreases items@, 0int,
    {
        let ghost g0 = self.graph;
        let ghost n0 = g0.edges_from(node).len();
        proof {
            assert(items@.subrange(0, items@.len() as int) =~= items@);
        }
        let mut i: usize = 0;
        while i < items.len()
            invariant
                self.wf(),
                self.default_arena == old(self).default_arena,
                self.graph.arenas().contains_key(arena.0),
                grew_from(g0, self.graph, node),
                i <= items@.len(),
                self.graph.total_nodes() + rules_nodes(items@.subrange(i as int, items@.len() as int))
                    == g0.total_nodes() + rules_nodes(items@),
                room(g0, rules_nodes(items@)),
                self.graph.edges_from(node).len() == n0 + i,
                self.graph.edges_from(node).subrange(0, n0 as int) == g0.edges_from(node),
                forall|j: int| #![trigger self.graph.edges_from(node)[n0 + j]] 0 <= j < i ==> self.graph.edges_from(node)[n0 + j].0
                    == ExecEdgeType::Rule(j as u32) && rule_built(g0, self.graph, self.graph.edges_from(node)[n0 + j].1, items@[j]),
            decreases items@.len() - i,
        {
            proof {
                assert(items@.subrange(i as int, items@.len() as int).subrange(1, items@.len() - i)
                    =~= items@.subrange(i + 1, items@.len() as int));
            }
            let ghost gi = self.graph;
            let child = self.convert_graph_rule(&items[i], arena);
            let ghost gj = self.graph;
            self.add_edge(node, ExecEdgeType::Rule(i as u32), child);
            proof {
                assert(gj.edges_from(node) == gi.edges_from(node));
                assert(self.graph.edges_from(node).subrange(0, n0 as int) =~= gi.edges_from(node).subrange(0, n0 as int));
                assert forall|j: int| #![trigger self.graph.edges_from(node)[n0 + j]] 0 <= j < i + 1 implies self.graph.edges_from(node)[n0 + j].0
                    == ExecEdgeType::Rule(j as u32) && rule_built(g0, self.graph, self.graph.edges_from(node)[n0 + j].1, items@[j]) by {
                    if j < i {
                        assert(self.graph.edges_from(node)[n0 + j] == gi.edges_from(node)[n0 + j]);
                        lemma_rule_built_stays(g0, gi, g0, self.graph, gi.edges_from(node)[n0 + j].1, items@[j]);
                    } else {
                        lemma_rule_built_stays(gi, gj, g0, self.graph, child, items@[j]);
                    }
                }
            }
            i = i + 1;
        }
        proof {
            let es = self.graph.edges_from(node).subrange(n0 as int, self.graph.edges_from(node).len() as int);
            assert forall|j: int| #![trigger es[j]] 0 <= j < items@.len() implies es[j].0
                == ExecEdgeType::Rule(j as u32) && rule_built(g0, self.graph, es[j].1, items@[j]) by {
                assert(es[j] == self.graph.edges_from(node)[n0 + j]);
            }
        }
    }

    /// A graph declaration: a node with the name and graph type, and below
    /// it the parent (if any), then a node per property, method, rule and
    /// configuration entry.
    #[verifier::spinoff_prover]
    #[verifier::loop_isolation(false)]
    fn convert_graph_decl(&mut self, stmt: &Stmt, arena: ArenaId) -> (r: NodeRef)
        requires
            old(self).wf(),
            old(self).graph_spec().arenas().contains_key(arena.0),
            room(old(self).graph_spec(), stmt_nodes(*stmt)),
            stmt is GraphDecl,
        ensures
            r.arena_id == arena,
            r == next_slot(old(self).graph_spec(), arena),
            final(self).wf(),
            added(old(self).graph_spec(), final(self).graph_spec(), stmt_nodes(*stmt)),
            final(self).default_arena_spec() == old(self).default_arena_spec(),
            fresh_node(old(self).graph_spec(), final(self).graph_spec(), r, stmt_node_type(*stmt)),
            stmt_built(old(self).graph_spec(), final(self).graph_spec(), r, *stmt),
        decreases *stmt, 0int,
    {
        match stmt {
            Stmt::GraphDecl { name, graph_type, parent, properties, methods, rules, config, position } => {
                let mut props: Vec<(String, AstProperty)> = Vec::new();
                props.push((String::from_str("name"), AstProperty::Str(name.clone())));
                match graph_type {
                    Some(gt) => {
                        props.push((String::from_str("graph_type"), AstProperty::Str(gt.clone())));
                    },
                    None => {},
                }
                proof {
                    reveal_strlit("name");
                    reveal_strlit("graph_type");
                }
                let node = self.add_node(arena, AstNodeType::GraphDeclStmt, props, *position);
                let ghost g1 = self.graph;
                proof {
                    assert(old(self).graph.edges_from(node).len() == 0);
                }
                match parent {
                    Some(parent_expr) => {
                        let parent_ref = self.convert_expr_in(parent_expr, arena);
                        let ghost g2 = self.graph;
                        self.add_edge(node, ExecEdgeType::Parent, parent_ref);
                        proof {
                            assert(g2.edges_from(node) == g1.edges_from(node));
                            assert(self.graph.edges_from(node) =~= seq![(ExecEdgeType::Parent, parent_ref)]);
                            lemma_expr_built_stays(g1, g2, g1, self.graph, parent_ref, **parent_expr);
                        }
                    },
                    None => {},
                }
                let ghost gp = self.graph;
                self.convert_graph_properties(node, properties, arena);
                let ghost gm = self.graph;
                self.convert_graph_methods(node, methods, arena);
                let ghost gr = self.graph;
                self.convert_graph_rules(node, rules, arena);
                let ghost gs = self.graph;
                let mut c: usize = 0;
                while c < config.len()
                    invariant
                        self.wf(),
                        self.default_arena == old(self).default_arena,
                        self.graph.arenas().contains_key(arena.0),
                        grew(old(self).graph, self.graph),
                        grew_from(gs, self.graph, node),
                        c <= config@.len(),
                        self.graph.total_nodes() + (config@.len() - c) == old(self).graph.total_nodes() + stmt_nodes(*stmt),
                        room(old(self).graph, stmt_nodes(*stmt)),
                        fresh_node(old(self).graph, self.graph, node, AstNodeType::GraphDeclStmt),
                        self.graph.edges_from(node).len() == gs.edges_from(node).len() + c,
                        self.graph.edges_from(node).subrange(0, gs.edges_from(node).len() as int) == gs.edges_from(node),
                        config_children(old(self).graph, self.graph,
                            self.graph.edges_from(node).subrange(gs.edges_from(node).len() as int, gs.edges_from(node).len() + c),
                            config@.subrange(0, c as int), *position),
                    decreases config@.len() - c,
                {
                    let ghost gi = self.graph;
                    let cfg_ref = self.convert_config_entry(&config[c].0, &config[c].1, *position, arena);
                    let ghost gj = self.graph;
                    self.add_edge(node, ExecEdgeType::Setting(config[c].0.clone()), cfg_ref);
                    proof {
                        let n0 = gs.edges_from(node).len() as int;
                        assert(gj.edges_from(node) == gi.edges_from(node));
                        assert(self.graph.edges_from(node).subrange(0, n0) =~= gi.edges_from(node).subrange(0, n0));
                        let es = self.graph.edges_from(node).subrange(n0, n0 + c + 1);
                        let es0 = gi.edges_from(node).subrange(n0, n0 + c);
                        let cf = config@.subrange(0, c + 1);
                        let cf0 = config@.subrange(0, c as int);
                        assert forall|j: int| #![trigger es[j]] 0 <= j < cf.len() implies (es[j].0 matches ExecEdgeType::Setting(k)
                            && k@ == cf[j].0@) && config_entry_built(old(self).graph, self.graph, es[j].1, cf[j].0@, cf[j].1@, *position) by {
                            if j < c {
                                assert(es[j] == es0[j]);
                                assert(cf[j] == cf0[j]);
                                assert(gi.node(es0[j].1) is Some);
                                assert(self.graph.edges_from(es0[j].1) == gi.edges_from(es0[j].1));
                            } else {
                                assert(self.graph.edges_from(cfg_ref) == gj.edges_from(cfg_ref));
                            }
                        }
                    }
                    c = c + 1;
                }
                proof {
                    let es = self.graph.edges_from(node);
                    let np = if parent is Some { 1int } else { 0int };
                    let a = np + properties@.len();
                    let b = a + methods@.len();
                    let cc = b + rules@.len();
                    assert(config@.subrange(0, config@.len() as int) =~= config@);
                    lemma_grew_from_trans(gr, gs, self.graph, node);
                    lemma_grew_from_trans(gm, gr, self.graph, node);
                    lemma_grew_from_trans(gp, gm, self.graph, node);
                    assert(es.subrange(0, cc) =~= gs.edges_from(node));
                    assert(es.subrange(b, cc) =~= gs.edges_from(node).subrange(b, cc));
                    assert(es.subrange(a, b) =~= gr.edges_from(node).subrange(a, b));
                    assert(es.subrange(np, a) =~= gm.edges_from(node).subrange(np, a));
                    assert(gs.edges_from(node).subrange(b, cc) =~= gs.edges_from(node).subrange(gr.edges_from(node).len() as int, gs.edges_from(node).len() as int));
                    assert(gr.edges_from(node).subrange(a, b) =~= gr.edges_from(node).subrange(gm.edges_from(node).len() as int, gr.edges_from(node).len() as int));
                    assert(gm.edges_from(node).subrange(np, a) =~= gm.edges_from(node).subrange(gp.edges_from(node).len() as int, gm.edges_from(node).len() as int));
                    lemma_rules_built_stays(gr, gs, old(self).graph, self.graph, es.subrange(b, cc), rules@);
                    lemma_methods_built_stays(gm, gr, old(self).graph, self.graph, es.subrange(a, b), methods@);
                    lemma_properties_built_stays(gp, gm, old(self).graph, self.graph, es.subrange(np, a), properties@);
                    match parent {
                        Some(p) => {
                            assert(es[0] == gp.edges_from(node)[0]);
                            lemma_expr_built_stays(g1, gp, old(self).graph, self.graph, es[0].1, **p);
                        },
                        None => {},
                    }
                }
                node
            },
            _ => unreached(),
        }
    }

    /// Imports, loads and module declarations.
    fn convert_module_stmt(&mut self, stmt: &Stmt, arena: ArenaId) -> (r: NodeRef)
        requires
            old(self).wf(),
            old(self).graph_spec().arenas().contains_key(arena.0),
            room(old(self).graph_spec(), stmt_nodes(*stmt)),
            stmt is Import || stmt is Load || stmt is ModuleDecl,
        ensures
            r.arena_id == arena,
            r == next_slot(old(self).graph_spec(), arena),
            final(self).wf(),
            added(old(self).graph_spec(), final(self).graph_spec(), stmt_nodes(*stmt)),
            final(self).default_arena_spec() == old(self).default_arena_spec(),
            fresh_node(old(self).graph_spec(), final(self).graph_spec(), r, stmt_node_type(*stmt)),
            stmt_built(old(self).graph_spec(), final(self).graph_spec(), r, *stmt),
        decreases *stmt, 0int,
    {
        match stmt {
            Stmt::Import { module, alias, position } => {
                let mut props: Vec<(String, AstProperty)> = Vec::new();
                props.push((String::from_str("module"), AstProperty::Str(module.clone())));
                match alias {
                    Some(a) => {
                        props.push((String::from_str("alias"), AstProperty::Str(a.clone())));
                    },
                    None => {},
                }
                proof {
                    reveal_strlit("module");
                    reveal_strlit("alias");
                }
                let node = self.add_node(arena, AstNodeType::ImportStmt, props, *position);
                assert(old(self).graph.edges_from(node).len() == 0);
                node
            },
            Stmt::ModuleDecl { name, alias, position } => {
                let mut props: Vec<(String, AstProperty)> = Vec::new();
                props.push((String::from_str("name"), AstProperty::Str(name.clone())));
                match alias {
                    Some(a) => {
                        props.push((String::from_str("alias"), AstProperty::Str(a.clone())));
                    },
                    None => {},
                }
                proof {
                    reveal_strlit("name");
                    reveal_strlit("alias");
                }
                let node = self.add_node(arena, AstNodeType::ModuleDeclStmt, props, *position);
                assert(old(self).graph.edges_from(node).len() == 0);
                node
            },
            Stmt::Load { path, position } => {
                let node = self.add_node(arena, AstNodeType::LoadStmt, Vec::new(), *position);
                let mut props: Vec<(String, AstProperty)> = Vec::new();
                props.push((String::from_str("value"), AstProperty::Str(path.clone())));
                let ghost g1 = self.graph;
                let path_ref = self.add_node(arena, AstNodeType::StringLit, props, *position);
                self.add_edge(node, ExecEdgeType::ValueEdge, path_ref);
                proof {
                    reveal_strlit("value");
                    assert(old(self).graph.edges_from(node).len() == 0);
                    assert(self.graph.edges_from(node) =~= seq![(ExecEdgeType::ValueEdge, path_ref)]);
                }
                node
            },
            _ => unreached(),
        }
    }

    /// A literal's node, with its value as the `value` property (none for
    /// `none`).
    fn convert_literal(&mut self, value: &LiteralValue, position: SourcePosition, arena: ArenaId) -> (r: NodeRef)
        requires
            old(self).wf(),
            old(self).graph.arenas().contains_key(arena.0),
            room(old(self).graph, 1),
        ensures
            r == next_slot(old(self).graph, arena),
            r.arena_id == arena,
            final(self).wf(),
            added(old(self).graph, final(self).graph, 1),
            final(self).default_arena == old(self).default_arena,
            fresh_node(old(self).graph, final(self).graph, r, literal_node_type(*value)),
            final(self).graph.node(r)->0.position == position,
            literal_properties(final(self).graph.node(r)->0, *value),
            forall|q: NodeRef| #[trigger] final(self).graph.edges_from(q) == old(self).graph.edges_from(q),
    {
        proof {
            reveal_strlit("value");
        }
        let mut props: Vec<(String, AstProperty)> = Vec::new();
        match value {
            LiteralValue::Number(n) => {
                props.push((String::from_str("value"), AstProperty::Num(*n)));
            },
            LiteralValue::String(s) => {
                props.push((String::from_str("value"), AstProperty::Str(s.clone())));
            },
            LiteralValue::Boolean(b) => {
                props.push((String::from_str("value"), AstProperty::Bool(*b)));
            },
            LiteralValue::NoneValue => {},
            LiteralValue::Symbol(s) => {
                props.push((String::from_str("value"), AstProperty::Str(s.clone())));
            },
        }
        self.add_node(arena, literal_node_type_of(value), props, position)
    }

    /// A call argument: a non-mutable positional argument is its
    /// expression's node, the others are wrapped in a node that carries the
    /// name and the mutable flag.
    fn convert_argument(&mut self, arg: &Argument, arena: ArenaId) -> (r: NodeRef)
        requires
            old(self).wf(),
            old(self).graph.arenas().contains_key(arena.0),
            room(old(self).graph, arg_nodes(*arg)),
        ensures
            final(self).wf(),
            added(old(self).graph, final(self).graph, arg_nodes(*arg)),
            final(self).default_arena == old(self).default_arena,
            fresh_node(old(self).graph, final(self).graph, r, arg_node_type(*arg)),
            arg_built(old(self).graph, final(self).graph, r, *arg),
        decreases *arg, 2int,
    {
        match arg {
            Argument::Positional { expr, mutable } => {
                if *mutable {
                    let expr_ref = self.convert_expr_in(expr, arena);
                    let ghost g1 = self.graph;
                    let mut props: Vec<(String, AstProperty)> = Vec::new();
                    props.push((String::from_str("mutable"), AstProperty::Bool(true)));
                    let wrapper = self.add_node(arena, AstNodeType::ExpressionStmt, props, expr.position());
                    let ghost g2 = self.graph;
                    self.add_edge(wrapper, ExecEdgeType::ValueEdge, expr_ref);
                    proof {
                        reveal_strlit("mutable");
                        assert(g1.edges_from(wrapper).len() == 0);
                        assert(self.graph.edges_from(wrapper) =~= seq![(ExecEdgeType::ValueEdge, expr_ref)]);
                        lemma_expr_built_stays(old(self).graph, g1, old(self).graph, self.graph, expr_ref, *expr);
                    }
                    wrapper
                } else {
                    self.convert_expr_in(expr, arena)
                }
            },
            Argument::Named { name, value, mutable } => {
                let mut props: Vec<(String, AstProperty)> = Vec::new();
                props.push((String::from_str("arg_name"), AstProperty::Str(name.clone())));
                if *mutable {
                    props.push((String::from_str("mutable"), AstProperty::Bool(true)));
                }
                let wrapper = self.add_node(arena, AstNodeType::ExpressionStmt, props, value.position());
                let ghost g1 = self.graph;
                let val_ref = self.convert_expr_in(value, arena);
                let ghost g2 = self.graph;
                self.add_edge(wrapper, ExecEdgeType::ValueEdge, val_ref);
                proof {
                    reveal_strlit("mutable");
                    reveal_strlit("arg_name");
                    assert(old(self).graph.edges_from(wrapper).len() == 0);
                    assert(g2.edges_from(wrapper) == g1.edges_from(wrapper));
                    assert(self.graph.edges_from(wrapper) =~= seq![(ExecEdgeType::ValueEdge, val_ref)]);
                    lemma_expr_built_stays(g1, g2, old(self).graph, self.graph, val_ref, *value);
                }
                wrapper
            },
        }
    }

    /// A `key: value` entry: an entry node with the key as property and the
    /// value below it.
    fn convert_entry(&mut self, key: &String, value: &Expr, position: SourcePosition, arena: ArenaId) -> (r: NodeRef)
        requires
            old(self).wf(),
            old(self).graph.arenas().contains_key(arena.0),
            room(old(self).graph, 1 + expr_nodes(*value)),
        ensures
            final(self).wf(),
            added(old(self).graph, final(self).graph, 1 + expr_nodes(*value)),
            final(self).default_arena == old(self).default_arena,
            fresh_node(old(self).graph, final(self).graph, r, AstNodeType::MapEntryNode),
            entry_built(old(self).graph, final(self).graph, r, key@, *value, position),
        decreases *value, 2int,
    {
        let mut props: Vec<(String, AstProperty)> = Vec::new();
        props.push((String::from_str("key"), AstProperty::Str(key.clone())));
        let entry_node = self.add_node(arena, AstNodeType::MapEntryNode, props, position);
        let ghost g1 = self.graph;
        let val_ref = self.convert_expr_in(value, arena);
        let ghost g2 = self.graph;
        self.add_edge(entry_node, ExecEdgeType::ValueEdge, val_ref);
        proof {
            reveal_strlit("key");
            assert(old(self).graph.edges_from(entry_node).len() == 0);
            assert(g2.edges_from(entry_node) == g1.edges_from(entry_node));
            assert(self.graph.edges_from(entry_node) =~= seq![(ExecEdgeType::ValueEdge, val_ref)]);
            lemma_expr_built_stays(g1, g2, old(self).graph, self.graph, val_ref, *value);
        }
        entry_node
    }

    /// A match arm: its pattern and its body below an arm node.
    fn convert_match_arm(&mut self, arm: &MatchArm, arena: ArenaId) -> (r: NodeRef)
        requires
            old(self).wf(),
            old(self).graph.arenas().contains_key(arena.0),
            room(old(self).graph, arm_nodes(*arm)),
        ensures
            final(self).wf(),
            added(old(self).graph, final(self).graph, arm_nodes(*arm)),
            final(self).default_arena == old(self).default_arena,
            fresh_node(old(self).graph, final(self).graph, r, AstNodeType::MatchArmNode),
            arm_built(old(self).graph, final(self).graph, r, *arm),
        decreases *arm, 2int,
    {
        let node = self.add_node(arena, AstNodeType::MatchArmNode, Vec::new(), arm.position);
        let ghost g1 = self.graph;
        let pattern_ref = self.convert_match_pattern(&arm.pattern, arena);
        let ghost g2 = self.graph;
        self.add_edge(node, ExecEdgeType::ArmPattern, pattern_ref);
        let ghost g3 = self.graph;
        let body_ref = self.convert_expr_in(&arm.body, arena);
        let ghost g4 = self.graph;
        self.add_edge(node, ExecEdgeType::ArmBody, body_ref);
        proof {
            assert(old(self).graph.edges_from(node).len() == 0);
            assert(g2.edges_from(node) == g1.edges_from(node));
            assert(g4.edges_from(node) == g3.edges_from(node));
            assert(self.graph.edges_from(node) =~= seq![(ExecEdgeType::ArmPattern, pattern_ref), (ExecEdgeType::ArmBody, body_ref)]);
            lemma_pattern_built_stays(g1, g2, old(self).graph, self.graph, pattern_ref, arm.pattern);
            lemma_expr_built_stays(g3, g4, old(self).graph, self.graph, body_ref, arm.body);
        }
        node
    }

    /// A match pattern; a list pattern has its element patterns below it.
    #[verifier::loop_isolation(false)]
    fn convert_match_pattern(&mut self, pattern: &MatchPattern, arena: ArenaId) -> (r: NodeRef)
        requires
            old(self).wf(),
            old(self).graph.arenas().contains_key(arena.0),
            room(old(self).graph, pattern_nodes(*pattern)),
        ensures
            final(self).wf(),
            added(old(self).graph, final(self).graph, pattern_nodes(*pattern)),
            final(self).default_arena == old(self).default_arena,
            fresh_node(old(self).graph, final(self).graph, r, AstNodeType::MatchPatternNode),
            pattern_built(old(self).graph, final(self).graph, r, *pattern),
        decreases *pattern, 2int,
    {
        proof {
            reveal_strlit("pattern_type");
            reveal_strlit("literal");
            reveal_strlit("variable");
            reveal_strlit("wildcard");
            reveal_strlit("list");
            reveal_strlit("name");
            reveal_strlit("element_count");
            reveal_strlit("rest_name");
        }
        let mut props: Vec<(String, AstProperty)> = Vec::new();
        match pattern {
            MatchPattern::Literal(value) => {
                props.push((String::from_str("pattern_type"), AstProperty::Str(String::from_str("literal"))));
                let ghost p1 = props@;
                push_literal_value(&mut props, value);
                proof {
                    assert(props@[0] == p1[0]);
                    assert(text_is(props@[0].1, "literal"@));
                    assert(literal_value_is(props@[1].1, *value));
                }
            },
            MatchPattern::Variable(name) => {
                props.push((String::from_str("pattern_type"), AstProperty::Str(String::from_str("variable"))));
                props.push((String::from_str("name"), AstProperty::Str(name.clone())));
            },
            MatchPattern::Wildcard => {
                props.push((String::from_str("pattern_type"), AstProperty::Str(String::from_str("wildcard"))));
                assert(text_is(props@[0].1, "wildcard"@));
                assert(props@[0].0@ == "pattern_type"@);
            },
            MatchPattern::List { elements, rest_name } => {
                props.push((String::from_str("pattern_type"), AstProperty::Str(String::from_str("list"))));
                props.push((String::from_str("element_count"), AstProperty::Int(elements.len() as i64)));
                match rest_name {
                    Some(rest) => {
                        props.push((String::from_str("rest_name"), AstProperty::Str(rest.clone())));
                    },
                    None => {},
                }
                let node = self.add_node(arena, AstNodeType::MatchPatternNode, props, SourcePosition::unknown());
                let ghost g1 = self.graph;
                proof {
                    assert(elements@.subrange(0, elements@.len() as int) =~= elements@);
                    assert(old(self).graph.edges_from(node).len() == 0);
                }
                let mut i: usize = 0;
                while i < elements.len()
                    invariant
                        self.wf(),
                        self.default_arena == old(self).default_arena,
                        self.graph.arenas().contains_key(arena.0),
                        grew(old(self).graph, self.graph),
                        i <= elements@.len(),
                        self.graph.total_nodes() + patterns_nodes(elements@.subrange(i as int, elements@.len() as int)) + 0
                            == old(self).graph.total_nodes() + pattern_nodes(*pattern),
                        room(old(self).graph, pattern_nodes(*pattern)),
                        fresh_node(old(self).graph, self.graph, node, AstNodeType::MatchPatternNode),
                        forall|q: NodeRef| g1.node(q) is Some ==> #[trigger] self.graph.node(q) == g1.node(q),
                        g1.node(node) is Some,
                        self.graph.edges_from(node).len() == i,
                        forall|j: int| #![trigger self.graph.edges_from(node)[j]] 0 <= j < i ==> self.graph.edges_from(node)[j].0
                            == ExecEdgeType::Element(j as u32) && pattern_built(g1, self.graph, self.graph.edges_from(node)[j].1, elements@[j]),
                    decreases elements@.len() - i,
                {
                    proof {
                        assert(elements@.subrange(i as int, elements@.len() as int).subrange(1, elements@.len() - i)
                            =~= elements@.subrange(i + 1, elements@.len() as int));
                    }
                    let ghost gi = self.graph;
                    let elem_ref = self.convert_match_pattern(&elements[i], arena);
                    let ghost gj = self.graph;
                    self.add_edge(node, ExecEdgeType::Element(i as u32), elem_ref);
                    proof {
                        assert(gj.edges_from(node) == gi.edges_from(node));
                        assert forall|j: int| #![trigger self.graph.edges_from(node)[j]] 0 <= j < i + 1 implies self.graph.edges_from(node)[j].0
                            == ExecEdgeType::Element(j as u32) && pattern_built(g1, self.graph, self.graph.edges_from(node)[j].1, elements@[j]) by {
                            if j < i {
                                assert(self.graph.edges_from(node)[j] == gi.edges_from(node)[j]);
                                lemma_pattern_built_stays(g1, gi, g1, self.graph, gi.edges_from(node)[j].1, elements@[j]);
                            } else {
                                lemma_pattern_built_stays(gi, gj, g1, self.graph, elem_ref, elements@[j]);
                            }
                        }
                    }
                    i = i + 1;
                }
                proof {
                    let es = self.graph.edges_from(node);
                    assert forall|j: int| #![trigger es[j]] 0 <= j < elements@.len() implies es[j].0
                        == ExecEdgeType::Element(j as u32) && pattern_built(old(self).graph, self.graph, es[j].1, elements@[j]) by {
                        lemma_pattern_built_stays(g1, self.graph, old(self).graph, self.graph, es[j].1, elements@[j]);
                    }
                }
                return node;
            },
        }
        let node = self.add_node(arena, AstNodeType::MatchPatternNode, props, SourcePosition::unknown());
        proof {
            assert(old(self).graph.edges_from(node).len() == 0);
        }
        node
    }

    /// Statements as a block node with the statements below it, in order.
    #[verifier::loop_isolation(false)]
    #[verifier::spinoff_prover]
    fn convert_stmt_block(&mut self, stmts: &Vec<Stmt>, arena: ArenaId, position: SourcePosition) -> (r: NodeRef)
        requires
            old(self).wf(),
            old(self).graph.arenas().contains_key(arena.0),
            room(old(self).graph, 1 + stmts_nodes(stmts@)),
        ensures
            r == next_slot(old(self).graph, arena),
            r.arena_id == arena,
            final(self).wf(),
            added(old(self).graph, final(self).graph, 1 + stmts_nodes(stmts@)),
            final(self).default_arena == old(self).default_arena,
            fresh_node(old(self).graph, final(self).graph, r, AstNodeType::BlockExpr),
            block_built(old(self).graph, final(self).graph, r, stmts@, position),
        decreases stmts@, 2int,
    {
        let block = self.add_node(arena, AstNodeType::BlockExpr, Vec::new(), position);
        let ghost g1 = self.graph;
        proof {
            assert(stmts@.subrange(0, stmts@.len() as int) =~= stmts@);
            assert(old(self).graph.edges_from(block).len() == 0);
        }
        let mut i: usize = 0;
        while i < stmts.len()
            invariant
                self.wf(),
                self.default_arena == old(self).default_arena,
                self.graph.arenas().contains_key(arena.0),
                grew(old(self).graph, self.graph),
                i <= stmts@.len(),
                self.graph.total_nodes() + stmts_nodes(stmts@.subrange(i as int, stmts@.len() as int)) + 0
                    == old(self).graph.total_nodes() + 1 + stmts_nodes(stmts@),
                room(old(self).graph, 1 + stmts_nodes(stmts@)),
                fresh_node(old(self).graph, self.graph, block, AstNodeType::BlockExpr),
                forall|q: NodeRef| g1.node(q) is Some ==> #[trigger] self.graph.node(q) == g1.node(q),
                g1.node(block) is Some,
                self.graph.edges_from(block).len() == i,
                forall|j: int| #![trigger self.graph.edges_from(block)[j]] 0 <= j < i ==> self.graph.edges_from(block)[j].0
                    == ExecEdgeType::Element(j as u32) && stmt_built(g1, self.graph, self.graph.edges_from(block)[j].1, stmts@[j]) && self.graph.edges_from(block)[j].1.arena_id == block.arena_id,
            decreases stmts@.len() - i,
        {
            proof {
                assert(stmts@.subrange(i as int, stmts@.len() as int).subrange(1, stmts@.len() - i)
                    =~= stmts@.subrange(i + 1, stmts@.len() as int));
            }
            let ghost gi = self.graph;
            let s_ref = self.convert_stmt(&stmts[i], arena);
            let ghost gj = self.graph;
            self.add_edge(block, ExecEdgeType::Element(i as u32), s_ref);
            proof {
                assert(gj.edges_from(block) == gi.edges_from(block));
                assert forall|j: int| #![trigger self.graph.edges_from(block)[j]] 0 <= j < i + 1 implies self.graph.edges_from(block)[j].0
                    == ExecEdgeType::Element(j as u32) && stmt_built(g1, self.graph, self.graph.edges_from(block)[j].1, stmts@[j]) && self.graph.edges_from(block)[j].1.arena_id == block.arena_id by {
                    if j < i {
                        assert(self.graph.edges_from(block)[j] == gi.edges_from(block)[j]);
                        lemma_stmt_built_stays(g1, gi, g1, self.graph, gi.edges_from(block)[j].1, stmts@[j]);
                    } else {
                        lemma_stmt_built_stays(gi, gj, g1, self.graph, s_ref, stmts@[j]);
                    }
                }
            }
            i = i + 1;
        }
        proof {
            let es = self.graph.edges_from(block);
            assert forall|j: int| #![trigger es[j]] 0 <= j < stmts@.len() implies es[j].0
                == ExecEdgeType::Element(j as u32) && stmt_built(old(self).graph, self.graph, es[j].1, stmts@[j]) && es[j].1.arena_id == block.arena_id by {
                lemma_stmt_built_stays(g1, self.graph, old(self).graph, self.graph, es[j].1, stmts@[j]);
            }
        }
        block
    }

    /// A function or method body: a block node in an arena of its own.
    #[verifier::loop_isolation(false)]
    fn convert_body(&mut self, stmts: &Vec<Stmt>, position: SourcePosition) -> (r: NodeRef)
        requires
            old(self).wf(),
            room(old(self).graph, 1 + stmts_nodes(stmts@)),
        ensures
            final(self).wf(),
            added(old(self).graph, final(self).graph, 1 + stmts_nodes(stmts@)),
            final(self).default_arena == old(self).default_arena,
            fresh_node(old(self).graph, final(self).graph, r, AstNodeType::BlockExpr),
            block_built(old(self).graph, final(self).graph, r, stmts@, position),
            in_new_arena(old(self).graph, r),
        decreases stmts@, 3int,
    {
        let arena = self.new_body_arena();
        proof {
            self.graph.lemma_arena_within_total(arena.0);
        }
        let block = self.graph.add_node(arena, AstGraphNode { node_type: AstNodeType::BlockExpr, properties: Vec::new(), position });
        let ghost g1 = self.graph;
        proof {
            assert(stmts@.subrange(0, stmts@.len() as int) =~= stmts@);
            assert(old(self).graph.edges_from(block).len() == 0);
        }
        let mut i: usize = 0;
        while i < stmts.len()
            invariant
                self.wf(),
                self.default_arena == old(self).default_arena,
                self.graph.arenas().contains_key(arena.0),
                grew(old(self).graph, self.graph),
                i <= stmts@.len(),
                self.graph.total_nodes() + stmts_nodes(stmts@.subrange(i as int, stmts@.len() as int)) + 0
                    == old(self).graph.total_nodes() + 1 + stmts_nodes(stmts@),
                room(old(self).graph, 1 + stmts_nodes(stmts@)),
                fresh_node(old(self).graph, self.graph, block, AstNodeType::BlockExpr),
                forall|q: NodeRef| g1.node(q) is Some ==> #[trigger] self.graph.node(q) == g1.node(q),
                g1.node(block) is Some,
                self.graph.edges_from(block).len() == i,
                forall|j: int| #![trigger self.graph.edges_from(block)[j]] 0 <= j < i ==> self.graph.edges_from(block)[j].0
                    == ExecEdgeType::Element(j as u32) && stmt_built(g1, self.graph, self.graph.edges_from(block)[j].1, stmts@[j]) && self.graph.edges_from(block)[j].1.arena_id == block.arena_id,
            decreases stmts@.len() - i,
        {
            proof {
                assert(stmts@.subrange(i as int, stmts@.len() as int).subrange(1, stmts@.len() - i)
                    =~= stmts@.subrange(i + 1, stmts@.len() as int));
            }
            let ghost gi = self.graph;
            let s_ref = self.convert_stmt(&stmts[i], arena);
            let ghost gj = self.graph;
            self.add_edge(block, ExecEdgeType::Element(i as u32), s_ref);
            proof {
                assert(gj.edges_from(block) == gi.edges_from(block));
                assert forall|j: int| #![trigger self.graph.edges_from(block)[j]] 0 <= j < i + 1 implies self.graph.edges_from(block)[j].0
                    == ExecEdgeType::Element(j as u32) && stmt_built(g1, self.graph, self.graph.edges_from(block)[j].1, stmts@[j]) && self.graph.edges_from(block)[j].1.arena_id == block.arena_id by {
                    if j < i {
                        assert(self.graph.edges_from(block)[j] == gi.edges_from(block)[j]);
                        lemma_stmt_built_stays(g1, gi, g1, self.graph, gi.edges_from(block)[j].1, stmts@[j]);
                    } else {
                        lemma_stmt_built_stays(gi, gj, g1, self.graph, s_ref, stmts@[j]);
                    }
                }
            }
            i = i + 1;
        }
        proof {
            let es = self.graph.edges_from(block);
            assert forall|j: int| #![trigger es[j]] 0 <= j < stmts@.len() implies es[j].0
                == ExecEdgeType::Element(j as u32) && stmt_built(old(self).graph, self.graph, es[j].1, stmts@[j]) && es[j].1.arena_id == block.arena_id by {
                lemma_stmt_built_stays(g1, self.graph, old(self).graph, self.graph, es[j].1, stmts@[j]);
            }
        }
        block
    }

    /// A new arena for a body.
    fn new_body_arena(&mut self) -> (id: ArenaId)
        requires
            old(self).wf(),
            old(self).graph.next_arena_id() < u32::MAX,
        ensures
            final(self).wf(),
            final(self).default_arena == old(self).default_arena,
            final(self).graph.arenas().contains_key(id.0),
            final(self).graph.next_arena_id() == old(self).graph.next_arena_id() + 1,
            final(self).graph.total_nodes() == old(self).graph.total_nodes(),
            forall|a: u32| old(self).graph.arenas().contains_key(a) ==> #[trigger] final(self).graph.arenas().contains_key(a),
            forall|q: NodeRef| #[trigger] final(self).graph.node(q) == old(self).graph.node(q),
            forall|q: NodeRef| #[trigger] final(self).graph.edges_from(q) == old(self).graph.edges_from(q),
            forall|q: NodeRef| #[trigger] old(self).graph.node(q) is Some ==> q.arena_id != id,
    {
        proof {
            assert forall|q: NodeRef| #[trigger] old(self).graph.node(q) is Some implies q.arena_id != ArenaId(old(self).graph.next_arena_id() as u32) by {
                old(self).graph.lemma_node_in_live_arena(q);
            }
        }
        self.graph.new_arena()
    }

    /// A catch clause: its error type and variable as properties, its body
    /// below it.
    fn convert_catch_clause(&mut self, clause: &CatchClause, arena: ArenaId) -> (r: NodeRef)
        requires
            old(self).wf(),
            old(self).graph.arenas().contains_key(arena.0),
            room(old(self).graph, catch_nodes(*clause)),
        ensures
            final(self).wf(),
            added(old(self).graph, final(self).graph, catch_nodes(*clause)),
            final(self).default_arena == old(self).default_arena,
            fresh_node(old(self).graph, final(self).graph, r, AstNodeType::CatchClauseNode),
            catch_built(old(self).graph, final(self).graph, r, *clause),
        decreases *clause, 2int,
    {
        let mut props: Vec<(String, AstProperty)> = Vec::new();
        match &clause.error_type {
            Some(et) => {
                props.push((String::from_str("error_type"), AstProperty::Str(et.clone())));
            },
            None => {},
        }
        match &clause.variable {
            Some(var) => {
                props.push((String::from_str("variable"), AstProperty::Str(var.clone())));
            },
            None => {},
        }
        let node = self.add_node(arena, AstNodeType::CatchClauseNode, props, clause.position);
        let ghost g1 = self.graph;
        let body = self.convert_stmt_block(&clause.body, arena, clause.position);
        let ghost g2 = self.graph;
        self.add_edge(node, ExecEdgeType::Body, body);
        proof {
            assert(old(self).graph.edges_from(node).len() == 0);
            assert(g2.edges_from(node) == g1.edges_from(node));
            assert(self.graph.edges_from(node) =~= seq![(ExecEdgeType::Body, body)]);
            lemma_block_built_stays(g1, g2, old(self).graph, self.graph, body, clause.body@, clause.position);
        }
        node
    }

    /// A parameter: its name and variadic flag as properties, its default
    /// value below it.
    fn convert_parameter(&mut self, param: &Parameter, arena: ArenaId) -> (r: NodeRef)
        requires
            old(self).wf(),
            old(self).graph.arenas().contains_key(arena.0),
            room(old(self).graph, param_nodes(*param)),
        ensures
            final(self).wf(),
            added(old(self).graph, final(self).graph, param_nodes(*param)),
            final(self).default_arena == old(self).default_arena,
            fresh_node(old(self).graph, final(self).graph, r, AstNodeType::Identifier),
            param_built(old(self).graph, final(self).graph, r, *param),
        decreases *param, 2int,
    {
        let mut props: Vec<(String, AstProperty)> = Vec::new();
        props.push((String::from_str("name"), AstProperty::Str(param.name.clone())));
        props.push((String::from_str("is_variadic"), AstProperty::Bool(param.is_variadic)));
        let node = self.add_node(arena, AstNodeType::Identifier, props, SourcePosition::unknown());
        proof {
            assert(old(self).graph.edges_from(node).len() == 0);
        }
        match &param.default_value {
            Some(default) => {
                let ghost g1 = self.graph;
                let default_ref = self.convert_expr_in(default, arena);
                let ghost g2 = self.graph;
                self.add_edge(node, ExecEdgeType::DefaultValue, default_ref);
                proof {
                    assert(g2.edges_from(node) == g1.edges_from(node));
                    assert(self.graph.edges_from(node) =~= seq![(ExecEdgeType::DefaultValue, default_ref)]);
                    lemma_expr_built_stays(g1, g2, old(self).graph, self.graph, default_ref, *default);
                }
            },
            None => {},
        }
        node
    }

    /// A pattern clause of a pattern-matching function: pattern, body and
    /// guard below a clause node.
    fn convert_pattern_clause(&mut self, clause: &PatternClause, arena: ArenaId) -> (r: NodeRef)
        requires
            old(self).wf(),
            old(self).graph.arenas().contains_key(arena.0),
            room(old(self).graph, clause_nodes(*clause)),
        ensures
            final(self).wf(),
            added(old(self).graph, final(self).graph, clause_nodes(*clause)),
            final(self).default_arena == old(self).default_arena,
            fresh_node(old(self).graph, final(self).graph, r, AstNodeType::PatternClauseNode),
            clause_built(old(self).graph, final(self).graph, r, *clause),
        decreases *clause, 2int,
    {
        let node = self.add_node(arena, AstNodeType::PatternClauseNode, Vec::new(), clause.position);
        let ghost g1 = self.graph;
        let pattern_ref = self.convert_function_pattern(&clause.pattern, arena);
        let ghost g2 = self.graph;
        self.add_edge(node, ExecEdgeType::ArmPattern, pattern_ref);
        let ghost g3 = self.graph;
        let body_ref = self.convert_expr_in(&clause.body, arena);
        let ghost g4 = self.graph;
        self.add_edge(node, ExecEdgeType::ArmBody, body_ref);
        let ghost g5 = self.graph;
        proof {
            assert(old(self).graph.edges_from(node).len() == 0);
            assert(g2.edges_from(node) == g1.edges_from(node));
            assert(g4.edges_from(node) == g3.edges_from(node));
            assert(g5.edges_from(node) =~= seq![(ExecEdgeType::ArmPattern, pattern_ref), (ExecEdgeType::ArmBody, body_ref)]);
            assert(g2.edges_from(pattern_ref) == g1.edges_from(pattern_ref));
        }
        match &clause.guard {
            Some(guard) => {
                let guard_ref = self.convert_expr_in(guard, arena);
                let ghost g6 = self.graph;
                self.add_edge(node, ExecEdgeType::Guard, guard_ref);
                proof {
                    assert(g6.edges_from(node) == g5.edges_from(node));
                    assert(self.graph.edges_from(node) =~= seq![(ExecEdgeType::ArmPattern, pattern_ref),
                        (ExecEdgeType::ArmBody, body_ref), (ExecEdgeType::Guard, guard_ref)]);
                    lemma_expr_built_stays(g5, g6, old(self).graph, self.graph, guard_ref, *guard);
                }
            },
            None => {},
        }
        proof {
            lemma_expr_built_stays(g3, g4, old(self).graph, self.graph, body_ref, clause.body);
            assert(self.graph.edges_from(pattern_ref) == g2.edges_from(pattern_ref));
        }
        node
    }

    /// The pattern of a pattern clause.
    fn convert_function_pattern(&mut self, pattern: &Pattern, arena: ArenaId) -> (r: NodeRef)
        requires
            old(self).wf(),
            old(self).graph.arenas().contains_key(arena.0),
            room(old(self).graph, 1),
        ensures
            final(self).wf(),
            added(old(self).graph, final(self).graph, 1),
            final(self).default_arena == old(self).default_arena,
            fresh_node(old(self).graph, final(self).graph, r, AstNodeType::MatchPatternNode),
            function_pattern_built(old(self).graph, final(self).graph, r, *pattern),
            final(self).graph.edges_from(r) == old(self).graph.edges_from(r),
    {
        proof {
            reveal_strlit("pattern_type");
            reveal_strlit("literal");
            reveal_strlit("variable");
            reveal_strlit("wildcard");
            reveal_strlit("name");
        }
        let mut props: Vec<(String, AstProperty)> = Vec::new();
        let position = match pattern {
            Pattern::Literal { value, position } => {
                props.push((String::from_str("pattern_type"), AstProperty::Str(String::from_str("literal"))));
                let ghost p1 = props@;
                push_literal_value(&mut props, value);
                proof {
                    assert(props@[0] == p1[0]);
                }
                *position
            },
            Pattern::Variable { name, position } => {
                props.push((String::from_str("pattern_type"), AstProperty::Str(String::from_str("variable"))));
                props.push((String::from_str("name"), AstProperty::Str(name.clone())));
                *position
            },
            Pattern::Wildcard { position } => {
                props.push((String::from_str("pattern_type"), AstProperty::Str(String::from_str("wildcard"))));
                *position
            },
        };
        let node = self.add_node(arena, AstNodeType::MatchPatternNode, props, position);
        proof {
            assert(old(self).graph.edges_from(node).len() == 0);
        }
        node
    }

    /// A property of a graph declaration, its value below it.
    fn convert_graph_property(&mut self, prop: &GraphProperty, arena: ArenaId) -> (r: NodeRef)
        requires
            old(self).wf(),
            old(self).graph.arenas().contains_key(arena.0),
            room(old(self).graph, property_nodes(*prop)),
        ensures
            final(self).wf(),
            added(old(self).graph, final(self).graph, property_nodes(*prop)),
            final(self).default_arena == old(self).default_arena,
            fresh_node(old(self).graph, final(self).graph, r, AstNodeType::GraphPropertyNode),
            property_built(old(self).graph, final(self).graph, r, *prop),
        decreases *prop, 2int,
    {
        let mut props: Vec<(String, AstProperty)> = Vec::new();
        props.push((String::from_str("name"), AstProperty::Str(prop.name.clone())));
        let node = self.add_node(arena, AstNodeType::GraphPropertyNode, props, prop.position);
        let ghost g1 = self.graph;
        let val_ref = self.convert_expr_in(&prop.value, arena);
        let ghost g2 = self.graph;
        self.add_edge(node, ExecEdgeType::ValueEdge, val_ref);
        proof {
            assert(old(self).graph.edges_from(node).len() == 0);
            assert(g2.edges_from(node) == g1.edges_from(node));
            assert(self.graph.edges_from(node) =~= seq![(ExecEdgeType::ValueEdge, val_ref)]);
            lemma_expr_built_stays(g1, g2, old(self).graph, self.graph, val_ref, prop.value);
        }
        node
    }

    /// A method of a graph declaration: parameters and guard below it, the
    /// body in an arena of its own.
    #[verifier::spinoff_prover]
    fn convert_graph_method(&mut self, method: &GraphMethod, arena: ArenaId) -> (r: NodeRef)
        requires
            old(self).wf(),
            old(self).graph.arenas().contains_key(arena.0),
            room(old(self).graph, method_nodes(*method)),
        ensures
            final(self).wf(),
            added(old(self).graph, final(self).graph, method_nodes(*method)),
            final(self).default_arena == old(self).default_arena,
            fresh_node(old(self).graph, final(self).graph, r, AstNodeType::GraphMethodNode),
            method_built(old(self).graph, final(self).graph, r, *method),
        decreases *method, 2int,
    {
        let mut props: Vec<(String, AstProperty)> = Vec::new();
        props.push((String::from_str("name"), AstProperty::Str(method.name.clone())));
        props.push((String::from_str("is_static"), AstProperty::Bool(method.is_static)));
        props.push((String::from_str("is_setter"), AstProperty::Bool(method.is_setter)));
        props.push((String::from_str("is_private"), AstProperty::Bool(method.is_private)));
        props.push((String::from_str("param_count"), AstProperty::Int(method.params.len() as i64)));
        proof {
            reveal_strlit("name");
            reveal_strlit("is_static");
            reveal_strlit("is_setter");
            reveal_strlit("is_private");
            reveal_strlit("param_count");
        }
        let node = self.add_node(arena, AstNodeType::GraphMethodNode, props, method.position);
        let ghost g1 = self.graph;
        proof {
            assert(old(self).graph.edges_from(node).len() == 0);
        }
        self.convert_parameters(node, &method.params, arena);
        let ghost g2 = self.graph;
        let body_node = self.convert_body(&method.body, method.position);
        let ghost g3 = self.graph;
        self.add_edge(node, ExecEdgeType::Body, body_node);
        let ghost g4 = self.graph;
        proof {
            assert(g3.edges_from(node) == g2.edges_from(node));
            assert(g4.edges_from(node) =~= g2.edges_from(node).push((ExecEdgeType::Body, body_node)));
        }
        match &method.guard {
            Some(guard_expr) => {
                let guard_ref = self.convert_expr_in(guard_expr, arena);
                let ghost g5 = self.graph;
                self.add_edge(node, ExecEdgeType::Guard, guard_ref);
                proof {
                    assert(g5.edges_from(node) == g4.edges_from(node));
                    assert(self.graph.edges_from(node) =~= g4.edges_from(node).push((ExecEdgeType::Guard, guard_ref)));
                    lemma_expr_built_stays(g4, g5, old(self).graph, self.graph, guard_ref, **guard_expr);
                }
            },
            None => {},
        }
        proof {
            let es = self.graph.edges_from(node);
            let np = method.params@.len() as int;
            assert(es.subrange(0, np + 1) =~= g4.edges_from(node));
            assert(es[np] == g4.edges_from(node)[np]);
            assert(es.subrange(0, np) =~= g2.edges_from(node));
            assert(g2.edges_from(node).subrange(0, np) =~= g2.edges_from(node));
            assert(g1.edges_from(node).len() == 0);
            lemma_block_built_stays(g2, g3, old(self).graph, self.graph, body_node, method.body@, method.position);
            lemma_in_new_arena_stays(g2, old(self).graph, body_node);
            lemma_params_built_stays(g1, g2, old(self).graph, self.graph, es.subrange(0, np), method.params@);
        }
        node
    }

    /// A rule of a graph declaration, its parameter below it.
    fn convert_graph_rule(&mut self, rule: &GraphRule, arena: ArenaId) -> (r: NodeRef)
        requires
            old(self).wf(),
            old(self).graph.arenas().contains_key(arena.0),
            room(old(self).graph, rule_nodes(*rule)),
        ensures
            final(self).wf(),
            added(old(self).graph, final(self).graph, rule_nodes(*rule)),
            final(self).default_arena == old(self).default_arena,
            fresh_node(old(self).graph, final(self).graph, r, AstNodeType::GraphRuleNode),
            rule_built(old(self).graph, final(self).graph, r, *rule),
        decreases *rule, 2int,
    {
        let mut props: Vec<(String, AstProperty)> = Vec::new();
        props.push((String::from_str("name"), AstProperty::Str(rule.name.clone())));
        let node = self.add_node(arena, AstNodeType::GraphRuleNode, props, rule.position);
        proof {
            assert(old(self).graph.edges_from(node).len() == 0);
        }
        match &rule.param {
            Some(param) => {
                let ghost g1 = self.graph;
                let param_ref = self.convert_expr_in(param, arena);
                let ghost g2 = self.graph;
                self.add_edge(node, ExecEdgeType::ValueEdge, param_ref);
                proof {
                    assert(g2.edges_from(node) == g1.edges_from(node));
                    assert(self.graph.edges_from(node) =~= seq![(ExecEdgeType::ValueEdge, param_ref)]);
                    lemma_expr_built_stays(g1, g2, old(self).graph, self.graph, param_ref, *param);
                }
            },
            None => {},
        }
        node
    }

    /// An access setting of a graph declaration (`readable: [..]`): an entry
    /// node with the key, each value as `value_<j>`, and the count.
    fn convert_config_entry(&mut self, key: &String, values: &Vec<String>, position: SourcePosition, arena: ArenaId) -> (r: NodeRef)
        requires
            old(self).wf(),
            old(self).graph.arenas().contains_key(arena.0),
            room(old(self).graph, 1),
        ensures
            final(self).wf(),
            added(old(self).graph, final(self).graph, 1),
            final(self).default_arena == old(self).default_arena,
            fresh_node(old(self).graph, final(self).graph, r, AstNodeType::MapEntryNode),
            config_entry_built(old(self).graph, final(self).graph, r, key@, values@, position),
    {
        let mut props: Vec<(String, AstProperty)> = Vec::new();
        props.push((String::from_str("key"), AstProperty::Str(key.clone())));
        let mut props = with_numbered_texts(props, "value_", values);
        let ghost p1 = props@;
        props.push((String::from_str("count"), AstProperty::Int(values.len() as i64)));
        proof {
            assert(props@[0] == p1.subrange(0, 1)[0]);
            assert forall|k: int| 0 <= k < values@.len() implies #[trigger] numbered_text_at(props@, 1, "value_"@, values@, k) by {
                assert(numbered_text_at(p1, 1, "value_"@, values@, k));
                assert(props@[1 + k] == p1[1 + k]);
            }
        }
        let node = self.add_node(arena, AstNodeType::MapEntryNode, props, position);
        proof {
            assert(old(self).graph.edges_from(node).len() == 0);
        }
        node
    }

    /// Convert a program: a program node in the default arena with the
    /// statements below it, set as the root.
    #[verifier::loop_isolation(false)]
    pub fn convert_program(&mut self, program: &Program) -> (r: NodeRef)
        requires
            old(self).wf(),
            room(old(self).graph_spec(), 1 + stmts_nodes(program.statements@)),
        ensures
            final(self).wf(),
            added(old(self).graph_spec(), final(self).graph_spec(), 1 + stmts_nodes(program.statements@)),
            final(self).default_arena_spec() == old(self).default_arena_spec(),
            fresh_node(old(self).graph_spec(), final(self).graph_spec(), r, AstNodeType::Program),
            final(self).graph_spec().root_spec() == Some(r),
            program_built(old(self).graph_spec(), final(self).graph_spec(), r, program.statements@),
    {
        let arena = self.default_arena;
        let root = self.add_node(arena, AstNodeType::Program, Vec::new(), SourcePosition::unknown());
        let ghost g1 = self.graph;
        let statements = &program.statements;
        proof {
            assert(statements@.subrange(0, statements@.len() as int) =~= statements@);
            assert(old(self).graph.edges_from(root).len() == 0);
        }
        let mut i: usize = 0;
        while i < statements.len()
            invariant
                self.wf(),
                self.default_arena == old(self).default_arena,
                self.graph.arenas().contains_key(arena.0),
                grew(old(self).graph, self.graph),
                i <= statements@.len(),
                self.graph.total_nodes() + stmts_nodes(statements@.subrange(i as int, statements@.len() as int)) + 0
                    == old(self).graph.total_nodes() + 1 + stmts_nodes(program.statements@),
                room(old(self).graph, 1 + stmts_nodes(program.statements@)),
                fresh_node(old(self).graph, self.graph, root, AstNodeType::Program),
                forall|q: NodeRef| g1.node(q) is Some ==> #[trigger] self.graph.node(q) == g1.node(q),
                g1.node(root) is Some,
                self.graph.edges_from(root).len() == i,
                forall|j: int| #![trigger self.graph.edges_from(root)[j]] 0 <= j < i ==> self.graph.edges_from(root)[j].0
                    == ExecEdgeType::Element(j as u32) && stmt_built(g1, self.graph, self.graph.edges_from(root)[j].1, statements@[j]) && self.graph.edges_from(root)[j].1.arena_id == root.arena_id,
            decreases statements@.len() - i,
        {
            proof {
                assert(statements@.subrange(i as int, statements@.len() as int).subrange(1, statements@.len() - i)
                    =~= statements@.subrange(i + 1, statements@.len() as int));
            }
            let ghost gi = self.graph;
            let stmt_ref = self.convert_stmt(&statements[i], arena);
            let ghost gj = self.graph;
            self.add_edge(root, ExecEdgeType::Element(i as u32), stmt_ref);
            proof {
                assert(gj.edges_from(root) == gi.edges_from(root));
                assert forall|j: int| #![trigger self.graph.edges_from(root)[j]] 0 <= j < i + 1 implies self.graph.edges_from(root)[j].0
                    == ExecEdgeType::Element(j as u32) && stmt_built(g1, self.graph, self.graph.edges_from(root)[j].1, statements@[j]) && self.graph.edges_from(root)[j].1.arena_id == root.arena_id by {
                    if j < i {
                        assert(self.graph.edges_from(root)[j] == gi.edges_from(root)[j]);
                        lemma_stmt_built_stays(g1, gi, g1, self.graph, gi.edges_from(root)[j].1, statements@[j]);
                    } else {
                        lemma_stmt_built_stays(gi, gj, g1, self.graph, stmt_ref, statements@[j]);
                    }
                }
            }
            i = i + 1;
        }
        let ghost g2 = self.graph;
        self.set_root(root);
        proof {
            let es = self.graph.edges_from(root);
            assert(es == g2.edges_from(root));
            assert forall|j: int| #![trigger es[j]] 0 <= j < statements@.len() implies es[j].0
                == ExecEdgeType::Element(j as u32) && stmt_built(old(self).graph, self.graph, es[j].1, statements@[j]) && es[j].1.arena_id == root.arena_id by {
                lemma_stmt_built_stays(g1, g2, old(self).graph, self.graph, es[j].1, statements@[j]);
            }
        }
        root
    }

    /// Sets the root of the graph.
    fn set_root(&mut self, root: NodeRef)
        requires
            old(self).wf(),
        ensures
            final(self).wf(),
            added(old(self).graph, final(self).graph, 0),
            final(self).default_arena == old(self).default_arena,
            final(self).graph.root_spec() == Some(root),
    {
        self.graph.set_root(root);
    }

    /// Convert an expression into the default arena.
    pub fn convert_expr(&mut self, expr: &Expr) -> (r: NodeRef)
        requires
            old(self).wf(),
            room(old(self).graph_spec(), expr_nodes(*expr)),
        ensures
            final(self).wf(),
            added(old(self).graph_spec(), final(self).graph_spec(), expr_nodes(*expr)),
            final(self).default_arena_spec() == old(self).default_arena_spec(),
            fresh_node(old(self).graph_spec(), final(self).graph_spec(), r, expr_node_type(*expr)),
            expr_built(old(self).graph_spec(), final(self).graph_spec(), r, *expr),
    {
        let arena = self.default_arena;
        self.convert_expr_in(expr, arena)
    }

    /// Consume the converter and return the graph it built.
    pub fn into_graph(self) -> (g: ExecutionGraph)
        ensures
            g == self.graph_spec(),
    {
        self.graph
    }
}

/// The node type of a literal.
fn literal_node_type_of(value: &LiteralValue) -> (t: AstNodeType)
    ensures
        t == literal_node_type(*value),
{
    match value {
        LiteralValue::Number(_) => AstNodeType::NumberLit,
        LiteralValue::String(_) => AstNodeType::StringLit,
        LiteralValue::Boolean(_) => AstNodeType::BoolLit,
        LiteralValue::NoneValue => AstNodeType::NoneLit,
        LiteralValue::Symbol(_) => AstNodeType::SymbolLit,
    }
}

/// `props` followed by one property per text of `values`: the `k`-th under
/// `prefix` followed by `k` in decimal.
fn with_numbered_texts(props: Vec<(String, AstProperty)>, prefix: &str, values: &Vec<String>) -> (r: Vec<(String, AstProperty)>)
    ensures
        r@.len() == props@.len() + values@.len(),
        r@.subrange(0, props@.len() as int) == props@,
        numbered_texts(r@, props@.len() as int, prefix@, values@),
{
    let mut out = props;
    let ghost start = out@.len() as int;
    let ghost first = out@;
    let mut k: usize = 0;
    while k < values.len()
        invariant
            start == props@.len(),
            first == props@,
            k <= values@.len(),
            out@.len() == start + k,
            out@.subrange(0, start) == first,
            forall|j: int| 0 <= j < k ==> #[trigger] numbered_text_at(out@, start, prefix@, values@, j),
        decreases values@.len() - k,
    {
        let ghost before = out@;
        let mut key = String::from_str(prefix);
        append_decimal(&mut key, k);
        let text = values[k].clone();
        out.push((key, AstProperty::Str(text)));
        proof {
            assert(out@.subrange(0, start) =~= before.subrange(0, start));
            assert forall|j: int| 0 <= j < k + 1 implies #[trigger] numbered_text_at(out@, start, prefix@, values@, j) by {
                if j < k {
                    assert(numbered_text_at(before, start, prefix@, values@, j));
                    assert(out@[start + j] == before[start + j]);
                } else {
                    assert(out@[start + j] == (key, AstProperty::Str(text)));
                    assert(text == values@[j]);
                }
            }
        }
        k = k + 1;
    }
    out
}

/// Adds the `value` property of a literal pattern.
fn push_literal_value(props: &mut Vec<(String, AstProperty)>, value: &LiteralValue)
    ensures
        final(props)@.len() == old(props)@.len() + 1,
        final(props)@.subrange(0, old(props)@.len() as int) == old(props)@,
        final(props)@[old(props)@.len() as int].0@ == "value"@,
        literal_value_is(final(props)@[old(props)@.len() as int].1, *value),
{
    let v = match value {
        LiteralValue::Number(n) => AstProperty::Num(*n),
        LiteralValue::String(s) => AstProperty::Str(s.clone()),
        LiteralValue::Boolean(b) => AstProperty::Bool(*b),
        LiteralValue::NoneValue => AstProperty::NoneValue,
        LiteralValue::Symbol(s) => AstProperty::Str(s.clone()),
    };
    props.push((String::from_str("value"), v));
    proof {
        reveal_strlit("value");
        assert(props@.subrange(0, old(props)@.len() as int) =~= old(props)@);
    }
}

} // verus!
