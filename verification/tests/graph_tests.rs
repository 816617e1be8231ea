use graphoid::arena::{ArenaId, NodeIndex, NodeRef};
use graphoid::ast::{
    AssignmentTarget, BinaryOp, Expr, LiteralValue, MatchArm, MatchPattern, Parameter, Pattern, PatternClause, Program, Stmt,
};
use graphoid::converter::AstToGraphConverter;
use graphoid::error::SourcePosition;
use graphoid::execution_graph::ExecutionGraph;
use graphoid::node::{AstGraphNode, AstNodeType, AstProperty, ExecEdgeType};

fn node(t: AstNodeType) -> AstGraphNode {
    AstGraphNode { node_type: t, properties: Vec::new(), position: SourcePosition::new(1, 1) }
}

fn pos() -> SourcePosition {
    SourcePosition::new(1, 1)
}

fn number(v: f64) -> Expr {
    Expr::Literal { value: LiteralValue::Number(v.to_bits()), position: pos() }
}

#[test]
fn nodes_and_edges() {
    let mut g = ExecutionGraph::new();
    let a = g.new_arena();
    let root = g.add_node(a, node(AstNodeType::CallExpr));
    let callee = g.add_node(a, node(AstNodeType::Identifier));
    let arg = g.add_node(a, node(AstNodeType::NumberLit));
    assert_eq!(root, NodeRef::new(a, NodeIndex(0)));
    g.add_edge(root, ExecEdgeType::Callee, callee);
    g.add_edge(root, ExecEdgeType::Argument(0), arg);
    assert_eq!(g.get_edge_target(root, &ExecEdgeType::Callee), Some(callee));
    assert_eq!(g.get_edge_target(root, &ExecEdgeType::Body), None);
    assert_eq!(g.get_edges(root).len(), 2);
    assert_eq!(g.get_edges(arg).len(), 0);
    assert_eq!(g.node_count(), 3);
    assert_eq!(g.get_node(callee).map(|n| n.node_type), Some(AstNodeType::Identifier));
    assert!(g.get_node(NodeRef::new(a, NodeIndex(9))).is_none());
}

#[test]
fn ordered_edges_sort_by_index() {
    let mut g = ExecutionGraph::new();
    let a = g.new_arena();
    let list = g.add_node(a, node(AstNodeType::ListExpr));
    let x = g.add_node(a, node(AstNodeType::NumberLit));
    let y = g.add_node(a, node(AstNodeType::NumberLit));
    let z = g.add_node(a, node(AstNodeType::NumberLit));
    g.add_edge(list, ExecEdgeType::Element(2), z);
    g.add_edge(list, ExecEdgeType::Argument(0), y);
    g.add_edge(list, ExecEdgeType::Element(0), x);
    g.add_edge(list, ExecEdgeType::Element(1), y);
    assert_eq!(g.get_ordered_edges(list, "Element"), vec![x, y, z]);
    assert_eq!(g.get_ordered_edges(list, "Argument"), vec![y]);
    assert!(g.get_ordered_edges(list, "Parameter").is_empty());
}

#[test]
fn setting_edges_compare_by_key() {
    let mut g = ExecutionGraph::new();
    let a = g.new_arena();
    let n = g.add_node(a, node(AstNodeType::ConfigureStmt));
    let v1 = g.add_node(a, node(AstNodeType::NumberLit));
    let v2 = g.add_node(a, node(AstNodeType::NumberLit));
    g.add_edge(n, ExecEdgeType::Setting("a".to_string()), v1);
    g.add_edge(n, ExecEdgeType::Setting("b".to_string()), v2);
    assert_eq!(g.get_edge_target(n, &ExecEdgeType::Setting("b".to_string())), Some(v2));
    assert_eq!(g.get_edge_target(n, &ExecEdgeType::Setting("c".to_string())), None);
}

#[test]
fn dropping_an_arena_removes_its_nodes_and_edges() {
    let mut g = ExecutionGraph::new();
    let a = g.new_arena();
    let b = g.new_arena();
    let lambda = g.add_node(a, node(AstNodeType::LambdaExpr));
    let other = g.add_node(a, node(AstNodeType::NumberLit));
    let body = g.add_node(b, node(AstNodeType::BlockExpr));
    let inner = g.add_node(b, node(AstNodeType::ReturnStmt));
    g.add_edge(lambda, ExecEdgeType::Body, body);
    g.add_edge(lambda, ExecEdgeType::ValueEdge, other);
    g.add_edge(body, ExecEdgeType::Element(0), inner);
    g.drop_arena(b);
    assert!(g.get_node(body).is_none());
    assert!(g.get_node(lambda).is_some());
    assert_eq!(g.get_edges(body).len(), 0);
    assert_eq!(g.get_edge_target(lambda, &ExecEdgeType::Body), None);
    assert_eq!(g.get_edge_target(lambda, &ExecEdgeType::ValueEdge), Some(other));
    assert_eq!(g.node_count(), 2);
}

#[test]
fn root_is_kept() {
    let mut g = ExecutionGraph::new();
    assert_eq!(g.root(), None);
    let a = g.new_arena();
    let r = g.add_node(a, node(AstNodeType::Program));
    g.set_root(r);
    assert_eq!(g.root(), Some(r));
}

#[test]
fn convert_binary_expression() {
    let mut c = AstToGraphConverter::new();
    let expr = Expr::Binary { left: Box::new(number(1.0)), op: BinaryOp::Add, right: Box::new(number(2.0)), position: pos() };
    let r = c.convert_expr(&expr);
    let g = c.into_graph();
    assert_eq!(g.node_count(), 3);
    let n = g.get_node(r).expect("node");
    assert_eq!(n.node_type, AstNodeType::BinaryExpr);
    assert!(matches!(n.properties[0], (ref k, AstProperty::BinaryOp(BinaryOp::Add)) if k == "operator"));
    let left = g.get_edge_target(r, &ExecEdgeType::Left).expect("left");
    let right = g.get_edge_target(r, &ExecEdgeType::Right).expect("right");
    assert_eq!(g.get_node(left).map(|n| n.node_type), Some(AstNodeType::NumberLit));
    assert!(matches!(g.get_node(right).unwrap().properties[0].1, AstProperty::Num(bits) if bits == 2.0f64.to_bits()));
}

#[test]
fn convert_program_counts_nodes_and_sets_root() {
    let mut c = AstToGraphConverter::new();
    let program = Program {
        statements: vec![
            Stmt::Expression { expr: number(1.0), position: pos() },
            Stmt::Break { position: pos() },
            Stmt::While {
                condition: Expr::Variable { name: "x".to_string(), position: pos() },
                body: vec![Stmt::Continue { position: pos() }],
                position: pos(),
            },
        ],
    };
    let root = c.convert_program(&program);
    let g = c.into_graph();
    // program + (stmt + literal) + break + (while + condition + block + continue)
    assert_eq!(g.node_count(), 1 + 2 + 1 + 4);
    assert_eq!(g.root(), Some(root));
    assert_eq!(root, NodeRef::new(ArenaId(0), NodeIndex(0)));
    let elems = g.get_ordered_edges(root, "Element");
    assert_eq!(elems.len(), 3);
    assert_eq!(g.get_node(elems[2]).map(|n| n.node_type), Some(AstNodeType::WhileStmt));
}

#[test]
fn lambda_body_gets_own_arena() {
    let mut c = AstToGraphConverter::new();
    let lambda = Expr::Lambda { params: vec!["a".to_string(), "b".to_string()], body: Box::new(number(0.0)), position: pos() };
    let r = c.convert_expr(&lambda);
    let g = c.into_graph();
    let n = g.get_node(r).unwrap();
    let keys: Vec<&str> = n.properties.iter().map(|(k, _)| k.as_str()).collect();
    assert_eq!(keys, vec!["param_count", "param_0", "param_1"]);
    let body = g.get_edge_target(r, &ExecEdgeType::Body).unwrap();
    assert_eq!(body.arena_id, ArenaId(1));
    assert_eq!(r.arena_id, ArenaId(0));
}

#[test]
fn mutable_argument_is_wrapped() {
    let mut c = AstToGraphConverter::new();
    let call = Expr::Call {
        callee: Box::new(Expr::Variable { name: "f".to_string(), position: pos() }),
        args: vec![
            graphoid::ast::Argument::Positional { expr: number(1.0), mutable: true },
            graphoid::ast::Argument::Positional { expr: number(2.0), mutable: false },
        ],
        position: pos(),
    };
    let r = c.convert_expr(&call);
    let g = c.into_graph();
    assert_eq!(g.node_count(), 5);
    let args = g.get_ordered_edges(r, "Argument");
    assert_eq!(g.get_node(args[0]).map(|n| n.node_type), Some(AstNodeType::ExpressionStmt));
    assert_eq!(g.get_node(args[1]).map(|n| n.node_type), Some(AstNodeType::NumberLit));
}

#[test]
fn statements_get_their_edges_in_order() {
    let mut c = AstToGraphConverter::new();
    let program = Program {
        statements: vec![
            Stmt::Assignment {
                target: AssignmentTarget::Index {
                    object: Box::new(Expr::Variable { name: "xs".to_string(), position: pos() }),
                    index: Box::new(number(0.0)),
                },
                value: number(7.0),
                position: pos(),
            },
            Stmt::If {
                condition: Expr::Variable { name: "ok".to_string(), position: pos() },
                then_branch: vec![Stmt::Break { position: pos() }],
                else_branch: Some(vec![]),
                position: pos(),
            },
        ],
    };
    let root = c.convert_program(&program);
    let g = c.into_graph();
    let stmts = g.get_ordered_edges(root, "Element");
    let assign_kinds: Vec<ExecEdgeType> = g.get_edges(stmts[0]).iter().map(|(k, _)| k.clone()).collect();
    assert_eq!(assign_kinds, vec![ExecEdgeType::ValueEdge, ExecEdgeType::Object, ExecEdgeType::Target]);
    let n = g.get_node(stmts[0]).unwrap();
    assert!(matches!(&n.properties[0], (k, AstProperty::Str(v)) if k == "target_type" && v == "index"));
    let if_kinds: Vec<ExecEdgeType> = g.get_edges(stmts[1]).iter().map(|(k, _)| k.clone()).collect();
    assert_eq!(if_kinds, vec![ExecEdgeType::Condition, ExecEdgeType::ThenBranch, ExecEdgeType::ElseBranch]);
    let then_block = g.get_edge_target(stmts[1], &ExecEdgeType::ThenBranch).unwrap();
    assert_eq!(g.get_node(then_block).map(|n| n.node_type), Some(AstNodeType::BlockExpr));
    assert_eq!(g.get_ordered_edges(then_block, "Element").len(), 1);
}

#[test]
fn function_parameters_and_clauses_are_described() {
    let mut c = AstToGraphConverter::new();
    let decl = Stmt::FunctionDecl {
        name: "f".to_string(),
        receiver: None,
        params: vec![
            Parameter { name: "a".to_string(), default_value: None, is_variadic: false },
            Parameter { name: "rest".to_string(), default_value: Some(number(3.0)), is_variadic: true },
        ],
        body: vec![],
        pattern_clauses: Some(vec![PatternClause {
            pattern: Pattern::Variable { name: "n".to_string(), position: pos() },
            guard: None,
            body: number(1.0),
            position: pos(),
        }]),
        is_private: false,
        is_setter: false,
        is_static: false,
        guard: None,
        position: pos(),
    };
    let program = Program { statements: vec![decl] };
    let root = c.convert_program(&program);
    let g = c.into_graph();
    let f = g.get_ordered_edges(root, "Element")[0];
    let params = g.get_ordered_edges(f, "Parameter");
    assert_eq!(params.len(), 2);
    let second = g.get_node(params[1]).unwrap();
    assert!(matches!(&second.properties[0], (k, AstProperty::Str(v)) if k == "name" && v == "rest"));
    assert!(matches!(&second.properties[1], (k, AstProperty::Bool(true)) if k == "is_variadic"));
    let default = g.get_edge_target(params[1], &ExecEdgeType::DefaultValue).unwrap();
    assert_eq!(g.get_node(default).map(|n| n.node_type), Some(AstNodeType::NumberLit));
    assert_eq!(g.get_edges(params[0]).len(), 0);
    let body = g.get_edge_target(f, &ExecEdgeType::Body).unwrap();
    assert_ne!(body.arena_id, f.arena_id);
    let clauses = g.get_ordered_edges(f, "PatternClause");
    assert_eq!(clauses.len(), 1);
    let pattern = g.get_edge_target(clauses[0], &ExecEdgeType::ArmPattern).unwrap();
    let p = g.get_node(pattern).unwrap();
    assert!(matches!(&p.properties[0], (k, AstProperty::Str(v)) if k == "pattern_type" && v == "variable"));
    assert!(matches!(&p.properties[1], (k, AstProperty::Str(v)) if k == "name" && v == "n"));
}

#[test]
fn list_match_patterns_nest() {
    let mut c = AstToGraphConverter::new();
    let m = Expr::Match {
        value: Box::new(Expr::Variable { name: "xs".to_string(), position: pos() }),
        arms: vec![MatchArm {
            pattern: MatchPattern::List {
                elements: vec![MatchPattern::Literal(LiteralValue::Number(1.0f64.to_bits())), MatchPattern::Wildcard],
                rest_name: Some("tail".to_string()),
            },
            body: number(0.0),
            position: pos(),
        }],
        position: pos(),
    };
    let r = c.convert_expr(&m);
    let g = c.into_graph();
    let arm = g.get_ordered_edges(r, "MatchArm")[0];
    let pattern = g.get_edge_target(arm, &ExecEdgeType::ArmPattern).unwrap();
    let p = g.get_node(pattern).unwrap();
    let keys: Vec<&str> = p.properties.iter().map(|(k, _)| k.as_str()).collect();
    assert_eq!(keys, vec!["pattern_type", "element_count", "rest_name"]);
    assert!(matches!(p.properties[1].1, AstProperty::Int(2)));
    let elems = g.get_ordered_edges(pattern, "Element");
    assert_eq!(elems.len(), 2);
    let first = g.get_node(elems[0]).unwrap();
    assert!(matches!(&first.properties[1], (k, AstProperty::Num(bits)) if k == "value" && *bits == 1.0f64.to_bits()));
    let second = g.get_node(elems[1]).unwrap();
    assert!(matches!(&second.properties[0].1, AstProperty::Str(v) if v == "wildcard"));
}

#[test]
fn operator_node_comes_before_its_operands() {
    let mut c = AstToGraphConverter::new();
    let expr = Expr::Binary { left: Box::new(number(1.0)), op: BinaryOp::Add, right: Box::new(number(2.0)), position: pos() };
    let r = c.convert_expr(&expr);
    let g = c.into_graph();
    assert_eq!(r, NodeRef::new(ArenaId(0), NodeIndex(0)));
    assert_eq!(g.get_edge_target(r, &ExecEdgeType::Left), Some(NodeRef::new(ArenaId(0), NodeIndex(1))));
    assert_eq!(g.get_edge_target(r, &ExecEdgeType::Right), Some(NodeRef::new(ArenaId(0), NodeIndex(2))));
}

#[test]
fn nodes_can_be_changed_in_place() {
    let mut g = ExecutionGraph::new();
    let a = g.new_arena();
    let n = g.add_node(a, node(AstNodeType::NumberLit));
    if let Some(x) = g.get_node_mut(n) {
        x.node_type = AstNodeType::StringLit;
    }
    assert_eq!(g.get_node(n).map(|n| n.node_type), Some(AstNodeType::StringLit));
    assert!(g.get_node_mut(NodeRef::new(a, NodeIndex(5))).is_none());
}
