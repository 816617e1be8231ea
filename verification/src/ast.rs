//! The abstract syntax tree built by the parser.

use vstd::prelude::*;
use crate::error::SourcePosition;

verus! {

/// Binary operators (`.op` forms are element-wise).
#[derive(Debug, Clone, Copy, PartialEq, Eq, Structural)]
pub enum BinaryOp {
    Add,
    Subtract,
    Multiply,
    Divide,
    IntDiv,
    Modulo,
    Power,
    Equal,
    NotEqual,
    Less,
    LessEqual,
    Greater,
    GreaterEqual,
    And,
    Or,
    RegexMatch,
    RegexNoMatch,
    BitwiseAnd,
    BitwiseOr,
    BitwiseXor,
    LeftShift,
    RightShift,
    DotAdd,
    DotSubtract,
    DotMultiply,
    DotDivide,
    DotIntDiv,
    DotModulo,
    DotPower,
    DotEqual,
    DotNotEqual,
    DotLess,
    DotLessEqual,
    DotGreater,
    DotGreaterEqual,
    DotXor,
}

/// Unary operators.
#[derive(Debug, Clone, Copy, PartialEq, Eq, Structural)]
pub enum UnaryOp {
    Negate,
    Not,
    BitwiseNot,
}

/// Literal values; a number carries the IEEE-754 bit pattern of its `f64`.
#[derive(Debug)]
pub enum LiteralValue {
    Number(u64),
    String(String),
    Boolean(bool),
    NoneValue,
    Symbol(String),
}

/// A call argument.
#[derive(Debug)]
pub enum Argument {
    Positional { expr: Expr, mutable: bool },
    Named { name: String, value: Expr, mutable: bool },
}

/// A pattern of a pattern-matching function clause.
#[derive(Debug)]
pub enum Pattern {
    Literal { value: LiteralValue, position: SourcePosition },
    Variable { name: String, position: SourcePosition },
    Wildcard { position: SourcePosition },
}

/// `|pattern| if guard => body`.
#[derive(Debug)]
pub struct PatternClause {
    pub pattern: Pattern,
    pub guard: Option<Expr>,
    pub body: Expr,
    pub position: SourcePosition,
}

/// A pattern of a `match` arm.
#[derive(Debug)]
pub enum MatchPattern {
    Wildcard,
    Literal(LiteralValue),
    Variable(String),
    List { elements: Vec<MatchPattern>, rest_name: Option<String> },
}

/// One arm of a `match` expression.
#[derive(Debug)]
pub struct MatchArm {
    pub pattern: MatchPattern,
    pub body: Expr,
    pub position: SourcePosition,
}

/// Expressions.
#[derive(Debug)]
pub enum Expr {
    Literal { value: LiteralValue, position: SourcePosition },
    Variable { name: String, position: SourcePosition },
    Binary { left: Box<Expr>, op: BinaryOp, right: Box<Expr>, position: SourcePosition },
    Unary { op: UnaryOp, operand: Box<Expr>, position: SourcePosition },
    Call { callee: Box<Expr>, args: Vec<Argument>, position: SourcePosition },
    MethodCall { object: Box<Expr>, method: String, args: Vec<Argument>, position: SourcePosition },
    SuperMethodCall { method: String, args: Vec<Argument>, position: SourcePosition },
    PropertyAccess { object: Box<Expr>, property: String, position: SourcePosition },
    Index { object: Box<Expr>, index: Box<Expr>, position: SourcePosition },
    Lambda { params: Vec<String>, body: Box<Expr>, position: SourcePosition },
    Block { statements: Vec<Stmt>, position: SourcePosition },
    List { elements: Vec<Expr>, position: SourcePosition },
    MapLit { entries: Vec<(String, Expr)>, position: SourcePosition },
    Graph { config: Vec<(String, Expr)>, parent: Option<Box<Expr>>, position: SourcePosition },
    Conditional {
        condition: Box<Expr>,
        then_expr: Box<Expr>,
        else_expr: Option<Box<Expr>>,
        is_unless: bool,
        position: SourcePosition,
    },
    Raise { error: Box<Expr>, position: SourcePosition },
    Match { value: Box<Expr>, arms: Vec<MatchArm>, position: SourcePosition },
    Instantiate { class_name: Box<Expr>, overrides: Vec<(String, Expr)>, position: SourcePosition },
}

impl Expr {
    /// Where the expression starts.
    pub open spec fn position_spec(&self) -> SourcePosition {
        match self {
            Expr::Literal { position, .. } => *position,
            Expr::Variable { position, .. } => *position,
            Expr::Binary { position, .. } => *position,
            Expr::Unary { position, .. } => *position,
            Expr::Call { position, .. } => *position,
            Expr::MethodCall { position, .. } => *position,
            Expr::SuperMethodCall { position, .. } => *position,
            Expr::PropertyAccess { position, .. } => *position,
            Expr::Index { position, .. } => *position,
            Expr::Lambda { position, .. } => *position,
            Expr::Block { position, .. } => *position,
            Expr::List { position, .. } => *position,
            Expr::MapLit { position, .. } => *position,
            Expr::Graph { position, .. } => *position,
            Expr::Conditional { position, .. } => *position,
            Expr::Raise { position, .. } => *position,
            Expr::Match { position, .. } => *position,
            Expr::Instantiate { position, .. } => *position,
        }
    }

    /// Where the expression starts.
    pub fn position(&self) -> (p: SourcePosition)
        ensures
            p == self.position_spec(),
    {
        match self {
            Expr::Literal { position, .. } => *position,
            Expr::Variable { position, .. } => *position,
            Expr::Binary { position, .. } => *position,
            Expr::Unary { position, .. } => *position,
            Expr::Call { position, .. } => *position,
            Expr::MethodCall { position, .. } => *position,
            Expr::SuperMethodCall { position, .. } => *position,
            Expr::PropertyAccess { position, .. } => *position,
            Expr::Index { position, .. } => *position,
            Expr::Lambda { position, .. } => *position,
            Expr::Block { position, .. } => *position,
            Expr::List { position, .. } => *position,
            Expr::MapLit { position, .. } => *position,
            Expr::Graph { position, .. } => *position,
            Expr::Conditional { position, .. } => *position,
            Expr::Raise { position, .. } => *position,
            Expr::Match { position, .. } => *position,
            Expr::Instantiate { position, .. } => *position,
        }
    }
}

/// A type annotation such as `num` or `list<num>`.
#[derive(Debug)]
pub struct TypeAnnotation {
    pub base_type: String,
    pub constraint: Option<String>,
}

/// A function parameter.
#[derive(Debug)]
pub struct Parameter {
    pub name: String,
    pub default_value: Option<Expr>,
    pub is_variadic: bool,
}

/// The target of an assignment.
#[derive(Debug)]
pub enum AssignmentTarget {
    Variable(String),
    Index { object: Box<Expr>, index: Box<Expr> },
    Property { object: Box<Expr>, property: String },
}

/// A property of a graph declaration: `name: value`.
#[derive(Debug)]
pub struct GraphProperty {
    pub name: String,
    pub value: Expr,
    pub position: SourcePosition,
}

/// A method of a graph declaration.
#[derive(Debug)]
pub struct GraphMethod {
    pub name: String,
    pub params: Vec<Parameter>,
    pub body: Vec<Stmt>,
    pub is_static: bool,
    pub is_setter: bool,
    pub is_private: bool,
    pub guard: Option<Box<Expr>>,
    pub position: SourcePosition,
}

/// A rule of a graph declaration: `rule :name` or `rule :name, param`.
#[derive(Debug)]
pub struct GraphRule {
    pub name: String,
    pub param: Option<Expr>,
    pub position: SourcePosition,
}

/// A `catch` clause.
#[derive(Debug)]
pub struct CatchClause {
    pub error_type: Option<String>,
    pub variable: Option<String>,
    pub body: Vec<Stmt>,
    pub position: SourcePosition,
}

/// Statements.
#[derive(Debug)]
pub enum Stmt {
    VariableDecl {
        name: String,
        type_annotation: Option<TypeAnnotation>,
        value: Expr,
        is_private: bool,
        position: SourcePosition,
    },
    Assignment { target: AssignmentTarget, value: Expr, position: SourcePosition },
    FunctionDecl {
        name: String,
        receiver: Option<String>,
        params: Vec<Parameter>,
        body: Vec<Stmt>,
        pattern_clauses: Option<Vec<PatternClause>>,
        is_private: bool,
        is_setter: bool,
        is_static: bool,
        guard: Option<Box<Expr>>,
        position: SourcePosition,
    },
    If { condition: Expr, then_branch: Vec<Stmt>, else_branch: Option<Vec<Stmt>>, position: SourcePosition },
    While { condition: Expr, body: Vec<Stmt>, position: SourcePosition },
    For { variable: String, iterable: Expr, body: Vec<Stmt>, position: SourcePosition },
    Return { value: Option<Expr>, position: SourcePosition },
    Break { position: SourcePosition },
    Continue { position: SourcePosition },
    Import { module: String, alias: Option<String>, position: SourcePosition },
    Load { path: String, position: SourcePosition },
    ModuleDecl { name: String, alias: Option<String>, position: SourcePosition },
    /// Settings in source order; a repeated key keeps the place of its first
    /// occurrence and the value of its last.
    Configure { settings: Vec<(String, Expr)>, body: Option<Vec<Stmt>>, position: SourcePosition },
    Precision { places: Option<usize>, body: Vec<Stmt>, position: SourcePosition },
    Try {
        body: Vec<Stmt>,
        catch_clauses: Vec<CatchClause>,
        finally_block: Option<Vec<Stmt>>,
        position: SourcePosition,
    },
    /// `config` maps each access key to its symbols, keys in order of first
    /// appearance.
    GraphDecl {
        name: String,
        graph_type: Option<String>,
        parent: Option<Box<Expr>>,
        properties: Vec<GraphProperty>,
        methods: Vec<GraphMethod>,
        rules: Vec<GraphRule>,
        config: Vec<(String, Vec<String>)>,
        position: SourcePosition,
    },
    Expression { expr: Expr, position: SourcePosition },
}

/// A whole program.
#[derive(Debug)]
pub struct Program {
    pub statements: Vec<Stmt>,
}

} // verus!
