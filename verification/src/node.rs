//! Node and edge kinds of the execution graph.

use vstd::prelude::*;
use crate::ast::{BinaryOp, UnaryOp};
use crate::error::SourcePosition;

verus! {

/// The type of an AST node in the execution graph: one variant per AST
/// construct (expressions, statements and auxiliary nodes).
#[derive(Debug, Clone, Copy, PartialEq, Eq, Structural)]
pub enum AstNodeType {
    // Literal expressions
    NumberLit,
    StringLit,
    BoolLit,
    NoneLit,
    SymbolLit,
    // Identifier
    Identifier,
    // Expressions
    BinaryExpr,
    UnaryExpr,
    CallExpr,
    MethodCallExpr,
    SuperMethodCallExpr,
    PropertyAccessExpr,
    IndexExpr,
    LambdaExpr,
    BlockExpr,
    ListExpr,
    MapExpr,
    GraphExpr,
    ConditionalExpr,
    RaiseExpr,
    MatchExpr,
    InstantiateExpr,
    // Statements
    VarDeclStmt,
    AssignStmt,
    FuncDeclStmt,
    IfStmt,
    WhileStmt,
    ForStmt,
    ReturnStmt,
    BreakStmt,
    ContinueStmt,
    ImportStmt,
    ModuleDeclStmt,
    LoadStmt,
    ConfigureStmt,
    PrecisionStmt,
    TryStmt,
    GraphDeclStmt,
    ExpressionStmt,
    // Structural
    Program,
    // Auxiliary nodes (children of compound constructs)
    MatchArmNode,
    MatchPatternNode,
    PatternClauseNode,
    CatchClauseNode,
    MapEntryNode,
    GraphPropertyNode,
    GraphMethodNode,
    GraphRuleNode,
}

/// Edge types connecting nodes in the execution graph; they carry the
/// structural relationships of the AST.
#[derive(Debug, Clone, PartialEq, Eq, Hash)]
pub enum ExecEdgeType {
    // Binary expression operands
    Left,
    Right,
    // Unary expression operand
    Operand,
    // Call expression
    Callee,
    Argument(u32),
    // Control flow
    Condition,
    ThenBranch,
    ElseBranch,
    // Function/loop body
    Body,
    // Assignment
    Target,
    ValueEdge,
    // Ordered children (blocks, lists, programs)
    Element(u32),
    // Method call / property access
    Object,
    // Function parameters
    Parameter(u32),
    // Try/catch
    CatchHandler(u32),
    FinallyBlock,
    // Inheritance
    Parent,
    // Match expression
    MatchValue,
    MatchArm(u32),
    ArmBody,
    ArmPattern,
    // For loop
    Iterable,
    // Graph declaration children
    Property(u32),
    Rule(u32),
    GraphMethod(u32),
    // Function guard
    Guard,
    // Instantiation overrides
    Override(u32),
    // Configure settings
    Setting(String),
    // Default value (for parameters, etc.)
    DefaultValue,
    // Pattern clause
    PatternClause(u32),
}

/// Every indexed edge kind (arguments, list elements, parameters, catch
/// handlers, match arms, graph properties, rules and methods, overrides and
/// pattern clauses) carries its number as its ordering key, under the
/// kind's own name, so that edges of one kind can be put back in order;
/// the other kinds, settings included, carry no key.
pub proof fn lemma_indexed_edge_kinds(i: u32, key: String)
    ensures
        ExecEdgeType::Argument(i).index_spec() == Some(i) && ExecEdgeType::Argument(i).prefix_spec() == "Argument"@,
        ExecEdgeType::Element(i).index_spec() == Some(i) && ExecEdgeType::Element(i).prefix_spec() == "Element"@,
        ExecEdgeType::Parameter(i).index_spec() == Some(i) && ExecEdgeType::Parameter(i).prefix_spec() == "Parameter"@,
        ExecEdgeType::CatchHandler(i).index_spec() == Some(i) && ExecEdgeType::CatchHandler(i).prefix_spec() == "CatchHandler"@,
        ExecEdgeType::MatchArm(i).index_spec() == Some(i) && ExecEdgeType::MatchArm(i).prefix_spec() == "MatchArm"@,
        ExecEdgeType::Property(i).index_spec() == Some(i) && ExecEdgeType::Property(i).prefix_spec() == "Property"@,
        ExecEdgeType::Rule(i).index_spec() == Some(i) && ExecEdgeType::Rule(i).prefix_spec() == "Rule"@,
        ExecEdgeType::GraphMethod(i).index_spec() == Some(i) && ExecEdgeType::GraphMethod(i).prefix_spec() == "GraphMethod"@,
        ExecEdgeType::Override(i).index_spec() == Some(i) && ExecEdgeType::Override(i).prefix_spec() == "Override"@,
        ExecEdgeType::PatternClause(i).index_spec() == Some(i) && ExecEdgeType::PatternClause(i).prefix_spec() == "PatternClause"@,
        ExecEdgeType::Left.index_spec() is None,
        ExecEdgeType::Right.index_spec() is None,
        ExecEdgeType::Operand.index_spec() is None,
        ExecEdgeType::Callee.index_spec() is None,
        ExecEdgeType::Condition.index_spec() is None,
        ExecEdgeType::ThenBranch.index_spec() is None,
        ExecEdgeType::ElseBranch.index_spec() is None,
        ExecEdgeType::Body.index_spec() is None,
        ExecEdgeType::Target.index_spec() is None,
        ExecEdgeType::ValueEdge.index_spec() is None,
        ExecEdgeType::Object.index_spec() is None,
        ExecEdgeType::FinallyBlock.index_spec() is None,
        ExecEdgeType::Parent.index_spec() is None,
        ExecEdgeType::MatchValue.index_spec() is None,
        ExecEdgeType::ArmBody.index_spec() is None,
        ExecEdgeType::ArmPattern.index_spec() is None,
        ExecEdgeType::Iterable.index_spec() is None,
        ExecEdgeType::Guard.index_spec() is None,
        ExecEdgeType::DefaultValue.index_spec() is None,
        ExecEdgeType::Setting(key).index_spec() is None,
{
}

impl ExecEdgeType {
    /// The ordering key of an indexed edge kind, `None` for the others.
    pub open spec fn index_spec(&self) -> Option<u32> {
        match self {
            ExecEdgeType::Argument(i) => Some(*i),
            ExecEdgeType::Element(i) => Some(*i),
            ExecEdgeType::Parameter(i) => Some(*i),
            ExecEdgeType::CatchHandler(i) => Some(*i),
            ExecEdgeType::MatchArm(i) => Some(*i),
            ExecEdgeType::Property(i) => Some(*i),
            ExecEdgeType::Rule(i) => Some(*i),
            ExecEdgeType::GraphMethod(i) => Some(*i),
            ExecEdgeType::Override(i) => Some(*i),
            ExecEdgeType::PatternClause(i) => Some(*i),
            _ => None,
        }
    }

    /// The group name of an edge kind (e.g. `"Argument"` for `Argument(0)`).
    pub open spec fn prefix_spec(&self) -> Seq<char> {
        match self {
            ExecEdgeType::Left => "Left"@,
            ExecEdgeType::Right => "Right"@,
            ExecEdgeType::Operand => "Operand"@,
            ExecEdgeType::Callee => "Callee"@,
            ExecEdgeType::Argument(_) => "Argument"@,
            ExecEdgeType::Condition => "Condition"@,
            ExecEdgeType::ThenBranch => "ThenBranch"@,
            ExecEdgeType::ElseBranch => "ElseBranch"@,
            ExecEdgeType::Body => "Body"@,
            ExecEdgeType::Target => "Target"@,
            ExecEdgeType::ValueEdge => "ValueEdge"@,
            ExecEdgeType::Element(_) => "Element"@,
            ExecEdgeType::Object => "Object"@,
            ExecEdgeType::Parameter(_) => "Parameter"@,
            ExecEdgeType::CatchHandler(_) => "CatchHandler"@,
            ExecEdgeType::FinallyBlock => "FinallyBlock"@,
            ExecEdgeType::Parent => "Parent"@,
            ExecEdgeType::MatchValue => "MatchValue"@,
            ExecEdgeType::MatchArm(_) => "MatchArm"@,
            ExecEdgeType::ArmBody => "ArmBody"@,
            ExecEdgeType::ArmPattern => "ArmPattern"@,
            ExecEdgeType::Iterable => "Iterable"@,
            ExecEdgeType::Property(_) => "Property"@,
            ExecEdgeType::Rule(_) => "Rule"@,
            ExecEdgeType::GraphMethod(_) => "GraphMethod"@,
            ExecEdgeType::Guard => "Guard"@,
            ExecEdgeType::Override(_) => "Override"@,
            ExecEdgeType::Setting(_) => "Setting"@,
            ExecEdgeType::DefaultValue => "DefaultValue"@,
            ExecEdgeType::PatternClause(_) => "PatternClause"@,
        }
    }

    /// A copy of this edge kind.
    pub fn duplicate(&self) -> (r: ExecEdgeType)
        ensures
            r == *self,
    {
        match self {
            ExecEdgeType::Argument(i) => ExecEdgeType::Argument(*i),
            ExecEdgeType::Element(i) => ExecEdgeType::Element(*i),
            ExecEdgeType::Parameter(i) => ExecEdgeType::Parameter(*i),
            ExecEdgeType::CatchHandler(i) => ExecEdgeType::CatchHandler(*i),
            ExecEdgeType::MatchArm(i) => ExecEdgeType::MatchArm(*i),
            ExecEdgeType::Property(i) => ExecEdgeType::Property(*i),
            ExecEdgeType::Rule(i) => ExecEdgeType::Rule(*i),
            ExecEdgeType::GraphMethod(i) => ExecEdgeType::GraphMethod(*i),
            ExecEdgeType::Override(i) => ExecEdgeType::Override(*i),
            ExecEdgeType::PatternClause(i) => ExecEdgeType::PatternClause(*i),
            ExecEdgeType::Left => ExecEdgeType::Left,
            ExecEdgeType::Right => ExecEdgeType::Right,
            ExecEdgeType::Operand => ExecEdgeType::Operand,
            ExecEdgeType::Callee => ExecEdgeType::Callee,
            ExecEdgeType::Condition => ExecEdgeType::Condition,
            ExecEdgeType::ThenBranch => ExecEdgeType::ThenBranch,
            ExecEdgeType::ElseBranch => ExecEdgeType::ElseBranch,
            ExecEdgeType::Body => ExecEdgeType::Body,
            ExecEdgeType::Target => ExecEdgeType::Target,
            ExecEdgeType::ValueEdge => ExecEdgeType::ValueEdge,
            ExecEdgeType::Object => ExecEdgeType::Object,
            ExecEdgeType::FinallyBlock => ExecEdgeType::FinallyBlock,
            ExecEdgeType::Parent => ExecEdgeType::Parent,
            ExecEdgeType::MatchValue => ExecEdgeType::MatchValue,
            ExecEdgeType::ArmBody => ExecEdgeType::ArmBody,
            ExecEdgeType::ArmPattern => ExecEdgeType::ArmPattern,
            ExecEdgeType::Iterable => ExecEdgeType::Iterable,
            ExecEdgeType::Guard => ExecEdgeType::Guard,
            ExecEdgeType::DefaultValue => ExecEdgeType::DefaultValue,
            ExecEdgeType::Setting(k) => ExecEdgeType::Setting(k.clone()),
        }
    }

    /// Returns the ordering key for indexed edge types (Argument, Element,
    /// etc.), `None` for non-indexed types.
    pub fn index(&self) -> (r: Option<u32>)
        ensures
            r == self.index_spec(),
    {
        match self {
            ExecEdgeType::Argument(i) => Some(*i),
            ExecEdgeType::Element(i) => Some(*i),
            ExecEdgeType::Parameter(i) => Some(*i),
            ExecEdgeType::CatchHandler(i) => Some(*i),
            ExecEdgeType::MatchArm(i) => Some(*i),
            ExecEdgeType::Property(i) => Some(*i),
            ExecEdgeType::Rule(i) => Some(*i),
            ExecEdgeType::GraphMethod(i) => Some(*i),
            ExecEdgeType::Override(i) => Some(*i),
            ExecEdgeType::PatternClause(i) => Some(*i),
            _ => None,
        }
    }

    /// Returns the prefix name for grouping (e.g. "Argument" for Argument(0)).
    pub fn prefix(&self) -> (r: &str)
        ensures
            r@ == self.prefix_spec(),
    {
        match self {
            ExecEdgeType::Left => "Left",
            ExecEdgeType::Right => "Right",
            ExecEdgeType::Operand => "Operand",
            ExecEdgeType::Callee => "Callee",
            ExecEdgeType::Argument(_) => "Argument",
            ExecEdgeType::Condition => "Condition",
            ExecEdgeType::ThenBranch => "ThenBranch",
            ExecEdgeType::ElseBranch => "ElseBranch",
            ExecEdgeType::Body => "Body",
            ExecEdgeType::Target => "Target",
            ExecEdgeType::ValueEdge => "ValueEdge",
            ExecEdgeType::Element(_) => "Element",
            ExecEdgeType::Object => "Object",
            ExecEdgeType::Parameter(_) => "Parameter",
            ExecEdgeType::CatchHandler(_) => "CatchHandler",
            ExecEdgeType::FinallyBlock => "FinallyBlock",
            ExecEdgeType::Parent => "Parent",
            ExecEdgeType::MatchValue => "MatchValue",
            ExecEdgeType::MatchArm(_) => "MatchArm",
            ExecEdgeType::ArmBody => "ArmBody",
            ExecEdgeType::ArmPattern => "ArmPattern",
            ExecEdgeType::Iterable => "Iterable",
            ExecEdgeType::Property(_) => "Property",
            ExecEdgeType::Rule(_) => "Rule",
            ExecEdgeType::GraphMethod(_) => "GraphMethod",
            ExecEdgeType::Guard => "Guard",
            ExecEdgeType::Override(_) => "Override",
            ExecEdgeType::Setting(_) => "Setting",
            ExecEdgeType::DefaultValue => "DefaultValue",
            ExecEdgeType::PatternClause(_) => "PatternClause",
        }
    }
}

/// Property values stored on execution-graph nodes: small AST-level
/// metadata.  A number is held as the IEEE-754 bit pattern of its `f64`.
#[derive(Debug)]
pub enum AstProperty {
    Str(String),
    Num(u64),
    Bool(bool),
    Int(i64),
    BinaryOp(BinaryOp),
    UnaryOp(UnaryOp),
    NoneValue,
}

/// A node of the execution graph: the construct it stands for, its
/// properties (each key once, in the order they were set) and where it
/// starts in the source.
#[derive(Debug)]
pub struct AstGraphNode {
    pub node_type: AstNodeType,
    pub properties: Vec<(String, AstProperty)>,
    pub position: SourcePosition,
}

} // verus!
