//! Recursive descent parser with precedence climbing for expressions.
//!
//! Every parsing method reads from the current position, never moves
//! backwards past the position it started at, keeps the token stream
//! unchanged, and (for the productions that always read something) moves
//! forward when it succeeds.  Together with the ordering of the methods this
//! shows that parsing terminates on every token stream.

use vstd::prelude::*;
use crate::ast::{
    Argument, AssignmentTarget, BinaryOp, CatchClause, Expr, GraphMethod, GraphProperty, GraphRule,
    LiteralValue, MatchArm, MatchPattern, Parameter, Pattern, PatternClause, Program, Stmt,
    TypeAnnotation, UnaryOp,
};
use crate::error::{GraphoidError, SourcePosition};
use crate::node::AstNodeType;
use crate::text::{push_char, str_eq};
use crate::token::{kind, Token, TokenType};

mod declarations;
mod expressions;
pub mod numbers;
mod statements;

verus! {

/// The recursive descent parser.
pub struct Parser {
    tokens: Vec<Token>,
    current: usize,
    /// When true, `Name { }` after an expression is not read as an
    /// instantiation (used for a graph's parent expression, whose `{ }` is
    /// the graph body).
    disable_brace_instantiation: bool,
}

/// A token stream the parser accepts: it holds an `Eof` (the parser never
/// reads past the first one).
pub open spec fn well_terminated(tokens: Seq<Token>) -> bool {
    eof_from(tokens, 0)
}

/// Some token at index `i` or later is `Eof`.
pub open spec fn eof_from(tokens: Seq<Token>, i: int) -> bool {
    exists|e: int| i <= e < tokens.len() && #[trigger] tokens[e].token_type is Eof
}

/// `b` is `a` after reading zero or more tokens.
pub open spec fn advanced(a: Parser, b: Parser) -> bool {
    &&& b.wf()
    &&& b.tokens() == a.tokens()
    &&& a.position() <= b.position()
}

/// `b` is `a` after reading at least one token.
pub open spec fn progressed(a: Parser, b: Parser) -> bool {
    advanced(a, b) && a.position() < b.position()
}

/// A parsing step that may read nothing: it reads forward, and every error
/// it reports is a syntax error.
pub open spec fn scanned<T>(a: Parser, b: Parser, r: Result<T, GraphoidError>) -> bool {
    &&& advanced(a, b)
    &&& (r matches Err(e) ==> e is SyntaxError)
}

/// A parsing step that reads at least one token whenever it succeeds.
pub open spec fn parsed<T>(a: Parser, b: Parser, r: Result<T, GraphoidError>) -> bool {
    &&& scanned(a, b, r)
    &&& (r is Ok ==> progressed(a, b))
}

/// The literal value that a token stands for, if it is a literal: a
/// number, a string, a symbol, `true`, `false` or `none`.
pub open spec fn token_literal(t: TokenType) -> Option<LiteralValue> {
    match t {
        TokenType::Number(n) => Some(LiteralValue::Number(n)),
        TokenType::String(s) => Some(LiteralValue::String(s)),
        TokenType::Symbol(s) => Some(LiteralValue::Symbol(s)),
        TokenType::True => Some(LiteralValue::Boolean(true)),
        TokenType::False => Some(LiteralValue::Boolean(false)),
        TokenType::NoneKw => Some(LiteralValue::NoneValue),
        _ => None,
    }
}

/// The kind of statement that a leading keyword introduces: `if`, `while`,
/// `for`, `return`, `break`, `continue`, `import`, `load`, `module`,
/// `configure`, `precision`, `try`, `fn` and `set` (a setter function).
pub open spec fn keyword_statement(t: TokenType) -> Option<AstNodeType> {
    match t {
        TokenType::If => Some(AstNodeType::IfStmt),
        TokenType::While => Some(AstNodeType::WhileStmt),
        TokenType::For => Some(AstNodeType::ForStmt),
        TokenType::Return => Some(AstNodeType::ReturnStmt),
        TokenType::Break => Some(AstNodeType::BreakStmt),
        TokenType::Continue => Some(AstNodeType::ContinueStmt),
        TokenType::Import => Some(AstNodeType::ImportStmt),
        TokenType::Load => Some(AstNodeType::LoadStmt),
        TokenType::Module => Some(AstNodeType::ModuleDeclStmt),
        TokenType::Configure => Some(AstNodeType::ConfigureStmt),
        TokenType::Precision => Some(AstNodeType::PrecisionStmt),
        TokenType::Try => Some(AstNodeType::TryStmt),
        TokenType::Func => Some(AstNodeType::FuncDeclStmt),
        TokenType::SetKw => Some(AstNodeType::FuncDeclStmt),
        _ => None,
    }
}

/// The kind of a statement, named by the node type it is converted to.
pub open spec fn statement_kind(s: Stmt) -> AstNodeType {
    match s {
        Stmt::Expression { .. } => AstNodeType::ExpressionStmt,
        Stmt::VariableDecl { .. } => AstNodeType::VarDeclStmt,
        Stmt::Assignment { .. } => AstNodeType::AssignStmt,
        Stmt::FunctionDecl { .. } => AstNodeType::FuncDeclStmt,
        Stmt::If { .. } => AstNodeType::IfStmt,
        Stmt::While { .. } => AstNodeType::WhileStmt,
        Stmt::For { .. } => AstNodeType::ForStmt,
        Stmt::Return { .. } => AstNodeType::ReturnStmt,
        Stmt::Break { .. } => AstNodeType::BreakStmt,
        Stmt::Continue { .. } => AstNodeType::ContinueStmt,
        Stmt::Import { .. } => AstNodeType::ImportStmt,
        Stmt::Load { .. } => AstNodeType::LoadStmt,
        Stmt::ModuleDecl { .. } => AstNodeType::ModuleDeclStmt,
        Stmt::Configure { .. } => AstNodeType::ConfigureStmt,
        Stmt::Precision { .. } => AstNodeType::PrecisionStmt,
        Stmt::Try { .. } => AstNodeType::TryStmt,
        Stmt::GraphDecl { .. } => AstNodeType::GraphDeclStmt,
    }
}

/// The token can start a command-style argument: a literal or a block.
pub open spec fn starts_command_arg(t: TokenType) -> bool {
    t is String || t is Number || t is True || t is False || t is NoneKw || t is Symbol || t is LeftBrace
}

/// The token ends an expression: `Eof`, a closing bracket, brace or
/// parenthesis, or a comma.
pub open spec fn ends_expression(t: TokenType) -> bool {
    t is Eof || t is RightParen || t is RightBracket || t is RightBrace || t is Comma
}

/// The next token is a literal or a name and the one after it ends an
/// expression.
pub open spec fn lone_operand(p: Parser) -> bool {
    &&& (token_literal(p.next_token().token_type) is Some || p.next_token().token_type is Identifier)
    &&& p.position() + 1 < p.tokens().len()
    &&& ends_expression(p.tokens()[p.position() + 1int].token_type)
}

/// The expression that a literal or name token stands for.
pub open spec fn operand_expr(t: Token) -> Expr {
    match token_literal(t.token_type) {
        Some(v) => Expr::Literal { value: v, position: token_position(t) },
        None => match t.token_type {
            TokenType::Identifier(name) => Expr::Variable { name, position: token_position(t) },
            _ => Expr::Literal { value: LiteralValue::NoneValue, position: token_position(t) },
        },
    }
}

/// The token is a literal or a name.
pub open spec fn is_operand(t: TokenType) -> bool {
    token_literal(t) is Some || t is Identifier
}

/// The token can continue the expression before it as a suffix: a line
/// break (after which a suffix may follow), `(`, `[`, `.` or `{`.
pub open spec fn continues_operand(t: TokenType) -> bool {
    t is Newline || t is LeftParen || t is LeftBracket || t is Dot || t is LeftBrace
}

/// How tightly an infix token binds: 1 for the suffix `if` and `unless`,
/// then `or` (2), `and` (3), equality and regex matching (4), ordering (5),
/// `|` (6), `^` (7), `&` (8), shifts (9), `+` and `-` (10), `*`, `/`, `//`
/// and `%` (11), and `**` (12), each with its element-wise (dotted) form
/// where it has one; 0 for any other token.
pub open spec fn operator_level(t: TokenType) -> int {
    match t {
        TokenType::If | TokenType::Unless => 1,
        TokenType::Or | TokenType::PipePipe => 2,
        TokenType::And | TokenType::AmpersandAmpersand => 3,
        TokenType::EqualEqual | TokenType::BangEqual | TokenType::RegexMatch | TokenType::RegexNoMatch
        | TokenType::DotEqualEqual | TokenType::DotBangEqual => 4,
        TokenType::Less | TokenType::LessEqual | TokenType::Greater | TokenType::GreaterEqual
        | TokenType::DotLess | TokenType::DotLessEqual | TokenType::DotGreater | TokenType::DotGreaterEqual => 5,
        TokenType::Pipe => 6,
        TokenType::Caret | TokenType::DotCaret => 7,
        TokenType::Ampersand => 8,
        TokenType::LeftShift | TokenType::RightShift => 9,
        TokenType::Plus | TokenType::Minus | TokenType::DotPlus | TokenType::DotMinus => 10,
        TokenType::Star | TokenType::Slash | TokenType::SlashSlash | TokenType::Percent
        | TokenType::DotStar | TokenType::DotSlash | TokenType::DotSlashSlash | TokenType::DotPercent => 11,
        TokenType::DoubleStar | TokenType::DotDoubleStar => 12,
        _ => 0,
    }
}

/// The binary operator an infix token stands for.
pub open spec fn binary_operator(t: TokenType) -> Option<BinaryOp> {
    match t {
        TokenType::Or | TokenType::PipePipe => Some(BinaryOp::Or),
        TokenType::And | TokenType::AmpersandAmpersand => Some(BinaryOp::And),
        TokenType::EqualEqual => Some(BinaryOp::Equal),
        TokenType::BangEqual => Some(BinaryOp::NotEqual),
        TokenType::RegexMatch => Some(BinaryOp::RegexMatch),
        TokenType::RegexNoMatch => Some(BinaryOp::RegexNoMatch),
        TokenType::DotEqualEqual => Some(BinaryOp::DotEqual),
        TokenType::DotBangEqual => Some(BinaryOp::DotNotEqual),
        TokenType::Less => Some(BinaryOp::Less),
        TokenType::LessEqual => Some(BinaryOp::LessEqual),
        TokenType::Greater => Some(BinaryOp::Greater),
        TokenType::GreaterEqual => Some(BinaryOp::GreaterEqual),
        TokenType::DotLess => Some(BinaryOp::DotLess),
        TokenType::DotLessEqual => Some(BinaryOp::DotLessEqual),
        TokenType::DotGreater => Some(BinaryOp::DotGreater),
        TokenType::DotGreaterEqual => Some(BinaryOp::DotGreaterEqual),
        TokenType::Pipe => Some(BinaryOp::BitwiseOr),
        TokenType::Caret => Some(BinaryOp::BitwiseXor),
        TokenType::DotCaret => Some(BinaryOp::DotXor),
        TokenType::Ampersand => Some(BinaryOp::BitwiseAnd),
        TokenType::LeftShift => Some(BinaryOp::LeftShift),
        TokenType::RightShift => Some(BinaryOp::RightShift),
        TokenType::Plus => Some(BinaryOp::Add),
        TokenType::Minus => Some(BinaryOp::Subtract),
        TokenType::DotPlus => Some(BinaryOp::DotAdd),
        TokenType::DotMinus => Some(BinaryOp::DotSubtract),
        TokenType::Star => Some(BinaryOp::Multiply),
        TokenType::Slash => Some(BinaryOp::Divide),
        TokenType::SlashSlash => Some(BinaryOp::IntDiv),
        TokenType::Percent => Some(BinaryOp::Modulo),
        TokenType::DotStar => Some(BinaryOp::DotMultiply),
        TokenType::DotSlash => Some(BinaryOp::DotDivide),
        TokenType::DotSlashSlash => Some(BinaryOp::DotIntDiv),
        TokenType::DotPercent => Some(BinaryOp::DotModulo),
        TokenType::DoubleStar => Some(BinaryOp::Power),
        TokenType::DotDoubleStar => Some(BinaryOp::DotPower),
        _ => None,
    }
}

/// Infix precedence, loosest to tightest: `or`, `and`, equality, ordering,
/// `|`, `^`, `&`, shifts, additive, multiplicative, `**`; the additive
/// tokens stand for addition and subtraction and the multiplicative ones
/// for multiplication, division, integer division and remainder, each also
/// element-wise after a dot, all of a group at one level.
pub proof fn lemma_operator_precedence()
    ensures
        operator_level(TokenType::Or) < operator_level(TokenType::And),
        operator_level(TokenType::And) < operator_level(TokenType::EqualEqual),
        operator_level(TokenType::EqualEqual) < operator_level(TokenType::Less),
        operator_level(TokenType::Less) < operator_level(TokenType::Pipe),
        operator_level(TokenType::Pipe) < operator_level(TokenType::Caret),
        operator_level(TokenType::Caret) < operator_level(TokenType::Ampersand),
        operator_level(TokenType::Ampersand) < operator_level(TokenType::LeftShift),
        operator_level(TokenType::LeftShift) < operator_level(TokenType::Plus),
        operator_level(TokenType::Plus) == operator_level(TokenType::Minus),
        operator_level(TokenType::Plus) < operator_level(TokenType::Star),
        operator_level(TokenType::Star) < operator_level(TokenType::DoubleStar),
        binary_operator(TokenType::Plus) == Some(BinaryOp::Add),
        binary_operator(TokenType::Minus) == Some(BinaryOp::Subtract),
        binary_operator(TokenType::DotPlus) == Some(BinaryOp::DotAdd),
        binary_operator(TokenType::DotMinus) == Some(BinaryOp::DotSubtract),
        binary_operator(TokenType::Star) == Some(BinaryOp::Multiply),
        binary_operator(TokenType::Slash) == Some(BinaryOp::Divide),
        binary_operator(TokenType::SlashSlash) == Some(BinaryOp::IntDiv),
        binary_operator(TokenType::Percent) == Some(BinaryOp::Modulo),
        binary_operator(TokenType::DotStar) == Some(BinaryOp::DotMultiply),
        binary_operator(TokenType::DotSlash) == Some(BinaryOp::DotDivide),
        binary_operator(TokenType::DotSlashSlash) == Some(BinaryOp::DotIntDiv),
        binary_operator(TokenType::DotPercent) == Some(BinaryOp::DotModulo),
        forall|t: TokenType| #![trigger operator_level(t)]
            (t is Star || t is Slash || t is SlashSlash || t is Percent || t is DotStar || t is DotSlash
                || t is DotSlashSlash || t is DotPercent) <==> operator_level(t) == operator_level(TokenType::Star),
{
}

/// The next token is a literal or a name, and the one after it neither
/// continues it (a `{` does not continue a literal) nor is an infix token of
/// level `level` or above.
pub open spec fn operand_below(p: Parser, level: int) -> bool {
    &&& is_operand(p.next_token().token_type)
    &&& p.position() + 1 < p.tokens().len()
    &&& (!continues_operand(token_ahead(p, 1))
        || (token_ahead(p, 1) is LeftBrace && token_literal(p.next_token().token_type) is Some))
    &&& operator_level(token_ahead(p, 1)) < level
}

/// The token ends a chain of suffixes: it neither continues an operand nor
/// starts a command-style argument, and it is not `!`.
pub open spec fn ends_suffixes(t: TokenType) -> bool {
    !continues_operand(t) && !starts_command_arg(t) && !(t is Bang)
}

/// How many tokens a simple suffix form spans from the parser's next token:
/// a literal or name followed by `()`, `(x)`, `[x]` or `.name` (`x` a
/// literal or name), then a token that ends the suffixes (see
/// `ends_suffixes`); 0 for any other tokens.
pub open spec fn simple_suffix_len(p: Parser) -> int {
    let ts = p.tokens();
    let i = p.position() as int;
    if !(is_operand(ts[i].token_type) && i + 3 < ts.len()) {
        0
    } else if ts[i + 1].token_type is LeftParen && ts[i + 2].token_type is RightParen && ends_suffixes(ts[i + 3].token_type) {
        3
    } else if i + 4 < ts.len() && ts[i + 1].token_type is LeftParen && is_operand(ts[i + 2].token_type)
        && ts[i + 3].token_type is RightParen && ends_suffixes(ts[i + 4].token_type) {
        4
    } else if i + 4 < ts.len() && ts[i + 1].token_type is LeftBracket && is_operand(ts[i + 2].token_type)
        && ts[i + 3].token_type is RightBracket && ends_suffixes(ts[i + 4].token_type) {
        4
    } else if ts[i + 1].token_type is Dot && ts[i + 2].token_type is Identifier && ends_suffixes(ts[i + 3].token_type) {
        3
    } else {
        0
    }
}

/// The expression of the simple suffix form at the parser's next token
/// (see `simple_suffix_len`): a call without arguments or with one
/// positional argument, an index, or a property access, at the position of
/// the first operand.
pub open spec fn simple_suffix_expr(p: Parser, e: Expr) -> bool {
    let ts = p.tokens();
    let i = p.position() as int;
    let object = operand_expr(ts[i]);
    let position = token_position(ts[i]);
    if ts[i + 1].token_type is LeftParen && ts[i + 2].token_type is RightParen {
        e matches Expr::Call { callee, args, position: cp } && *callee == object && args@.len() == 0 && cp == position
    } else if ts[i + 1].token_type is LeftParen {
        e matches Expr::Call { callee, args, position: cp } && *callee == object && cp == position && args@.len() == 1
            && args@[0] == (Argument::Positional { expr: operand_expr(ts[i + 2]), mutable: false })
    } else if ts[i + 1].token_type is LeftBracket {
        e == (Expr::Index { object: Box::new(object), index: Box::new(operand_expr(ts[i + 2])), position })
    } else {
        e matches Expr::PropertyAccess { object: o, property, position: pp } && *o == object && pp == position
            && ts[i + 2].token_type == TokenType::Identifier(property)
    }
}

/// The pattern a one-token `match` pattern stands for: `_` is the
/// wildcard, another name a variable, a literal itself.
pub open spec fn token_pattern(t: TokenType) -> MatchPattern {
    match t {
        TokenType::Identifier(n) => if n@ == "_"@ { MatchPattern::Wildcard } else { MatchPattern::Variable(n) },
        _ => MatchPattern::Literal(pattern_literal(t)->0),
    }
}

/// From the parser's next token: a literal, `{`, then either `}` at once
/// (`arms` is 0) or one arm `pattern => operand` and `}` (`arms` is 1),
/// where the pattern is a name or a literal other than a symbol and the
/// operand a literal or name.
pub open spec fn simple_match(p: Parser, arms: int) -> bool {
    simple_match_at(p.tokens(), p.position() as int, arms)
}

/// `simple_match` for the tokens from index `i` of `ts`.
pub open spec fn simple_match_at(ts: Seq<Token>, i: int, arms: int) -> bool {
    &&& 0 <= i < ts.len()
    &&& token_literal(ts[i].token_type) is Some
    &&& if arms == 0 {
        i + 2 < ts.len() && ts[i + 1].token_type is LeftBrace && ts[i + 2].token_type is RightBrace
    } else {
        &&& arms == 1 && i + 5 < ts.len() && ts[i + 1].token_type is LeftBrace
        &&& (ts[i + 2].token_type is Identifier || pattern_literal(ts[i + 2].token_type) is Some)
        &&& ts[i + 3].token_type is Arrow && is_operand(ts[i + 4].token_type) && ts[i + 5].token_type is RightBrace
    }
}

/// The key a token gives a map literal entry: a string's text or a name.
pub open spec fn entry_key(t: TokenType) -> Option<String> {
    match t {
        TokenType::String(k) => Some(k),
        TokenType::Identifier(k) => Some(k),
        _ => None,
    }
}

/// The prefix operator a token stands for: `-`, `not` or `~`.
pub open spec fn unary_op(t: TokenType) -> Option<UnaryOp> {
    match t {
        TokenType::Minus => Some(UnaryOp::Negate),
        TokenType::Not => Some(UnaryOp::Not),
        TokenType::Tilde => Some(UnaryOp::BitwiseNot),
        _ => None,
    }
}

/// The tokens from index `i` of `ts` read `a0 op1 a1 op2 .. opn an`: `n`
/// infix operators of precedence `level` (multiplicative at 11, additive
/// at 10) between literal-or-name operands, followed by a token that binds
/// more loosely and does not continue an operand.
pub open spec fn op_run(ts: Seq<Token>, i: int, n: nat, level: int) -> bool {
    &&& 0 <= i && i + 2 * n + 1 < ts.len()
    &&& forall|j: int| i <= j <= i + 2 * n && (j - i) % 2 == 0 ==> is_operand(#[trigger] ts[j].token_type)
    &&& forall|j: int| i < j < i + 2 * n && (j - i) % 2 == 1 ==> operator_level(#[trigger] ts[j].token_type) == level
    &&& !continues_operand(ts[i + 2 * n + 1].token_type)
    &&& operator_level(ts[i + 2 * n + 1].token_type) < level
}

/// The tree of the first `n` operators of an `op_run` from `i`, grouped to
/// the left: `((a0 op1 a1) op2 a2) ..`.
pub open spec fn op_chain(ts: Seq<Token>, i: int, n: nat) -> Expr
    decreases n,
{
    if n == 0 {
        operand_expr(ts[i])
    } else {
        Expr::Binary {
            left: Box::new(op_chain(ts, i, (n - 1) as nat)),
            op: binary_operator(ts[i + 2 * n - 1].token_type)->0,
            right: Box::new(operand_expr(ts[i + 2 * n])),
            position: token_position(ts[i + 2 * n - 1]),
        }
    }
}

/// From index `i` of `ts`: an operand, one multiplicative operator and a
/// `**` chain as its right operand, followed by a token that binds more
/// loosely than `*` and does not continue an operand; the tree and the
/// index after it.
pub open spec fn mul_then_power(ts: Seq<Token>, i: int) -> Option<(Expr, int)> {
    if 0 <= i && i + 2 < ts.len() && is_operand(ts[i].token_type) && operator_level(ts[i + 1].token_type) == 11 {
        match power_chain(ts, i + 2) {
            Some((e, j)) => if j < ts.len() && !continues_operand(ts[j].token_type) && operator_level(ts[j].token_type) < 11 {
                Some((
                    Expr::Binary {
                        left: Box::new(operand_expr(ts[i])),
                        op: binary_operator(ts[i + 1].token_type)->0,
                        right: Box::new(e),
                        position: token_position(ts[i + 1]),
                    },
                    j,
                ))
            } else {
                None
            },
            None => None,
        }
    } else {
        None
    }
}

/// Operators of one level group to the left: in a chain the top
/// operator is the last one, its right operand the last operand alone and
/// its left operand the chain before it; so `a op1 b op2 c` reads as
/// `(a op1 b) op2 c`.
pub proof fn lemma_op_chain_groups_left(ts: Seq<Token>, i: int, n: nat)
    requires
        n >= 1,
    ensures
        op_chain(ts, i, n) matches Expr::Binary { left, right, .. }
            && *right == operand_expr(ts[i + 2 * n]) && *left == op_chain(ts, i, (n - 1) as nat),
        n == 2 ==> op_chain(ts, i, n) == (Expr::Binary {
            left: Box::new(Expr::Binary {
                left: Box::new(operand_expr(ts[i])),
                op: binary_operator(ts[i + 1].token_type)->0,
                right: Box::new(operand_expr(ts[i + 2])),
                position: token_position(ts[i + 1]),
            }),
            op: binary_operator(ts[i + 3].token_type)->0,
            right: Box::new(operand_expr(ts[i + 4])),
            position: token_position(ts[i + 3]),
        }),
{
    if n == 2 {
        assert(op_chain(ts, i, 0) == operand_expr(ts[i]));
        assert(op_chain(ts, i, 1) == (Expr::Binary {
            left: Box::new(operand_expr(ts[i])),
            op: binary_operator(ts[i + 1].token_type)->0,
            right: Box::new(operand_expr(ts[i + 2])),
            position: token_position(ts[i + 1]),
        }));
    }
}

/// A syntax error with the message `m` at the start of token `t`.
pub open spec fn syntax_error_is(e: GraphoidError, m: Seq<char>, t: Token) -> bool {
    e matches GraphoidError::SyntaxError { message, position } && message@ == m && position == token_position(t)
}

/// The tokens from the next one read `if` or `unless`, a literal, `{`, `}`,
/// `else`, `{`, `}`.
pub open spec fn literal_block_conditional(p: Parser) -> bool {
    &&& p.position() + 6 < p.tokens().len()
    &&& (p.next_token().token_type is If || p.next_token().token_type is Unless)
    &&& token_literal(token_ahead(p, 1)) is Some
    &&& token_ahead(p, 2) is LeftBrace && token_ahead(p, 3) is RightBrace && token_ahead(p, 4) is Else
    &&& token_ahead(p, 5) is LeftBrace && token_ahead(p, 6) is RightBrace
}

/// The next tokens are a literal or name, a binary operator, another
/// literal or name, then a token that neither continues it nor is an infix
/// token.
pub open spec fn simple_binary(p: Parser) -> bool {
    &&& is_operand(p.next_token().token_type)
    &&& p.position() + 3 < p.tokens().len()
    &&& binary_operator(token_ahead(p, 1)) is Some
    &&& is_operand(token_ahead(p, 2))
    &&& !continues_operand(token_ahead(p, 3))
    &&& operator_level(token_ahead(p, 3)) == 0
}

/// The tokens from the next one are those of `simple_binary`, followed by
/// `Eof`.
pub open spec fn binary_statement(p: Parser) -> bool {
    simple_binary(p) && token_ahead(p, 3) is Eof
}

/// A binary operator's token binds at one of the levels from `or` to `**`.
pub proof fn lemma_binary_operator_level(t: TokenType)
    ensures
        binary_operator(t) is Some <==> 2 <= operator_level(t) <= 12,
{
}

/// The expression that the tokens of `simple_binary` stand for: the
/// operator applied to the two operands, at the operator's position.
pub open spec fn binary_expr(p: Parser) -> Expr {
    Expr::Binary {
        left: Box::new(operand_expr(p.next_token())),
        op: binary_operator(token_ahead(p, 1))->0,
        right: Box::new(operand_expr(p.tokens()[p.position() + 2int])),
        position: token_position(p.tokens()[p.position() + 1int]),
    }
}

/// Every token of `ts` from index `from` up to (not including) `to` is a
/// line break.
pub open spec fn only_newlines(ts: Seq<Token>, from: int, to: int) -> bool {
    forall|k: int| from <= k < to ==> #[trigger] ts[k].token_type is Newline
}

/// Where the token before the next one starts (the first token when
/// nothing was read yet).
pub open spec fn previous_token_position(p: Parser) -> SourcePosition {
    if p.position() == 0 {
        token_position(p.tokens()[0])
    } else {
        token_position(p.tokens()[p.position() - 1])
    }
}

/// The text a string, name or symbol token carries.
pub open spec fn token_text(t: TokenType) -> Option<String> {
    match t {
        TokenType::String(s) => Some(s),
        TokenType::Identifier(s) => Some(s),
        TokenType::Symbol(s) => Some(s),
        _ => None,
    }
}

/// The parser is at a token of the variant of `t` exactly when the next
/// token is not `Eof` and has that variant.
pub proof fn lemma_next_is(p: Parser, t: TokenType)
    requires
        p.wf(),
    ensures
        p.next_is(kind(t)) <==> !(p.next_token().token_type is Eof) && kind(p.next_token().token_type) == kind(t),
{
}

/// From index `j` on, `ts` holds command-style arguments (literals, each
/// optionally followed by a comma) and then `{`.
pub open spec fn reaches_command_block(ts: Seq<Token>, j: int) -> bool
    decreases ts.len() - j,
{
    if j < 0 || j >= ts.len() {
        false
    } else if ts[j].token_type is LeftBrace {
        true
    } else if starts_command_arg(ts[j].token_type) {
        if j + 1 < ts.len() && ts[j + 1].token_type is Comma {
            reaches_command_block(ts, j + 2)
        } else {
            reaches_command_block(ts, j + 1)
        }
    } else {
        false
    }
}

/// A chain of literals or names joined by `**` or `.**` from index `i`,
/// read right to left: `a ** b ** c` is `a ** (b ** c)`.  The chain ends at
/// a token that neither continues an operand nor binds as tightly as `**`.
/// Gives the expression and the index just past the chain.
pub open spec fn power_chain(ts: Seq<Token>, i: int) -> Option<(Expr, int)>
    decreases ts.len() - i,
{
    if 0 <= i && i + 1 < ts.len() && is_operand(ts[i].token_type) && !continues_operand(ts[i + 1].token_type) {
        if ts[i + 1].token_type is DoubleStar || ts[i + 1].token_type is DotDoubleStar {
            match power_chain(ts, i + 2) {
                Some((e, j)) => Some((
                    Expr::Binary {
                        left: Box::new(operand_expr(ts[i])),
                        op: if ts[i + 1].token_type is DoubleStar { BinaryOp::Power } else { BinaryOp::DotPower },
                        right: Box::new(e),
                        position: token_position(ts[i + 1]),
                    },
                    j,
                )),
                None => None,
            }
        } else {
            Some((operand_expr(ts[i]), i + 1))
        }
    } else {
        None
    }
}

/// From index `i` on, `ts` holds only line breaks up to an `Eof`.
pub open spec fn blank_until_eof(ts: Seq<Token>, i: int) -> bool {
    exists|e: int| i <= e < ts.len() && #[trigger] ts[e].token_type is Eof && only_newlines(ts, i, e)
}

/// A token that can name a type: a name or a type keyword (`num`,
/// `string`, `bool`, `list`, `map`, `graph`, `tree`).
pub open spec fn type_name_token(t: TokenType) -> bool {
    t is Identifier || t is NumType || t is StringType || t is BoolType || t is ListType || t is MapType
        || t is GraphType || t is TreeType
}

/// The token `k` places after the next one.
pub open spec fn token_ahead(p: Parser, k: int) -> TokenType {
    p.tokens()[p.position() + k].token_type
}

/// The literal a token stands for in a `match` pattern: a number, a
/// string, `true`, `false` or `none` (symbols are not patterns).
pub open spec fn pattern_literal(t: TokenType) -> Option<LiteralValue> {
    if t is Symbol { None } else { token_literal(t) }
}

/// Where a token starts.
pub open spec fn token_position(t: Token) -> SourcePosition {
    SourcePosition { line: t.line, column: t.column }
}

impl Parser {
    /// The next token to read.
    pub open spec fn next_token(&self) -> Token {
        self.tokens()[self.position() as int]
    }

    /// The token stream.
    pub closed spec fn tokens(&self) -> Seq<Token> {
        self.tokens@
    }

    /// The index of the next token to read.
    pub closed spec fn position(&self) -> nat {
        self.current as nat
    }

    /// How many tokens are left to read, `Eof` included.
    pub open spec fn remaining(&self) -> int {
        self.tokens().len() - self.position()
    }

    /// The position is inside the stream and not past its first `Eof`.
    pub closed spec fn wf(&self) -> bool {
        self.current < self.tokens@.len() && eof_from(self.tokens@, self.current as int)
    }

    /// The next token is `Eof`.
    pub closed spec fn at_end(&self) -> bool {
        self.tokens@[self.current as int].token_type is Eof
    }

    /// The next token is not `Eof` and has kind `k`.
    pub closed spec fn next_is(&self, k: u8) -> bool {
        !self.at_end() && kind(self.tokens@[self.current as int].token_type) == k
    }

    /// Whether `Name { .. }` after an expression is currently not read as
    /// an instantiation (while a graph's parent expression is read).
    pub closed spec fn brace_instantiation_disabled(&self) -> bool {
        self.disable_brace_instantiation
    }

    pub fn new(tokens: Vec<Token>) -> (p: Self)
        ensures
            p.tokens() == tokens@,
            p.position() == 0,
            !p.brace_instantiation_disabled(),
            well_terminated(tokens@) ==> p.wf(),
    {
        Parser { tokens, current: 0, disable_brace_instantiation: false }
    }

    fn is_at_end(&self) -> (r: bool)
        requires
            self.wf(),
        ensures
            r == self.at_end(),
    {
        match self.tokens[self.current].token_type {
            TokenType::Eof => true,
            _ => false,
        }
    }

    fn peek(&self) -> (t: &Token)
        requires
            self.wf(),
        ensures
            *t == self.tokens@[self.current as int],
    {
        &self.tokens[self.current]
    }

    /// The position of the token before the current one (of the first token
    /// when nothing was read yet).
    fn previous_position(&self) -> (p: SourcePosition)
        requires
            self.wf(),
        ensures
            p == previous_token_position(*self),
    {
        if self.current == 0 {
            self.tokens[0].position()
        } else {
            self.tokens[self.current - 1].position()
        }
    }

    /// Moves past the current token unless it is `Eof`.
    fn advance(&mut self)
        requires
            old(self).wf(),
        ensures
            advanced(*old(self), *final(self)),
            final(self).disable_brace_instantiation == old(self).disable_brace_instantiation,
            final(self).position() == if old(self).at_end() { old(self).position() } else { old(self).position() + 1 },
    {
        let n = self.tokens.len();
        if !self.is_at_end() {
            self.current = self.current + 1;
        }
    }

    /// The current token has the kind of `token_type` (and is not `Eof`).
    fn check(&self, token_type: &TokenType) -> (r: bool)
        requires
            self.wf(),
        ensures
            r == self.next_is(kind(*token_type)),
    {
        if self.is_at_end() {
            return false;
        }
        self.tokens[self.current].token_type.kind() == token_type.kind()
    }

    /// The token after the current one exists and has the kind of `token_type`.
    fn check_next(&self, token_type: &TokenType) -> (r: bool)
        requires
            self.wf(),
        ensures
            r == (self.current + 1 < self.tokens@.len() && kind(self.tokens@[self.current + 1].token_type) == kind(*token_type)),
    {
        if self.tokens.len() - self.current <= 1 {
            return false;
        }
        self.tokens[self.current + 1].token_type.kind() == token_type.kind()
    }

    /// The token after the current one is an identifier.
    fn check_next_is_identifier(&self) -> (r: bool)
        requires
            self.wf(),
        ensures
            r == (self.current + 1 < self.tokens@.len() && self.tokens@[self.current + 1].token_type is Identifier),
    {
        if self.tokens.len() - self.current <= 1 {
            return false;
        }
        match self.tokens[self.current + 1].token_type {
            TokenType::Identifier(_) => true,
            _ => false,
        }
    }

    /// Reads the current token if it has the kind of `token_type`.
    fn match_token(&mut self, token_type: &TokenType) -> (r: bool)
        requires
            old(self).wf(),
        ensures
            advanced(*old(self), *final(self)),
            final(self).disable_brace_instantiation == old(self).disable_brace_instantiation,
            r == old(self).next_is(kind(*token_type)),
            r ==> final(self).position() == old(self).position() + 1,
            !r ==> final(self).position() == old(self).position(),
    {
        if self.check(token_type) {
            self.advance();
            true
        } else {
            false
        }
    }

    /// Skips all consecutive newline tokens.
    fn skip_newlines(&mut self)
        requires
            old(self).wf(),
        ensures
            advanced(*old(self), *final(self)),
            final(self).disable_brace_instantiation == old(self).disable_brace_instantiation,
            !final(self).next_is(kind(TokenType::Newline)),
            !old(self).next_is(kind(TokenType::Newline)) ==> final(self).position() == old(self).position(),
            only_newlines(old(self).tokens(), old(self).position() as int, final(self).position() as int),
            !(final(self).next_token().token_type is Newline),
    {
        loop
            invariant
                advanced(*old(self), *self),
                self.disable_brace_instantiation == old(self).disable_brace_instantiation,
                !old(self).next_is(kind(TokenType::Newline)) ==> self.position() == old(self).position(),
                only_newlines(old(self).tokens(), old(self).position() as int, self.position() as int),
            ensures
                advanced(*old(self), *self),
                self.disable_brace_instantiation == old(self).disable_brace_instantiation,
                !old(self).next_is(kind(TokenType::Newline)) ==> self.position() == old(self).position(),
                only_newlines(old(self).tokens(), old(self).position() as int, self.position() as int),
                !self.next_is(kind(TokenType::Newline)),
            decreases self.tokens@.len() - self.current,
        {
            let ghost before = *self;
            if !self.match_token(&TokenType::Newline) {
                break;
            }
            proof {
                lemma_next_is(before, TokenType::Newline);
                assert(before.next_token().token_type is Newline);
            }
        }
        proof {
            lemma_next_is(*self, TokenType::Newline);
        }
    }

    /// A syntax error at the current token.
    fn syntax_error(&self, message: &str) -> (e: GraphoidError)
        requires
            self.wf(),
        ensures
            e matches GraphoidError::SyntaxError { message: m, position: p }
                && m@ == message@ && p == token_position(self.next_token()),
    {
        GraphoidError::syntax(String::from_str(message), self.peek().position())
    }

    /// The text of the current token when it is an identifier.
    fn identifier_here(&self) -> (r: Option<String>)
        requires
            self.wf(),
        ensures
            r is Some <==> self.tokens@[self.current as int].token_type is Identifier,
            r matches Some(s) ==> (self.tokens@[self.current as int].token_type matches TokenType::Identifier(t) && s == t),
    {
        match &self.tokens[self.current].token_type {
            TokenType::Identifier(s) => Some(s.clone()),
            _ => None,
        }
    }

    /// The text of the current token when it is a string literal.
    fn string_here(&self) -> (r: Option<String>)
        requires
            self.wf(),
        ensures
            r is Some <==> self.tokens@[self.current as int].token_type is String,
            r matches Some(s) ==> (self.tokens@[self.current as int].token_type matches TokenType::String(t) && s == t),
    {
        match &self.tokens[self.current].token_type {
            TokenType::String(s) => Some(s.clone()),
            _ => None,
        }
    }

    /// The name of the current token when it is a symbol.
    fn symbol_here(&self) -> (r: Option<String>)
        requires
            self.wf(),
        ensures
            r is Some <==> self.tokens@[self.current as int].token_type is Symbol,
            r matches Some(s) ==> (self.tokens@[self.current as int].token_type matches TokenType::Symbol(t) && s == t),
    {
        match &self.tokens[self.current].token_type {
            TokenType::Symbol(s) => Some(s.clone()),
            _ => None,
        }
    }
}

/// A syntax error at a given position.
fn error_at(message: &str, position: SourcePosition) -> (e: GraphoidError)
    ensures
        e matches GraphoidError::SyntaxError { message: m, position: p } && m@ == message@ && p == position,
{
    GraphoidError::syntax(String::from_str(message), position)
}

} // verus!
