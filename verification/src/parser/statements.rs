//! Statements: declarations, control flow, assignments and expression
//! statements, and blocks of them.

use vstd::prelude::*;
use crate::ast::{Argument, AssignmentTarget, Expr, Parameter, PatternClause, Program, Stmt, TypeAnnotation};
use crate::error::{GraphoidError, SourcePosition};
use crate::text::str_eq;
use crate::token::{describe, Token, TokenType};
use super::{ends_expression, token_literal, syntax_error_is, blank_until_eof, is_operand, reaches_command_block, advanced, binary_expr, binary_statement, simple_binary, error_at, keyword_statement, previous_token_position, token_ahead, token_text, lone_operand, statement_kind, only_newlines, operand_expr, parsed, progressed, scanned, token_position, Parser};

verus! {

/// The type name a type keyword stands for.
pub open spec fn type_keyword(t: TokenType) -> Option<Seq<char>> {
    match t {
        TokenType::NumType => Some("num"@),
        TokenType::BigNumType => Some("bignum"@),
        TokenType::StringType => Some("string"@),
        TokenType::BoolType => Some("bool"@),
        TokenType::ListType => Some("list"@),
        TokenType::MapType => Some("map"@),
        TokenType::TreeType => Some("tree"@),
        TokenType::GraphType => Some("graph"@),
        TokenType::DataType => Some("data"@),
        _ => None,
    }
}

/// The parameter list of the simple forms that `function_declaration`
/// promises a result for: nothing before `)`, or one plain name then `)`.
/// Gives the parameters and the index of the `)`.
pub open spec fn simple_params(ts: Seq<Token>, i: int) -> Option<(Seq<Parameter>, int)> {
    if 0 <= i < ts.len() && ts[i].token_type is RightParen {
        Some((Seq::<Parameter>::empty(), i))
    } else if 0 <= i && i + 1 < ts.len() && ts[i + 1].token_type is RightParen && ts[i].token_type is Identifier {
        Some((seq![Parameter { name: ts[i].token_type->Identifier_0, default_value: None, is_variadic: false }], i + 1))
    } else {
        None
    }
}

/// The body of the simple forms that `function_declaration` promises a
/// result for: nothing before `}`, or one literal or name then `}`.  Gives
/// the statements and the index of the `}`.
pub open spec fn simple_body(ts: Seq<Token>, i: int) -> Option<(Seq<Stmt>, int)> {
    if 0 <= i < ts.len() && ts[i].token_type is RightBrace {
        Some((Seq::<Stmt>::empty(), i))
    } else if 0 <= i && i + 1 < ts.len() && ts[i + 1].token_type is RightBrace && is_operand(ts[i].token_type) {
        Some((seq![Stmt::Expression { expr: operand_expr(ts[i]), position: token_position(ts[i]) }], i + 1))
    } else {
        None
    }
}

/// A literal condition followed by a braced body of a simple form (see
/// `simple_body`), from the parser's next token.  Gives the body and the
/// index of its `}`.
pub open spec fn literal_then_body(p: Parser) -> Option<(Seq<Stmt>, int)> {
    let ts = p.tokens();
    let i = p.position() as int;
    if i + 1 < ts.len() && token_literal(ts[i].token_type) is Some && ts[i + 1].token_type is LeftBrace {
        simple_body(ts, i + 2)
    } else {
        None
    }
}

/// From index `i` of `ts`: a name, `=`, a literal or name, then a token
/// that ends an expression.
pub open spec fn simple_binding(ts: Seq<Token>, i: int) -> bool {
    &&& 0 <= i && i + 3 < ts.len()
    &&& ts[i].token_type is Identifier && ts[i + 1].token_type is Equal
    &&& is_operand(ts[i + 2].token_type) && ends_expression(ts[i + 3].token_type)
}

/// The simple function declarations that `function_declaration` promises a
/// result for, read from the parser's next token: a name, `(`, a parameter
/// list as `simple_params` says, `)`, `{`, a body as `simple_body` says and
/// `}`.  Gives the name, the parameters, the body, the index of the `)` and
/// the index of the `}`.
pub open spec fn simple_function(p: Parser) -> Option<(String, Seq<Parameter>, Seq<Stmt>, int, int)> {
    let ts = p.tokens();
    let i = p.position() as int;
    if i + 1 < ts.len() && ts[i].token_type is Identifier && ts[i + 1].token_type is LeftParen {
        match simple_params(ts, i + 2) {
            Some((ps, j)) => if j + 1 < ts.len() && ts[j + 1].token_type is LeftBrace {
                match simple_body(ts, j + 2) {
                    Some((b, k)) => Some((ts[i].token_type->Identifier_0, ps, b, j, k)),
                    None => None,
                }
            } else {
                None
            },
            None => None,
        }
    } else {
        None
    }
}

/// `p` is the first parameter of a list starting at the parser's next
/// token: marked variadic exactly when that token is `...`, and named by
/// the identifier that follows the marker, or by that token itself.
pub open spec fn first_parameter(parser: Parser, p: Parameter) -> bool {
    let variadic = parser.next_token().token_type is DotDotDot;
    &&& p.is_variadic == variadic
    &&& token_ahead(parser, if variadic { 1 } else { 0 }) == TokenType::Identifier(p.name)
}

impl Parser {
    /// Parses the whole token stream into a program.  Line breaks between
    /// statements are skipped; a successful parse reads up to `Eof`, and the
    /// program has no statements exactly when only line breaks came before
    /// `Eof`.
    pub fn parse(&mut self) -> (r: Result<Program, GraphoidError>)
        requires
            old(self).wf(),
        ensures
            scanned(*old(self), *final(self), r),
            r is Ok ==> final(self).at_end(),
            r matches Ok(p) ==> (p.statements@.len() == 0 <==> only_newlines(
                old(self).tokens(),
                old(self).position() as int,
                final(self).position() as int,
            )),
            lone_operand(*old(self)) && old(self).tokens()[old(self).position() + 1int].token_type is Eof ==> (r matches Ok(p)
                && p.statements@ == seq![Stmt::Expression {
                    expr: operand_expr(old(self).next_token()),
                    position: token_position(old(self).next_token()),
                }]),
            binary_statement(*old(self)) ==> (r matches Ok(p)
                && p.statements@ == seq![Stmt::Expression {
                    expr: binary_expr(*old(self)),
                    position: token_position(old(self).next_token()),
                }]),
            blank_until_eof(old(self).tokens(), old(self).position() as int)
                ==> (r matches Ok(p) && p.statements@.len() == 0),
    {
        let mut statements: Vec<Stmt> = Vec::new();
        while !self.is_at_end()
            invariant
                advanced(*old(self), *self),
                statements@.len() == 0 <==> only_newlines(old(self).tokens(), old(self).position() as int, self.position() as int),
                lone_operand(*old(self)) && old(self).tokens()[old(self).position() + 1int].token_type is Eof ==> {
                    ||| self.position() == old(self).position() && statements@.len() == 0
                    ||| self.position() == old(self).position() + 1 && statements@ == seq![Stmt::Expression {
                        expr: operand_expr(old(self).next_token()),
                        position: token_position(old(self).next_token()),
                    }]
                },
                binary_statement(*old(self)) ==> {
                    ||| self.position() == old(self).position() && statements@.len() == 0
                    ||| self.position() == old(self).position() + 3 && statements@ == seq![Stmt::Expression {
                        expr: binary_expr(*old(self)),
                        position: token_position(old(self).next_token()),
                    }]
                },
                blank_until_eof(old(self).tokens(), old(self).position() as int)
                    ==> statements@.len() == 0 && blank_until_eof(self.tokens(), self.position() as int),
            decreases self.remaining(),
        {
            let ghost before = *self;
            proof {
                super::lemma_next_is(*self, TokenType::Newline);
                if blank_until_eof(self.tokens(), self.position() as int) {
                    let e = choose|e: int| self.position() <= e < self.tokens().len()
                        && #[trigger] self.tokens()[e].token_type is Eof && only_newlines(self.tokens(), self.position() as int, e);
                    if e > self.position() {
                        assert(self.tokens()[self.position() as int].token_type is Newline);
                        assert(blank_until_eof(self.tokens(), self.position() + 1int)) by {
                            assert(only_newlines(self.tokens(), self.position() + 1int, e));
                        }
                    }
                }
            }
            if self.match_token(&TokenType::Newline) {
                proof {
                    assert(before.next_token().token_type is Newline);
                }
                continue;
            }
            let stmt = match self.statement() {
                Ok(s) => s,
                Err(e) => return Err(e),
            };
            proof {
                assert(!(before.next_token().token_type is Newline));
            }
            statements.push(stmt);
        }
        Ok(Program { statements })
    }

    /// One statement, with the line breaks before it and one after it.
    #[verifier::spinoff_prover]
    #[verifier::rlimit(50)]
    pub(super) fn statement(&mut self) -> (r: Result<Stmt, GraphoidError>)
        requires
            old(self).wf(),
        ensures
            parsed(*old(self), *final(self), r),
            lone_operand(*old(self)) ==> {
                &&& r == Ok::<Stmt, GraphoidError>(Stmt::Expression {
                    expr: operand_expr(old(self).next_token()),
                    position: token_position(old(self).next_token()),
                })
                &&& final(self).position() == old(self).position() + 1
            },
            keyword_statement(old(self).next_token().token_type) matches Some(k) ==> (r matches Ok(s) ==> statement_kind(s) == k),
            binary_statement(*old(self)) ==> {
                &&& r == Ok::<Stmt, GraphoidError>(Stmt::Expression {
                    expr: binary_expr(*old(self)),
                    position: token_position(old(self).next_token()),
                })
                &&& final(self).position() == old(self).position() + 3
            },
        decreases old(self).remaining(), 50int,
    {
        self.skip_newlines();
        if self.is_at_end() {
            return Err(error_at("Unexpected end of input", self.previous_position()));
        }
        let is_private = self.match_token(&TokenType::Priv);
        if is_private && self.identifier_here().is_some() && self.check_next(&TokenType::Equal) {
            return self.priv_variable_declaration_without_type();
        }
        let is_list_static_call = self.check(&TokenType::ListType) && self.check_next(&TokenType::Dot);
        let is_string_static_call = self.check(&TokenType::StringType) && self.check_next(&TokenType::Dot);
        let is_named_graph_decl = self.check(&TokenType::GraphType) && self.check_next_is_identifier();
        let result = if is_named_graph_decl {
            self.graph_declaration()
        } else if !is_list_static_call && !is_string_static_call && (self.check(&TokenType::NumType)
            || self.check(&TokenType::BigNumType) || self.check(&TokenType::StringType)
            || self.check(&TokenType::BoolType) || self.check(&TokenType::ListType)
            || self.check(&TokenType::MapType) || self.check(&TokenType::TreeType)
            || self.check(&TokenType::GraphType)) {
            self.variable_declaration(is_private)
        } else if self.match_token(&TokenType::Func) {
            self.function_declaration(is_private, false, false)
        } else if self.match_token(&TokenType::SetKw) {
            self.function_declaration(is_private, true, false)
        } else if self.match_token(&TokenType::Static) {
            if !self.match_token(&TokenType::Func) {
                return Err(self.syntax_error("Expected 'fn' after 'static'"));
            }
            self.function_declaration(is_private, false, true)
        } else if self.match_token(&TokenType::If) {
            self.if_statement()
        } else if self.match_token(&TokenType::While) {
            self.while_statement()
        } else if self.match_token(&TokenType::For) {
            self.for_statement()
        } else if self.match_token(&TokenType::Return) {
            self.return_statement()
        } else if self.match_token(&TokenType::Break) {
            Ok(Stmt::Break { position: self.previous_position() })
        } else if self.match_token(&TokenType::Continue) {
            Ok(Stmt::Continue { position: self.previous_position() })
        } else if self.match_token(&TokenType::Import) {
            self.import_statement()
        } else if self.match_token(&TokenType::Load) {
            self.load_statement()
        } else if self.match_token(&TokenType::Module) {
            self.module_declaration()
        } else if self.match_token(&TokenType::Configure) {
            self.configure_statement()
        } else if self.match_token(&TokenType::Precision) {
            self.precision_statement()
        } else if self.match_token(&TokenType::Try) {
            self.try_catch_statement()
        } else {
            self.assignment_or_expression()
        };
        self.match_token(&TokenType::Newline);
        result
    }

    /// `type name = value`, optionally after `priv`.
    pub(super) fn variable_declaration(&mut self, is_private: bool) -> (r: Result<Stmt, GraphoidError>)
        requires
            old(self).wf(),
        ensures
            r matches Ok(s) ==> s is VariableDecl,
            parsed(*old(self), *final(self), r),
            type_keyword(old(self).next_token().token_type) matches Some(base) ==> (old(self).position() + 1 < old(self).tokens().len()
                && !(token_ahead(*old(self), 1) is Less) && simple_binding(old(self).tokens(), old(self).position() + 1int) ==> {
                &&& r matches Ok(Stmt::VariableDecl { name, type_annotation: Some(ta), value, is_private: pr, position: ps })
                    && token_ahead(*old(self), 1) == TokenType::Identifier(name)
                    && ta.base_type@ == base && ta.constraint is None && pr == is_private
                    && ps == token_position(old(self).next_token())
                    && value == operand_expr(old(self).tokens()[old(self).position() + 3int])
                &&& final(self).position() == old(self).position() + 4
            }),
        decreases old(self).remaining(), 45int,
    {
        let position = self.peek().position();
        let type_annotation = match self.type_annotation() {
            Ok(t) => t,
            Err(e) => return Err(e),
        };
        self.variable_declaration_common(position, Some(type_annotation), is_private)
    }

    /// `priv name = value`, after `priv`.
    pub(super) fn priv_variable_declaration_without_type(&mut self) -> (r: Result<Stmt, GraphoidError>)
        requires
            old(self).wf(),
        ensures
            parsed(*old(self), *final(self), r),
        decreases old(self).remaining(), 45int,
    {
        let position = self.peek().position();
        self.variable_declaration_common(position, None, true)
    }

    /// `name = value` of a variable declaration.
    pub(super) fn variable_declaration_common(
        &mut self,
        position: SourcePosition,
        type_annotation: Option<TypeAnnotation>,
        is_private: bool,
    ) -> (r: Result<Stmt, GraphoidError>)
        requires
            old(self).wf(),
        ensures
            r matches Ok(s) ==> s is VariableDecl,
            parsed(*old(self), *final(self), r),
            simple_binding(old(self).tokens(), old(self).position() as int) ==> {
                &&& r matches Ok(Stmt::VariableDecl { name, type_annotation: ta, value, is_private: pr, position: ps })
                    && old(self).next_token().token_type == TokenType::Identifier(name)
                    && ta == type_annotation && pr == is_private && ps == position
                    && value == operand_expr(old(self).tokens()[old(self).position() + 2int])
                &&& final(self).position() == old(self).position() + 3
            },
        decreases old(self).remaining(), 44int,
    {
        let name = match self.identifier_here() {
            Some(n) => n,
            None => {
                let mut message = String::from_str("Expected identifier, got ");
                message.append(describe(&self.peek().token_type).as_str());
                return Err(self.syntax_error(message.as_str()));
            },
        };
        self.advance();
        if !self.match_token(&TokenType::Equal) {
            return Err(self.syntax_error("Expected '=' after variable name"));
        }
        let value = match self.expression() {
            Ok(e) => e,
            Err(e) => return Err(e),
        };
        Ok(Stmt::VariableDecl { name, type_annotation, value, is_private, position })
    }

    /// A type: `num`, `bignum`, `string`, `bool`, `list`, `map`, `tree`,
    /// `graph` or `data`, with an optional constraint `<primitive>` that
    /// only `list`, `tree` and `graph` may carry.
    pub(super) fn type_annotation(&mut self) -> (r: Result<TypeAnnotation, GraphoidError>)
        requires
            old(self).wf(),
        ensures
            parsed(*old(self), *final(self), r),
            type_keyword(old(self).tokens()[old(self).position() as int].token_type) is None ==> r is Err,
            r matches Ok(ta) ==> type_keyword(old(self).tokens()[old(self).position() as int].token_type)
                == Some(ta.base_type@),
            type_keyword(old(self).next_token().token_type) is Some && old(self).position() + 1 < old(self).tokens().len()
                && !(token_ahead(*old(self), 1) is Less) ==> {
                &&& r matches Ok(ta) && ta.constraint is None
                &&& final(self).position() == old(self).position() + 1
            },
    {
        let (base_type, is_collection) = match &self.peek().token_type {
            TokenType::NumType => (String::from_str("num"), false),
            TokenType::BigNumType => (String::from_str("bignum"), false),
            TokenType::StringType => (String::from_str("string"), false),
            TokenType::BoolType => (String::from_str("bool"), false),
            TokenType::ListType => (String::from_str("list"), true),
            TokenType::MapType => (String::from_str("map"), false),
            TokenType::TreeType => (String::from_str("tree"), true),
            TokenType::GraphType => (String::from_str("graph"), true),
            TokenType::DataType => (String::from_str("data"), false),
            _ => return Err(self.syntax_error("Expected type annotation")),
        };
        self.advance();
        let constraint = if self.match_token(&TokenType::Less) {
            if !is_collection {
                let mut message = String::from_str(
                    "Type parameters only allowed on built-in collections (list, hash, tree, graph), not '",
                );
                message.append(base_type.as_str());
                message.append("'");
                return Err(self.syntax_error(message.as_str()));
            }
            let is_none_name = match self.identifier_here() {
                Some(id) => str_eq(id.as_str(), "none"),
                None => false,
            };
            let primitive = match &self.peek().token_type {
                TokenType::NumType => Some(String::from_str("num")),
                TokenType::BigNumType => Some(String::from_str("bignum")),
                TokenType::StringType => Some(String::from_str("string")),
                TokenType::BoolType => Some(String::from_str("bool")),
                TokenType::Symbol(s) => Some(s.clone()),
                _ => None,
            };
            let constraint_type = match primitive {
                Some(c) => c,
                None => {
                    if !is_none_name {
                        let mut message = String::from_str(
                            "Type constraint must be a primitive type (num, string, bool, time, none), got ",
                        );
                        message.append(describe(&self.peek().token_type).as_str());
                        return Err(self.syntax_error(message.as_str()));
                    }
                    String::from_str("none")
                },
            };
            self.advance();
            if self.check(&TokenType::Comma) {
                return Err(self.syntax_error(
                    "Multiple type parameters not supported. See: dev_docs/NO_GENERICS_POLICY.md",
                ));
            }
            if self.check(&TokenType::Less) {
                return Err(self.syntax_error(
                    "Nested type constraints not supported. See: dev_docs/NO_GENERICS_POLICY.md",
                ));
            }
            if !self.match_token(&TokenType::Greater) {
                return Err(self.syntax_error("Expected '>' after type constraint"));
            }
            Some(constraint_type)
        } else {
            None
        };
        Ok(TypeAnnotation { base_type, constraint })
    }

    /// A parameter list after `(` (without the closing `)`): names, each
    /// optionally variadic (`...name`) or with a default (`name = value`);
    /// a variadic parameter has no default.
    pub(super) fn parameters(&mut self) -> (r: Result<Vec<Parameter>, GraphoidError>)
        requires
            old(self).wf(),
        ensures
            scanned(*old(self), *final(self), r),
            old(self).next_token().token_type is RightParen ==> (r matches Ok(ps) && ps@.len() == 0
                && final(self).position() == old(self).position()),
            r matches Ok(ps) ==> (ps@.len() == 0 <==> old(self).next_token().token_type is RightParen),
            r matches Ok(ps) ==> (ps@.len() > 0 ==> first_parameter(*old(self), ps@[0])),
            simple_params(old(self).tokens(), old(self).position() as int) matches Some((ps, j)) ==> {
                &&& r matches Ok(v) && v@ == ps
                &&& final(self).position() == j
            },
        decreases old(self).remaining(), 23int,
    {
        let mut params: Vec<Parameter> = Vec::new();
        if self.check(&TokenType::RightParen) {
            return Ok(params);
        }
        proof {
            super::lemma_next_is(*self, TokenType::RightParen);
        }
        loop
            invariant_except_break
                simple_params(old(self).tokens(), old(self).position() as int) is Some ==> params@.len() == 0,
            invariant
                advanced(*old(self), *self),
                !(old(self).next_token().token_type is RightParen),
                params@.len() > 0 ==> first_parameter(*old(self), params@[0]),
                params@.len() == 0 ==> self.position() == old(self).position(),
            ensures
                advanced(*old(self), *self),
                params@.len() > 0,
                first_parameter(*old(self), params@[0]),
                simple_params(old(self).tokens(), old(self).position() as int) is Some ==> (
                    params@ == (simple_params(old(self).tokens(), old(self).position() as int)->0).0
                    && self.position() == (simple_params(old(self).tokens(), old(self).position() as int)->0).1),
            decreases self.remaining(),
        {
            proof {
                super::lemma_next_is(*self, TokenType::DotDotDot);
            }
            let is_variadic = self.match_token(&TokenType::DotDotDot);
            let name = match self.identifier_here() {
                Some(n) => n,
                None => return Err(self.syntax_error("Expected parameter name")),
            };
            self.advance();
            let default_value = if is_variadic {
                if self.check(&TokenType::Equal) {
                    return Err(self.syntax_error("Variadic parameters cannot have default values"));
                }
                None
            } else if self.match_token(&TokenType::Equal) {
                match self.expression() {
                    Ok(e) => Some(e),
                    Err(e) => return Err(e),
                }
            } else {
                None
            };
            params.push(Parameter { name, default_value, is_variadic });
            proof {
                super::lemma_next_is(*self, TokenType::Comma);
                super::lemma_next_is(*self, TokenType::Equal);
            }
            if !self.match_token(&TokenType::Comma) {
                break;
            }
        }
        Ok(params)
    }

    /// `fn name(..) { .. }`, `fn Receiver.name(..) when guard { .. }`, a
    /// setter (`set`) or a static method, after the keyword.  The body is
    /// either statements or pattern clauses `|pattern| => value`.
    pub(super) fn function_declaration(&mut self, is_private: bool, is_setter: bool, is_static: bool) -> (r: Result<
        Stmt,
        GraphoidError,
    >)
        requires
            old(self).wf(),
        ensures
            r matches Ok(s) ==> s is FunctionDecl,
            parsed(*old(self), *final(self), r),
            r matches Ok(Stmt::FunctionDecl { name, receiver, params, body, pattern_clauses, is_private: p, is_setter: st, is_static: sc, .. }) ==> {
                &&& p == is_private && st == is_setter && sc == is_static
                &&& (is_setter ==> params@.len() == 1)
                &&& (is_static ==> receiver is Some)
                &&& (pattern_clauses matches Some(c) ==> (c@.len() > 0 && body@.len() == 0))
                &&& (receiver is None ==> old(self).next_token().token_type == TokenType::Identifier(name))
                &&& (receiver matches Some(rc) ==> (old(self).next_token().token_type == TokenType::Identifier(rc)
                    && old(self).tokens()[old(self).position() + 2int].token_type == TokenType::Identifier(name)))
            },
            old(self).next_token().token_type is Identifier && token_ahead(*old(self), 1) is Less
                ==> (r matches Err(e) && syntax_error_is(e,
                    "Generic functions are not supported in Graphoid. Use duck typing instead - functions work on values, not types. See: dev_docs/NO_GENERICS_POLICY.md"@,
                    old(self).tokens()[old(self).position() + 1int])),
            simple_function(*old(self)) matches Some((n, ps, b, j, k)) ==> {
                if is_setter && ps.len() != 1 {
                    r matches Err(e) && syntax_error_is(e,
                        "Setters must have exactly one parameter (the value being assigned)."@,
                        old(self).tokens()[j + 1])
                } else if is_static {
                    r matches Err(e) && syntax_error_is(e,
                        "Static methods must be attached to a graph. Use `static fn GraphName.method_name()`."@,
                        old(self).tokens()[j + 1])
                } else {
                    &&& r matches Ok(Stmt::FunctionDecl { name: nm, receiver: None, params: pv, body: bv, pattern_clauses: None,
                        is_private: pr, is_setter: st, is_static: sc, guard: None, position })
                        && nm == n && pv@ == ps && bv@ == b && pr == is_private && st == is_setter && sc == is_static
                        && position == previous_token_position(*old(self))
                    &&& final(self).position() == k + 1
                }
            },
        decreases old(self).remaining(), 30int,
    {
        let position = self.previous_position();
        let first_ident = match self.identifier_here() {
            Some(n) => n,
            None => return Err(self.syntax_error("Expected function name")),
        };
        self.advance();
        let (name, receiver) = if self.match_token(&TokenType::Dot) {
            let method_name = match self.identifier_here() {
                Some(n) => n,
                None => return Err(self.syntax_error("Expected method name after '.'")),
            };
            self.advance();
            (method_name, Some(first_ident))
        } else {
            (first_ident, None)
        };
        proof {
            super::lemma_next_is(*self, TokenType::Less);
            super::lemma_next_is(*self, TokenType::Dot);
        }
        if self.check(&TokenType::Less) {
            return Err(self.syntax_error(
                "Generic functions are not supported in Graphoid. Use duck typing instead - functions work on values, not types. See: dev_docs/NO_GENERICS_POLICY.md",
            ));
        }
        if !self.match_token(&TokenType::LeftParen) {
            return Err(self.syntax_error("Expected '(' after function name"));
        }
        let params = match self.parameters() {
            Ok(p) => p,
            Err(e) => return Err(e),
        };
        if !self.match_token(&TokenType::RightParen) {
            return Err(self.syntax_error("Expected ')' after parameters"));
        }
        if is_setter && params.len() != 1 {
            return Err(self.syntax_error(
                "Setters must have exactly one parameter (the value being assigned).",
            ));
        }
        if is_static && receiver.is_none() {
            return Err(self.syntax_error(
                "Static methods must be attached to a graph. Use `static fn GraphName.method_name()`.",
            ));
        }
        let guard = if self.match_token(&TokenType::When) {
            match self.expression() {
                Ok(e) => Some(Box::new(e)),
                Err(e) => return Err(e),
            }
        } else {
            None
        };
        if !self.match_token(&TokenType::LeftBrace) {
            return Err(self.syntax_error("Expected '{' before function body"));
        }
        self.skip_newlines();
        proof {
            super::lemma_next_is(*self, TokenType::Pipe);
        }
        let (body, pattern_clauses) = if self.check(&TokenType::Pipe) {
            let mut clauses: Vec<PatternClause> = Vec::new();
            while self.check(&TokenType::Pipe)
                invariant
                    progressed(*old(self), *self),
                    !(old(self).next_token().token_type is Identifier && token_ahead(*old(self), 1) is Less),
                    simple_function(*old(self)) is None,
                decreases self.remaining(),
            {
                let clause = match self.parse_pattern_clause() {
                    Ok(c) => c,
                    Err(e) => return Err(e),
                };
                clauses.push(clause);
                self.skip_newlines();
            }
            if clauses.len() == 0 {
                return Err(self.syntax_error("Pattern matching function must have at least one pattern clause"));
            }
            (Vec::new(), Some(clauses))
        } else {
            match self.block() {
                Ok(b) => (b, None),
                Err(e) => return Err(e),
            }
        };
        if !self.match_token(&TokenType::RightBrace) {
            return Err(self.syntax_error("Expected '}' after function body"));
        }
        Ok(Stmt::FunctionDecl {
            name,
            receiver,
            params,
            body,
            pattern_clauses,
            is_private,
            is_setter,
            is_static,
            guard,
            position,
        })
    }

    /// `{ statements }` after an opening brace that was already read, with
    /// the closing brace; `what` names the construct in the error message.
    pub(super) fn braced_body(&mut self, message: &str) -> (r: Result<Vec<Stmt>, GraphoidError>)
        requires
            old(self).wf(),
        ensures
            parsed(*old(self), *final(self), r),
            simple_body(old(self).tokens(), old(self).position() as int) matches Some((b, k)) ==> {
                &&& r matches Ok(v) && v@ == b
                &&& final(self).position() == k + 1
            },
        decreases old(self).remaining(), 52int,
    {
        let stmts = match self.block() {
            Ok(b) => b,
            Err(e) => return Err(e),
        };
        if !self.match_token(&TokenType::RightBrace) {
            return Err(self.syntax_error(message));
        }
        Ok(stmts)
    }

    /// `if cond { .. } else { .. }` or `if cond then stmt else stmt`, after
    /// `if`.
    pub(super) fn if_statement(&mut self) -> (r: Result<Stmt, GraphoidError>)
        requires
            old(self).wf(),
        ensures
            r matches Ok(s) ==> s is If,
            parsed(*old(self), *final(self), r),
            literal_then_body(*old(self)) matches Some((b, k)) ==> (k + 1 < old(self).tokens().len()
                && !(old(self).tokens()[k + 1].token_type is Else) ==> {
                &&& r matches Ok(Stmt::If { condition, then_branch, else_branch: None, position })
                    && condition == operand_expr(old(self).next_token()) && then_branch@ == b
                    && position == previous_token_position(*old(self))
                &&& final(self).position() == k + 1
            }),
        decreases old(self).remaining(), 30int,
    {
        let position = self.previous_position();
        let condition = match self.expression() {
            Ok(e) => e,
            Err(e) => return Err(e),
        };
        let has_then = self.match_token(&TokenType::Then);
        let has_brace = self.match_token(&TokenType::LeftBrace);
        if !has_then && !has_brace {
            return Err(self.syntax_error("Expected 'then' or '{' after if condition"));
        }
        let then_branch = if has_brace {
            match self.braced_body("Expected '}' after if body") {
                Ok(b) => b,
                Err(e) => return Err(e),
            }
        } else {
            match self.statement() {
                Ok(s) => vec![s],
                Err(e) => return Err(e),
            }
        };
        let else_branch = if self.match_token(&TokenType::Else) {
            if self.match_token(&TokenType::LeftBrace) {
                match self.braced_body("Expected '}' after else body") {
                    Ok(b) => Some(b),
                    Err(e) => return Err(e),
                }
            } else {
                match self.statement() {
                    Ok(s) => Some(vec![s]),
                    Err(e) => return Err(e),
                }
            }
        } else {
            None
        };
        Ok(Stmt::If { condition, then_branch, else_branch, position })
    }

    /// `while cond { .. }`, after `while`.
    pub(super) fn while_statement(&mut self) -> (r: Result<Stmt, GraphoidError>)
        requires
            old(self).wf(),
        ensures
            r matches Ok(s) ==> s is While,
            parsed(*old(self), *final(self), r),
            literal_then_body(*old(self)) matches Some((b, k)) ==> {
                &&& r matches Ok(Stmt::While { condition, body, position })
                    && condition == operand_expr(old(self).next_token()) && body@ == b
                    && position == previous_token_position(*old(self))
                &&& final(self).position() == k + 1
            },
        decreases old(self).remaining(), 30int,
    {
        let position = self.previous_position();
        let condition = match self.expression() {
            Ok(e) => e,
            Err(e) => return Err(e),
        };
        if !self.match_token(&TokenType::LeftBrace) {
            return Err(self.syntax_error("Expected '{' after while condition"));
        }
        let body = match self.braced_body("Expected '}' after while body") {
            Ok(b) => b,
            Err(e) => return Err(e),
        };
        Ok(Stmt::While { condition, body, position })
    }

    /// `for name in iterable { .. }`, after `for`.
    pub(super) fn for_statement(&mut self) -> (r: Result<Stmt, GraphoidError>)
        requires
            old(self).wf(),
        ensures
            r matches Ok(s) ==> s is For,
            parsed(*old(self), *final(self), r),
            r matches Ok(Stmt::For { variable, position, .. }) ==> {
                &&& token_ahead(*old(self), 0) == TokenType::Identifier(variable)
                &&& token_ahead(*old(self), 1) is In
                &&& position == previous_token_position(*old(self))
            },
        decreases old(self).remaining(), 30int,
    {
        let position = self.previous_position();
        let variable = match self.identifier_here() {
            Some(v) => v,
            None => return Err(self.syntax_error("Expected variable name in for loop")),
        };
        self.advance();
        if !self.match_token(&TokenType::In) {
            return Err(self.syntax_error("Expected 'in' after for variable"));
        }
        let iterable = match self.expression() {
            Ok(e) => e,
            Err(e) => return Err(e),
        };
        if !self.match_token(&TokenType::LeftBrace) {
            return Err(self.syntax_error("Expected '{' after for clause"));
        }
        let body = match self.braced_body("Expected '}' after for body") {
            Ok(b) => b,
            Err(e) => return Err(e),
        };
        Ok(Stmt::For { variable, iterable, body, position })
    }

    /// `return` or `return value`, after `return`.
    pub(super) fn return_statement(&mut self) -> (r: Result<Stmt, GraphoidError>)
        requires
            old(self).wf(),
        ensures
            r matches Ok(s) ==> s is Return,
            scanned(*old(self), *final(self), r),
            (token_ahead(*old(self), 0) is Newline || token_ahead(*old(self), 0) is Eof) ==> {
                &&& r == Ok::<Stmt, GraphoidError>(Stmt::Return { value: None, position: previous_token_position(*old(self)) })
                &&& final(self).position() == old(self).position()
            },
            r matches Ok(Stmt::Return { value, position }) ==> {
                &&& (value is None <==> (token_ahead(*old(self), 0) is Newline || token_ahead(*old(self), 0) is Eof))
                &&& position == previous_token_position(*old(self))
            },
        decreases old(self).remaining(), 30int,
    {
        let position = self.previous_position();
        let value = if self.check(&TokenType::Newline) || self.is_at_end() {
            None
        } else {
            match self.expression() {
                Ok(e) => Some(e),
                Err(e) => return Err(e),
            }
        };
        Ok(Stmt::Return { value, position })
    }

    /// `import "module"` or `import "module" as name`, after `import`.
    pub(super) fn import_statement(&mut self) -> (r: Result<Stmt, GraphoidError>)
        requires
            old(self).wf(),
        ensures
            r matches Ok(s) ==> s is Import,
            parsed(*old(self), *final(self), r),
            r is Ok <==> (token_ahead(*old(self), 0) is String
                && (token_ahead(*old(self), 1) is As ==> token_ahead(*old(self), 2) is Identifier)),
            r is Ok ==> r == Ok::<Stmt, GraphoidError>(Stmt::Import {
                module: token_text(token_ahead(*old(self), 0))->0,
                alias: if token_ahead(*old(self), 1) is As { token_text(token_ahead(*old(self), 2)) } else { None },
                position: previous_token_position(*old(self)),
            }),
    {
        let position = self.previous_position();
        let module = match self.string_here() {
            Some(m) => m,
            None => return Err(self.syntax_error("Expected string literal after 'import'")),
        };
        self.advance();
        let alias = if self.match_token(&TokenType::As) {
            match self.identifier_here() {
                Some(a) => {
                    self.advance();
                    Some(a)
                },
                None => return Err(self.syntax_error("Expected identifier after 'as'")),
            }
        } else {
            None
        };
        Ok(Stmt::Import { module, alias, position })
    }

    /// `load "path"`, after `load`.
    pub(super) fn load_statement(&mut self) -> (r: Result<Stmt, GraphoidError>)
        requires
            old(self).wf(),
        ensures
            r matches Ok(s) ==> s is Load,
            parsed(*old(self), *final(self), r),
            r is Ok <==> token_ahead(*old(self), 0) is String,
            r is Ok ==> r == Ok::<Stmt, GraphoidError>(Stmt::Load {
                path: token_text(token_ahead(*old(self), 0))->0,
                position: previous_token_position(*old(self)),
            }),
    {
        let position = self.previous_position();
        let path = match self.string_here() {
            Some(p) => p,
            None => return Err(self.syntax_error("Expected string literal after 'load'")),
        };
        self.advance();
        Ok(Stmt::Load { path, position })
    }

    /// `module name` or `module name alias short`, after `module`.
    pub(super) fn module_declaration(&mut self) -> (r: Result<Stmt, GraphoidError>)
        requires
            old(self).wf(),
        ensures
            r matches Ok(s) ==> s is ModuleDecl,
            parsed(*old(self), *final(self), r),
            r is Ok <==> (token_ahead(*old(self), 0) is Identifier
                && (token_ahead(*old(self), 1) is Alias ==> token_ahead(*old(self), 2) is Identifier)),
            r is Ok ==> r == Ok::<Stmt, GraphoidError>(Stmt::ModuleDecl {
                name: token_text(token_ahead(*old(self), 0))->0,
                alias: if token_ahead(*old(self), 1) is Alias { token_text(token_ahead(*old(self), 2)) } else { None },
                position: previous_token_position(*old(self)),
            }),
    {
        let position = self.previous_position();
        let name = match self.identifier_here() {
            Some(n) => n,
            None => return Err(self.syntax_error("Expected module name")),
        };
        self.advance();
        let alias = if self.match_token(&TokenType::Alias) {
            match self.identifier_here() {
                Some(a) => {
                    self.advance();
                    Some(a)
                },
                None => return Err(self.syntax_error("Expected identifier after 'alias'")),
            }
        } else {
            None
        };
        Ok(Stmt::ModuleDecl { name, alias, position })
    }

    /// Statements up to (not including) `}` or `Eof`, line breaks skipped.
    pub(super) fn block(&mut self) -> (r: Result<Vec<Stmt>, GraphoidError>)
        requires
            old(self).wf(),
        ensures
            scanned(*old(self), *final(self), r),
            r is Ok ==> final(self).next_token().token_type is RightBrace || final(self).next_token().token_type is Eof,
            r matches Ok(ss) ==> (ss@.len() == 0 <==> only_newlines(
                old(self).tokens(),
                old(self).position() as int,
                final(self).position() as int,
            )),
            simple_body(old(self).tokens(), old(self).position() as int) matches Some((ss, j)) ==> {
                &&& r matches Ok(v) && v@ == ss
                &&& final(self).position() == j
            },
        decreases old(self).remaining(), 51int,
    {
        let mut statements: Vec<Stmt> = Vec::new();
        proof {
            super::lemma_next_is(*self, TokenType::RightBrace);
        }
        while !self.check(&TokenType::RightBrace) && !self.is_at_end()
            invariant
                advanced(*old(self), *self),
                statements@.len() == 0 <==> only_newlines(old(self).tokens(), old(self).position() as int, self.position() as int),
                simple_body(old(self).tokens(), old(self).position() as int) is Some ==> {
                    ||| self.position() == old(self).position() && statements@.len() == 0
                    ||| statements@ == (simple_body(old(self).tokens(), old(self).position() as int)->0).0
                        && self.position() == (simple_body(old(self).tokens(), old(self).position() as int)->0).1
                },
            decreases self.remaining(),
        {
            let ghost before = *self;
            if self.match_token(&TokenType::Newline) {
                proof {
                    assert(before.next_token().token_type is Newline);
                }
                continue;
            }
            let stmt = match self.statement() {
                Ok(s) => s,
                Err(e) => return Err(e),
            };
            proof {
                assert(!(before.next_token().token_type is Newline));
            }
            statements.push(stmt);
            proof {
                super::lemma_next_is(*self, TokenType::RightBrace);
            }
        }
        proof {
            super::lemma_next_is(*self, TokenType::RightBrace);
        }
        Ok(statements)
    }

    /// A command-style call statement, an assignment `target = value`, or
    /// an expression statement.
    pub(super) fn assignment_or_expression(&mut self) -> (r: Result<Stmt, GraphoidError>)
        requires
            old(self).wf(),
        ensures
            parsed(*old(self), *final(self), r),
            lone_operand(*old(self)) ==> {
                &&& r == Ok::<Stmt, GraphoidError>(Stmt::Expression {
                    expr: operand_expr(old(self).next_token()),
                    position: token_position(old(self).next_token()),
                })
                &&& final(self).position() == old(self).position() + 1
            },
            binary_statement(*old(self)) ==> {
                &&& r == Ok::<Stmt, GraphoidError>(Stmt::Expression {
                    expr: binary_expr(*old(self)),
                    position: token_position(old(self).next_token()),
                })
                &&& final(self).position() == old(self).position() + 3
            },
        decreases old(self).remaining(), 46int,
    {
        let position = self.peek().position();
        match self.try_command_style_call() {
            Ok(Some(stmt)) => return Ok(stmt),
            Ok(None) => {},
            Err(e) => return Err(e),
        }
        if self.identifier_here().is_some() {
            let checkpoint = self.current;
            let expr = match self.expression() {
                Ok(e) => e,
                Err(e) => return Err(e),
            };
            if self.match_token(&TokenType::Equal) {
                let target = match expr {
                    Expr::Variable { name, .. } => AssignmentTarget::Variable(name),
                    Expr::Index { object, index, .. } => AssignmentTarget::Index { object, index },
                    Expr::PropertyAccess { object, property, .. } => AssignmentTarget::Property { object, property },
                    _ => return Err(error_at("Invalid assignment target", position)),
                };
                let value = match self.lambda_or_expression() {
                    Ok(e) => e,
                    Err(e) => return Err(e),
                };
                return Ok(Stmt::Assignment { target, value, position });
            } else {
                self.current = checkpoint;
            }
        }
        let expr = match self.expression() {
            Ok(e) => e,
            Err(e) => return Err(e),
        };
        Ok(Stmt::Expression { expr, position })
    }

    /// `name literal.. { block }` as a call whose last argument is the
    /// block; nothing is read (and `None` returned) when the tokens do not
    /// have that shape.
    pub(super) fn try_command_style_call(&mut self) -> (r: Result<Option<Stmt>, GraphoidError>)
        requires
            old(self).wf(),
        ensures
            scanned(*old(self), *final(self), r),
            r matches Ok(Some(_)) ==> progressed(*old(self), *final(self)),
            r matches Ok(None) ==> final(self).position() == old(self).position(),
            lone_operand(*old(self)) ==> r == Ok::<Option<Stmt>, GraphoidError>(None),
            simple_binary(*old(self)) ==> r == Ok::<Option<Stmt>, GraphoidError>(None),
            r == Ok::<Option<Stmt>, GraphoidError>(None) <==> !(old(self).next_token().token_type is Identifier
                && reaches_command_block(old(self).tokens(), old(self).position() + 1int)),
            r matches Ok(Some(s)) ==> (s matches Stmt::Expression { expr: Expr::Call { callee, args, position: cp }, position: sp }
                && old(self).next_token().token_type matches TokenType::Identifier(name)
                && *callee == (Expr::Variable { name, position: token_position(old(self).next_token()) })
                && cp == token_position(old(self).next_token()) && sp == cp
                && args@.len() > 0),
        decreases old(self).remaining(), 45int,
    {
        let func_name = match self.identifier_here() {
            Some(n) => n,
            None => return Ok(None),
        };
        let position = self.peek().position();
        let checkpoint = self.current;
        self.advance();
        if !self.is_command_arg_start() {
            self.current = checkpoint;
            return Ok(None);
        }
        let mut args: Vec<Argument> = Vec::new();
        while self.is_command_arg_start() && !self.check(&TokenType::LeftBrace)
            invariant
                progressed(*old(self), *self),
                checkpoint == old(self).position(),
                !lone_operand(*old(self)),
                !simple_binary(*old(self)),
                old(self).next_token().token_type is Identifier,
                reaches_command_block(old(self).tokens(), old(self).position() + 1int)
                    == reaches_command_block(self.tokens(), self.position() as int),
            decreases self.remaining(),
        {
            let ghost before = *self;
            proof {
                super::lemma_next_is(*self, TokenType::LeftBrace);
            }
            let arg = match self.command_arg() {
                Ok(e) => e,
                Err(e) => return Err(e),
            };
            args.push(Argument::Positional { expr: arg, mutable: false });
            let ghost mid = *self;
            self.match_token(&TokenType::Comma);
            proof {
                super::lemma_next_is(mid, TokenType::Comma);
                assert(reaches_command_block(before.tokens(), before.position() as int)
                    == reaches_command_block(self.tokens(), self.position() as int));
            }
        }
        proof {
            super::lemma_next_is(*self, TokenType::LeftBrace);
        }
        if !self.check(&TokenType::LeftBrace) {
            self.current = checkpoint;
            return Ok(None);
        }
        let block_lambda = match self.parse_command_block() {
            Ok(e) => e,
            Err(e) => return Err(e),
        };
        args.push(Argument::Positional { expr: block_lambda, mutable: false });
        let callee = Box::new(Expr::Variable { name: func_name, position });
        let call_expr = Expr::Call { callee, args, position };
        Ok(Some(Stmt::Expression { expr: call_expr, position }))
    }
}

} // verus!
