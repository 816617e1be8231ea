//! Expressions, by precedence climbing from the conditional form down to
//! primary expressions.

use vstd::prelude::*;
use crate::ast::{Argument, BinaryOp, Expr, LiteralValue, MatchArm, MatchPattern, Stmt, UnaryOp};
use crate::error::GraphoidError;
use crate::text::{is_word, push_char, str_eq};
use crate::token::{describe, kind, TokenType};
use super::{mul_then_power, op_run, op_chain, unary_op, entry_key, ends_expression, simple_match_at, simple_match, token_pattern, simple_suffix_len, simple_suffix_expr, is_operand, literal_block_conditional, syntax_error_is, power_chain, only_newlines, binary_expr, lemma_binary_operator_level, token_text, type_name_token, error_at, lone_operand, operand_below, simple_binary, token_ahead, operator_level, pattern_literal, starts_command_arg, operand_expr, parsed, progressed, scanned, token_literal, token_position, Parser};

verus! {

impl Parser {
    pub(super) fn expression(&mut self) -> (r: Result<Expr, GraphoidError>)
        requires
            old(self).wf(),
        ensures
            parsed(*old(self), *final(self), r),
            lone_operand(*old(self)) ==> {
                &&& r == Ok::<Expr, GraphoidError>(operand_expr(old(self).next_token()))
                &&& final(self).position() == old(self).position() + 1
            },
            simple_binary(*old(self)) ==> {
                &&& r == Ok::<Expr, GraphoidError>(binary_expr(*old(self)))
                &&& final(self).position() == old(self).position() + 3
            },
            operand_below(*old(self), 1) ==> {
                &&& r == Ok::<Expr, GraphoidError>(operand_expr(old(self).next_token()))
                &&& final(self).position() == old(self).position() + 1
            },
        decreases old(self).remaining(), 20int,
    {
        self.conditional_expression()
    }

    /// `value if cond`, `value if cond else other`, `value unless cond`.
    pub(super) fn conditional_expression(&mut self) -> (r: Result<Expr, GraphoidError>)
        requires
            old(self).wf(),
        ensures
            parsed(*old(self), *final(self), r),
            operand_below(*old(self), 1) ==> {
                &&& r == Ok::<Expr, GraphoidError>(operand_expr(old(self).next_token()))
                &&& final(self).position() == old(self).position() + 1
            },
            simple_binary(*old(self)) ==> {
                &&& r == Ok::<Expr, GraphoidError>(binary_expr(*old(self)))
                &&& final(self).position() == old(self).position() + 3
            },
        decreases old(self).remaining(), 19int,
    {
        proof {
            if simple_binary(*old(self)) {
                lemma_binary_operator_level(token_ahead(*old(self), 1));
            }
        }
        let expr = match self.or_expression() {
            Ok(e) => e,
            Err(e) => return Err(e),
        };
        if self.check(&TokenType::If) || self.check(&TokenType::Unless) {
            let is_unless = self.check(&TokenType::Unless);
            let if_position = self.peek().position();
            self.advance();
            let condition = match self.or_expression() {
                Ok(e) => e,
                Err(e) => return Err(e),
            };
            if self.match_token(&TokenType::Else) {
                if is_unless {
                    return Err(error_at("'unless' cannot be used with 'else'", if_position));
                }
                let else_expr = match self.or_expression() {
                    Ok(e) => e,
                    Err(e) => return Err(e),
                };
                return Ok(Expr::Conditional {
                    condition: Box::new(condition),
                    then_expr: Box::new(expr),
                    else_expr: Some(Box::new(else_expr)),
                    is_unless: false,
                    position: if_position,
                });
            } else {
                if self.check(&TokenType::LeftBrace) {
                    return Err(self.syntax_error(
                        "Suffix conditional (value if condition) cannot have a block. Did you mean to use a statement-level if?",
                    ));
                }
                return Ok(Expr::Conditional {
                    condition: Box::new(condition),
                    then_expr: Box::new(expr),
                    else_expr: None,
                    is_unless,
                    position: if_position,
                });
            }
        }
        Ok(expr)
    }

    /// `a or b`, `a || b` (left associative).
    pub(super) fn or_expression(&mut self) -> (r: Result<Expr, GraphoidError>)
        requires
            old(self).wf(),
        ensures
            parsed(*old(self), *final(self), r),
            operand_below(*old(self), 2) ==> {
                &&& r == Ok::<Expr, GraphoidError>(operand_expr(old(self).next_token()))
                &&& final(self).position() == old(self).position() + 1
            },
            simple_binary(*old(self)) && operator_level(token_ahead(*old(self), 1)) >= 2 ==> {
                &&& r == Ok::<Expr, GraphoidError>(binary_expr(*old(self)))
                &&& final(self).position() == old(self).position() + 3
            },
        decreases old(self).remaining(), 18int,
    {
        let mut expr = match self.and_expression() {
            Ok(e) => e,
            Err(e) => return Err(e),
        };
        loop
            invariant
                progressed(*old(self), *self),
                operand_below(*old(self), 2) ==> (self.position() == old(self).position() + 1
                    && expr == operand_expr(old(self).next_token())),
                simple_binary(*old(self)) && operator_level(token_ahead(*old(self), 1)) > 2
                    ==> (self.position() == old(self).position() + 3 && expr == binary_expr(*old(self))),
                simple_binary(*old(self)) && operator_level(token_ahead(*old(self), 1)) == 2
                    ==> ((self.position() == old(self).position() + 1 && expr == operand_expr(old(self).next_token()))
                        || (self.position() == old(self).position() + 3 && expr == binary_expr(*old(self)))),
            ensures
                progressed(*old(self), *self),
                operand_below(*old(self), 2) ==> (self.position() == old(self).position() + 1
                    && expr == operand_expr(old(self).next_token())),
                simple_binary(*old(self)) && operator_level(token_ahead(*old(self), 1)) >= 2
                    ==> (self.position() == old(self).position() + 3 && expr == binary_expr(*old(self))),
            decreases self.remaining(),
        {
            if !(self.match_token(&TokenType::Or) || self.match_token(&TokenType::PipePipe)) {
                break;
            }
            let position = self.previous_position();
            let right = match self.and_expression() {
                Ok(e) => e,
                Err(e) => return Err(e),
            };
            expr = Expr::Binary { left: Box::new(expr), op: BinaryOp::Or, right: Box::new(right), position };
        }
        Ok(expr)
    }

    /// `a and b`, `a && b` (left associative).
    pub(super) fn and_expression(&mut self) -> (r: Result<Expr, GraphoidError>)
        requires
            old(self).wf(),
        ensures
            parsed(*old(self), *final(self), r),
            operand_below(*old(self), 3) ==> {
                &&& r == Ok::<Expr, GraphoidError>(operand_expr(old(self).next_token()))
                &&& final(self).position() == old(self).position() + 1
            },
            simple_binary(*old(self)) && operator_level(token_ahead(*old(self), 1)) >= 3 ==> {
                &&& r == Ok::<Expr, GraphoidError>(binary_expr(*old(self)))
                &&& final(self).position() == old(self).position() + 3
            },
        decreases old(self).remaining(), 17int,
    {
        let mut expr = match self.equality() {
            Ok(e) => e,
            Err(e) => return Err(e),
        };
        loop
            invariant
                progressed(*old(self), *self),
                operand_below(*old(self), 3) ==> (self.position() == old(self).position() + 1
                    && expr == operand_expr(old(self).next_token())),
                simple_binary(*old(self)) && operator_level(token_ahead(*old(self), 1)) > 3
                    ==> (self.position() == old(self).position() + 3 && expr == binary_expr(*old(self))),
                simple_binary(*old(self)) && operator_level(token_ahead(*old(self), 1)) == 3
                    ==> ((self.position() == old(self).position() + 1 && expr == operand_expr(old(self).next_token()))
                        || (self.position() == old(self).position() + 3 && expr == binary_expr(*old(self)))),
            ensures
                progressed(*old(self), *self),
                operand_below(*old(self), 3) ==> (self.position() == old(self).position() + 1
                    && expr == operand_expr(old(self).next_token())),
                simple_binary(*old(self)) && operator_level(token_ahead(*old(self), 1)) >= 3
                    ==> (self.position() == old(self).position() + 3 && expr == binary_expr(*old(self))),
            decreases self.remaining(),
        {
            if !(self.match_token(&TokenType::And) || self.match_token(&TokenType::AmpersandAmpersand)) {
                break;
            }
            let position = self.previous_position();
            let right = match self.equality() {
                Ok(e) => e,
                Err(e) => return Err(e),
            };
            expr = Expr::Binary { left: Box::new(expr), op: BinaryOp::And, right: Box::new(right), position };
        }
        Ok(expr)
    }

    /// `==`, `!=`, `=~`, `!~`, `.==`, `.!=` (left associative).
    pub(super) fn equality(&mut self) -> (r: Result<Expr, GraphoidError>)
        requires
            old(self).wf(),
        ensures
            parsed(*old(self), *final(self), r),
            operand_below(*old(self), 4) ==> {
                &&& r == Ok::<Expr, GraphoidError>(operand_expr(old(self).next_token()))
                &&& final(self).position() == old(self).position() + 1
            },
            simple_binary(*old(self)) && operator_level(token_ahead(*old(self), 1)) >= 4 ==> {
                &&& r == Ok::<Expr, GraphoidError>(binary_expr(*old(self)))
                &&& final(self).position() == old(self).position() + 3
            },
        decreases old(self).remaining(), 16int,
    {
        let mut expr = match self.comparison() {
            Ok(e) => e,
            Err(e) => return Err(e),
        };
        loop
            invariant
                progressed(*old(self), *self),
                operand_below(*old(self), 4) ==> (self.position() == old(self).position() + 1
                    && expr == operand_expr(old(self).next_token())),
                simple_binary(*old(self)) && operator_level(token_ahead(*old(self), 1)) > 4
                    ==> (self.position() == old(self).position() + 3 && expr == binary_expr(*old(self))),
                simple_binary(*old(self)) && operator_level(token_ahead(*old(self), 1)) == 4
                    ==> ((self.position() == old(self).position() + 1 && expr == operand_expr(old(self).next_token()))
                        || (self.position() == old(self).position() + 3 && expr == binary_expr(*old(self)))),
            ensures
                progressed(*old(self), *self),
                operand_below(*old(self), 4) ==> (self.position() == old(self).position() + 1
                    && expr == operand_expr(old(self).next_token())),
                simple_binary(*old(self)) && operator_level(token_ahead(*old(self), 1)) >= 4
                    ==> (self.position() == old(self).position() + 3 && expr == binary_expr(*old(self))),
            decreases self.remaining(),
        {
            let op = if self.match_token(&TokenType::EqualEqual) {
                BinaryOp::Equal
            } else if self.match_token(&TokenType::BangEqual) {
                BinaryOp::NotEqual
            } else if self.match_token(&TokenType::RegexMatch) {
                BinaryOp::RegexMatch
            } else if self.match_token(&TokenType::RegexNoMatch) {
                BinaryOp::RegexNoMatch
            } else if self.match_token(&TokenType::DotEqualEqual) {
                BinaryOp::DotEqual
            } else if self.match_token(&TokenType::DotBangEqual) {
                BinaryOp::DotNotEqual
            } else {
                break;
            };
            let position = self.previous_position();
            let right = match self.comparison() {
                Ok(e) => e,
                Err(e) => return Err(e),
            };
            expr = Expr::Binary { left: Box::new(expr), op, right: Box::new(right), position };
        }
        Ok(expr)
    }

    /// `<`, `<=`, `>`, `>=` and their element-wise forms (left associative).
    pub(super) fn comparison(&mut self) -> (r: Result<Expr, GraphoidError>)
        requires
            old(self).wf(),
        ensures
            parsed(*old(self), *final(self), r),
            operand_below(*old(self), 5) ==> {
                &&& r == Ok::<Expr, GraphoidError>(operand_expr(old(self).next_token()))
                &&& final(self).position() == old(self).position() + 1
            },
            simple_binary(*old(self)) && operator_level(token_ahead(*old(self), 1)) >= 5 ==> {
                &&& r == Ok::<Expr, GraphoidError>(binary_expr(*old(self)))
                &&& final(self).position() == old(self).position() + 3
            },
        decreases old(self).remaining(), 15int,
    {
        let mut expr = match self.bitwise_or() {
            Ok(e) => e,
            Err(e) => return Err(e),
        };
        loop
            invariant
                progressed(*old(self), *self),
                operand_below(*old(self), 5) ==> (self.position() == old(self).position() + 1
                    && expr == operand_expr(old(self).next_token())),
                simple_binary(*old(self)) && operator_level(token_ahead(*old(self), 1)) > 5
                    ==> (self.position() == old(self).position() + 3 && expr == binary_expr(*old(self))),
                simple_binary(*old(self)) && operator_level(token_ahead(*old(self), 1)) == 5
                    ==> ((self.position() == old(self).position() + 1 && expr == operand_expr(old(self).next_token()))
                        || (self.position() == old(self).position() + 3 && expr == binary_expr(*old(self)))),
            ensures
                progressed(*old(self), *self),
                operand_below(*old(self), 5) ==> (self.position() == old(self).position() + 1
                    && expr == operand_expr(old(self).next_token())),
                simple_binary(*old(self)) && operator_level(token_ahead(*old(self), 1)) >= 5
                    ==> (self.position() == old(self).position() + 3 && expr == binary_expr(*old(self))),
            decreases self.remaining(),
        {
            let op = if self.match_token(&TokenType::Less) {
                BinaryOp::Less
            } else if self.match_token(&TokenType::LessEqual) {
                BinaryOp::LessEqual
            } else if self.match_token(&TokenType::Greater) {
                BinaryOp::Greater
            } else if self.match_token(&TokenType::GreaterEqual) {
                BinaryOp::GreaterEqual
            } else if self.match_token(&TokenType::DotLess) {
                BinaryOp::DotLess
            } else if self.match_token(&TokenType::DotLessEqual) {
                BinaryOp::DotLessEqual
            } else if self.match_token(&TokenType::DotGreater) {
                BinaryOp::DotGreater
            } else if self.match_token(&TokenType::DotGreaterEqual) {
                BinaryOp::DotGreaterEqual
            } else {
                break;
            };
            let position = self.previous_position();
            let right = match self.bitwise_or() {
                Ok(e) => e,
                Err(e) => return Err(e),
            };
            expr = Expr::Binary { left: Box::new(expr), op, right: Box::new(right), position };
        }
        Ok(expr)
    }

    /// `|` (left associative).
    pub(super) fn bitwise_or(&mut self) -> (r: Result<Expr, GraphoidError>)
        requires
            old(self).wf(),
        ensures
            parsed(*old(self), *final(self), r),
            operand_below(*old(self), 6) ==> {
                &&& r == Ok::<Expr, GraphoidError>(operand_expr(old(self).next_token()))
                &&& final(self).position() == old(self).position() + 1
            },
            simple_binary(*old(self)) && operator_level(token_ahead(*old(self), 1)) >= 6 ==> {
                &&& r == Ok::<Expr, GraphoidError>(binary_expr(*old(self)))
                &&& final(self).position() == old(self).position() + 3
            },
        decreases old(self).remaining(), 14int,
    {
        let mut expr = match self.bitwise_xor() {
            Ok(e) => e,
            Err(e) => return Err(e),
        };
        loop
            invariant
                progressed(*old(self), *self),
                operand_below(*old(self), 6) ==> (self.position() == old(self).position() + 1
                    && expr == operand_expr(old(self).next_token())),
                simple_binary(*old(self)) && operator_level(token_ahead(*old(self), 1)) > 6
                    ==> (self.position() == old(self).position() + 3 && expr == binary_expr(*old(self))),
                simple_binary(*old(self)) && operator_level(token_ahead(*old(self), 1)) == 6
                    ==> ((self.position() == old(self).position() + 1 && expr == operand_expr(old(self).next_token()))
                        || (self.position() == old(self).position() + 3 && expr == binary_expr(*old(self)))),
            ensures
                progressed(*old(self), *self),
                operand_below(*old(self), 6) ==> (self.position() == old(self).position() + 1
                    && expr == operand_expr(old(self).next_token())),
                simple_binary(*old(self)) && operator_level(token_ahead(*old(self), 1)) >= 6
                    ==> (self.position() == old(self).position() + 3 && expr == binary_expr(*old(self))),
            decreases self.remaining(),
        {
            let op = if self.match_token(&TokenType::Pipe) {
                BinaryOp::BitwiseOr
            } else {
                break;
            };
            let position = self.previous_position();
            let right = match self.bitwise_xor() {
                Ok(e) => e,
                Err(e) => return Err(e),
            };
            expr = Expr::Binary { left: Box::new(expr), op, right: Box::new(right), position };
        }
        Ok(expr)
    }

    /// `^` and `.^` (left associative).
    pub(super) fn bitwise_xor(&mut self) -> (r: Result<Expr, GraphoidError>)
        requires
            old(self).wf(),
        ensures
            parsed(*old(self), *final(self), r),
            operand_below(*old(self), 7) ==> {
                &&& r == Ok::<Expr, GraphoidError>(operand_expr(old(self).next_token()))
                &&& final(self).position() == old(self).position() + 1
            },
            simple_binary(*old(self)) && operator_level(token_ahead(*old(self), 1)) >= 7 ==> {
                &&& r == Ok::<Expr, GraphoidError>(binary_expr(*old(self)))
                &&& final(self).position() == old(self).position() + 3
            },
        decreases old(self).remaining(), 13int,
    {
        let mut expr = match self.bitwise_and() {
            Ok(e) => e,
            Err(e) => return Err(e),
        };
        loop
            invariant
                progressed(*old(self), *self),
                operand_below(*old(self), 7) ==> (self.position() == old(self).position() + 1
                    && expr == operand_expr(old(self).next_token())),
                simple_binary(*old(self)) && operator_level(token_ahead(*old(self), 1)) > 7
                    ==> (self.position() == old(self).position() + 3 && expr == binary_expr(*old(self))),
                simple_binary(*old(self)) && operator_level(token_ahead(*old(self), 1)) == 7
                    ==> ((self.position() == old(self).position() + 1 && expr == operand_expr(old(self).next_token()))
                        || (self.position() == old(self).position() + 3 && expr == binary_expr(*old(self)))),
            ensures
                progressed(*old(self), *self),
                operand_below(*old(self), 7) ==> (self.position() == old(self).position() + 1
                    && expr == operand_expr(old(self).next_token())),
                simple_binary(*old(self)) && operator_level(token_ahead(*old(self), 1)) >= 7
                    ==> (self.position() == old(self).position() + 3 && expr == binary_expr(*old(self))),
            decreases self.remaining(),
        {
            let op = if self.match_token(&TokenType::Caret) {
                BinaryOp::BitwiseXor
            } else if self.match_token(&TokenType::DotCaret) {
                BinaryOp::DotXor
            } else {
                break;
            };
            let position = self.previous_position();
            let right = match self.bitwise_and() {
                Ok(e) => e,
                Err(e) => return Err(e),
            };
            expr = Expr::Binary { left: Box::new(expr), op, right: Box::new(right), position };
        }
        Ok(expr)
    }

    /// `&` (left associative).
    pub(super) fn bitwise_and(&mut self) -> (r: Result<Expr, GraphoidError>)
        requires
            old(self).wf(),
        ensures
            parsed(*old(self), *final(self), r),
            operand_below(*old(self), 8) ==> {
                &&& r == Ok::<Expr, GraphoidError>(operand_expr(old(self).next_token()))
                &&& final(self).position() == old(self).position() + 1
            },
            simple_binary(*old(self)) && operator_level(token_ahead(*old(self), 1)) >= 8 ==> {
                &&& r == Ok::<Expr, GraphoidError>(binary_expr(*old(self)))
                &&& final(self).position() == old(self).position() + 3
            },
        decreases old(self).remaining(), 12int,
    {
        let mut expr = match self.shift() {
            Ok(e) => e,
            Err(e) => return Err(e),
        };
        loop
            invariant
                progressed(*old(self), *self),
                operand_below(*old(self), 8) ==> (self.position() == old(self).position() + 1
                    && expr == operand_expr(old(self).next_token())),
                simple_binary(*old(self)) && operator_level(token_ahead(*old(self), 1)) > 8
                    ==> (self.position() == old(self).position() + 3 && expr == binary_expr(*old(self))),
                simple_binary(*old(self)) && operator_level(token_ahead(*old(self), 1)) == 8
                    ==> ((self.position() == old(self).position() + 1 && expr == operand_expr(old(self).next_token()))
                        || (self.position() == old(self).position() + 3 && expr == binary_expr(*old(self)))),
            ensures
                progressed(*old(self), *self),
                operand_below(*old(self), 8) ==> (self.position() == old(self).position() + 1
                    && expr == operand_expr(old(self).next_token())),
                simple_binary(*old(self)) && operator_level(token_ahead(*old(self), 1)) >= 8
                    ==> (self.position() == old(self).position() + 3 && expr == binary_expr(*old(self))),
            decreases self.remaining(),
        {
            let op = if self.match_token(&TokenType::Ampersand) {
                BinaryOp::BitwiseAnd
            } else {
                break;
            };
            let position = self.previous_position();
            let right = match self.shift() {
                Ok(e) => e,
                Err(e) => return Err(e),
            };
            expr = Expr::Binary { left: Box::new(expr), op, right: Box::new(right), position };
        }
        Ok(expr)
    }

    /// `<<` and `>>` (left associative).
    pub(super) fn shift(&mut self) -> (r: Result<Expr, GraphoidError>)
        requires
            old(self).wf(),
        ensures
            parsed(*old(self), *final(self), r),
            operand_below(*old(self), 9) ==> {
                &&& r == Ok::<Expr, GraphoidError>(operand_expr(old(self).next_token()))
                &&& final(self).position() == old(self).position() + 1
            },
            simple_binary(*old(self)) && operator_level(token_ahead(*old(self), 1)) >= 9 ==> {
                &&& r == Ok::<Expr, GraphoidError>(binary_expr(*old(self)))
                &&& final(self).position() == old(self).position() + 3
            },
        decreases old(self).remaining(), 11int,
    {
        let mut expr = match self.term() {
            Ok(e) => e,
            Err(e) => return Err(e),
        };
        loop
            invariant
                progressed(*old(self), *self),
                operand_below(*old(self), 9) ==> (self.position() == old(self).position() + 1
                    && expr == operand_expr(old(self).next_token())),
                simple_binary(*old(self)) && operator_level(token_ahead(*old(self), 1)) > 9
                    ==> (self.position() == old(self).position() + 3 && expr == binary_expr(*old(self))),
                simple_binary(*old(self)) && operator_level(token_ahead(*old(self), 1)) == 9
                    ==> ((self.position() == old(self).position() + 1 && expr == operand_expr(old(self).next_token()))
                        || (self.position() == old(self).position() + 3 && expr == binary_expr(*old(self)))),
            ensures
                progressed(*old(self), *self),
                operand_below(*old(self), 9) ==> (self.position() == old(self).position() + 1
                    && expr == operand_expr(old(self).next_token())),
                simple_binary(*old(self)) && operator_level(token_ahead(*old(self), 1)) >= 9
                    ==> (self.position() == old(self).position() + 3 && expr == binary_expr(*old(self))),
            decreases self.remaining(),
        {
            let op = if self.match_token(&TokenType::LeftShift) {
                BinaryOp::LeftShift
            } else if self.match_token(&TokenType::RightShift) {
                BinaryOp::RightShift
            } else {
                break;
            };
            let position = self.previous_position();
            let right = match self.term() {
                Ok(e) => e,
                Err(e) => return Err(e),
            };
            expr = Expr::Binary { left: Box::new(expr), op, right: Box::new(right), position };
        }
        Ok(expr)
    }

    /// `+`, `-` and their element-wise forms (left associative).
    #[verifier::spinoff_prover]
    #[verifier::rlimit(40)]
    pub(super) fn term(&mut self) -> (r: Result<Expr, GraphoidError>)
        requires
            old(self).wf(),
        ensures
            parsed(*old(self), *final(self), r),
            operand_below(*old(self), 10) ==> {
                &&& r == Ok::<Expr, GraphoidError>(operand_expr(old(self).next_token()))
                &&& final(self).position() == old(self).position() + 1
            },
            simple_binary(*old(self)) && operator_level(token_ahead(*old(self), 1)) >= 10 ==> {
                &&& r == Ok::<Expr, GraphoidError>(binary_expr(*old(self)))
                &&& final(self).position() == old(self).position() + 3
            },
            forall|n: nat| #[trigger] op_run(old(self).tokens(), old(self).position() as int, n, 10) ==> {
                &&& r == Ok::<Expr, GraphoidError>(op_chain(old(self).tokens(), old(self).position() as int, n))
                &&& final(self).position() == old(self).position() + 2 * n + 1
            },
        decreases old(self).remaining(), 10int,
    {
        let ghost ts = old(self).tokens();
        let ghost i0 = old(self).position() as int;
        proof {
            if exists|n: nat| #[trigger] op_run(ts, i0, n, 10) {
                let n = choose|n: nat| #[trigger] op_run(ts, i0, n, 10);
                assert(is_operand(ts[i0].token_type));
                assert(ts[i0 + 1].token_type == ts[i0 + 1].token_type);
                if n > 0 {
                    assert(operator_level(ts[i0 + 1].token_type) == 10);
                }
            }
        }
        let mut expr = match self.factor() {
            Ok(e) => e,
            Err(e) => return Err(e),
        };
        let ghost mut m: nat = 0;
        loop
            invariant
                ts == old(self).tokens(),
                i0 == old(self).position() as int,
                forall|n: nat| #[trigger] op_run(ts, i0, n, 10) ==> (m <= n && expr == op_chain(ts, i0, m)
                    && self.position() == i0 + 2 * m + 1),
                progressed(*old(self), *self),
                operand_below(*old(self), 10) ==> (self.position() == old(self).position() + 1
                    && expr == operand_expr(old(self).next_token())),
                simple_binary(*old(self)) && operator_level(token_ahead(*old(self), 1)) > 10
                    ==> (self.position() == old(self).position() + 3 && expr == binary_expr(*old(self))),
                simple_binary(*old(self)) && operator_level(token_ahead(*old(self), 1)) == 10
                    ==> ((self.position() == old(self).position() + 1 && expr == operand_expr(old(self).next_token()))
                        || (self.position() == old(self).position() + 3 && expr == binary_expr(*old(self)))),
            ensures
                progressed(*old(self), *self),
                operand_below(*old(self), 10) ==> (self.position() == old(self).position() + 1
                    && expr == operand_expr(old(self).next_token())),
                simple_binary(*old(self)) && operator_level(token_ahead(*old(self), 1)) >= 10
                    ==> (self.position() == old(self).position() + 3 && expr == binary_expr(*old(self))),
                forall|n: nat| #[trigger] op_run(ts, i0, n, 10) ==> (expr == op_chain(ts, i0, n)
                    && self.position() == i0 + 2 * n + 1),
            decreases self.remaining(),
        {
            proof {
                let j = i0 + 2 * m + 1;
                if exists|n: nat| #[trigger] op_run(ts, i0, n, 10) {
                    let n = choose|n: nat| #[trigger] op_run(ts, i0, n, 10);
                    assert(ts[j].token_type == ts[j].token_type);
                    if m < n {
                        assert(operator_level(ts[j].token_type) == 10);
                        assert(is_operand(ts[j + 1].token_type));
                        assert(ts[j + 2].token_type == ts[j + 2].token_type);
                        if m + 1 < n {
                            assert(operator_level(ts[j + 2].token_type) == 10);
                        }
                    }
                }
            }
            let op = if self.match_token(&TokenType::Plus) {
                BinaryOp::Add
            } else if self.match_token(&TokenType::Minus) {
                BinaryOp::Subtract
            } else if self.match_token(&TokenType::DotPlus) {
                BinaryOp::DotAdd
            } else if self.match_token(&TokenType::DotMinus) {
                BinaryOp::DotSubtract
            } else {
                break;
            };
            let position = self.previous_position();
            let right = match self.factor() {
                Ok(e) => e,
                Err(e) => return Err(e),
            };
            expr = Expr::Binary { left: Box::new(expr), op, right: Box::new(right), position };
            proof {
                m = m + 1;
            }
        }
        Ok(expr)
    }

    /// `*`, `/`, `//`, `%` and their element-wise forms (left associative).
    #[verifier::spinoff_prover]
    #[verifier::rlimit(40)]
    pub(super) fn factor(&mut self) -> (r: Result<Expr, GraphoidError>)
        requires
            old(self).wf(),
        ensures
            parsed(*old(self), *final(self), r),
            operand_below(*old(self), 11) ==> {
                &&& r == Ok::<Expr, GraphoidError>(operand_expr(old(self).next_token()))
                &&& final(self).position() == old(self).position() + 1
            },
            simple_binary(*old(self)) && operator_level(token_ahead(*old(self), 1)) >= 11 ==> {
                &&& r == Ok::<Expr, GraphoidError>(binary_expr(*old(self)))
                &&& final(self).position() == old(self).position() + 3
            },
            forall|n: nat| #[trigger] op_run(old(self).tokens(), old(self).position() as int, n, 11) ==> {
                &&& r == Ok::<Expr, GraphoidError>(op_chain(old(self).tokens(), old(self).position() as int, n))
                &&& final(self).position() == old(self).position() + 2 * n + 1
            },
            mul_then_power(old(self).tokens(), old(self).position() as int) matches Some((e, j)) ==> {
                &&& r == Ok::<Expr, GraphoidError>(e)
                &&& final(self).position() == j
            },
        decreases old(self).remaining(), 9int,
    {
        let ghost ts = old(self).tokens();
        let ghost i0 = old(self).position() as int;
        proof {
            if exists|n: nat| #[trigger] op_run(ts, i0, n, 11) {
                let n = choose|n: nat| #[trigger] op_run(ts, i0, n, 11);
                assert(is_operand(ts[i0].token_type));
                assert(ts[i0 + 1].token_type == ts[i0 + 1].token_type);
                if n > 0 {
                    assert(operator_level(ts[i0 + 1].token_type) == 11);
                }
            }
        }
        let mut expr = match self.power() {
            Ok(e) => e,
            Err(e) => return Err(e),
        };
        let ghost mut m: nat = 0;
        loop
            invariant
                ts == old(self).tokens(),
                i0 == old(self).position() as int,
                forall|n: nat| #[trigger] op_run(ts, i0, n, 11) ==> (m <= n && expr == op_chain(ts, i0, m)
                    && self.position() == i0 + 2 * m + 1),
                mul_then_power(ts, i0) matches Some((e, j)) ==> ((m == 0 && self.position() == i0 + 1
                    && expr == operand_expr(ts[i0])) || (m == 1 && self.position() == j && expr == e)),
                progressed(*old(self), *self),
                operand_below(*old(self), 11) ==> (self.position() == old(self).position() + 1
                    && expr == operand_expr(old(self).next_token())),
                simple_binary(*old(self)) && operator_level(token_ahead(*old(self), 1)) > 11
                    ==> (self.position() == old(self).position() + 3 && expr == binary_expr(*old(self))),
                simple_binary(*old(self)) && operator_level(token_ahead(*old(self), 1)) == 11
                    ==> ((self.position() == old(self).position() + 1 && expr == operand_expr(old(self).next_token()))
                        || (self.position() == old(self).position() + 3 && expr == binary_expr(*old(self)))),
            ensures
                progressed(*old(self), *self),
                operand_below(*old(self), 11) ==> (self.position() == old(self).position() + 1
                    && expr == operand_expr(old(self).next_token())),
                simple_binary(*old(self)) && operator_level(token_ahead(*old(self), 1)) >= 11
                    ==> (self.position() == old(self).position() + 3 && expr == binary_expr(*old(self))),
                forall|n: nat| #[trigger] op_run(ts, i0, n, 11) ==> (expr == op_chain(ts, i0, n)
                    && self.position() == i0 + 2 * n + 1),
                mul_then_power(ts, i0) matches Some((e, j)) ==> (self.position() == j && expr == e),
            decreases self.remaining(),
        {
            proof {
                let j = i0 + 2 * m + 1;
                if exists|n: nat| #[trigger] op_run(ts, i0, n, 11) {
                    let n = choose|n: nat| #[trigger] op_run(ts, i0, n, 11);
                    assert(ts[j].token_type == ts[j].token_type);
                    if m < n {
                        assert(operator_level(ts[j].token_type) == 11);
                        assert(is_operand(ts[j + 1].token_type));
                        assert(ts[j + 2].token_type == ts[j + 2].token_type);
                        if m + 1 < n {
                            assert(operator_level(ts[j + 2].token_type) == 11);
                        }
                    }
                }
            }
            let op = if self.match_token(&TokenType::Star) {
                BinaryOp::Multiply
            } else if self.match_token(&TokenType::Slash) {
                BinaryOp::Divide
            } else if self.match_token(&TokenType::SlashSlash) {
                BinaryOp::IntDiv
            } else if self.match_token(&TokenType::Percent) {
                BinaryOp::Modulo
            } else if self.match_token(&TokenType::DotStar) {
                BinaryOp::DotMultiply
            } else if self.match_token(&TokenType::DotSlash) {
                BinaryOp::DotDivide
            } else if self.match_token(&TokenType::DotSlashSlash) {
                BinaryOp::DotIntDiv
            } else if self.match_token(&TokenType::DotPercent) {
                BinaryOp::DotModulo
            } else {
                break;
            };
            let position = self.previous_position();
            let right = match self.power() {
                Ok(e) => e,
                Err(e) => return Err(e),
            };
            expr = Expr::Binary { left: Box::new(expr), op, right: Box::new(right), position };
            proof {
                m = m + 1;
            }
        }
        Ok(expr)
    }

    /// `a ** b` and `a .** b`, right associative.
    pub(super) fn power(&mut self) -> (r: Result<Expr, GraphoidError>)
        requires
            old(self).wf(),
        ensures
            parsed(*old(self), *final(self), r),
            operand_below(*old(self), 12) ==> {
                &&& r == Ok::<Expr, GraphoidError>(operand_expr(old(self).next_token()))
                &&& final(self).position() == old(self).position() + 1
            },
            simple_binary(*old(self)) && operator_level(token_ahead(*old(self), 1)) >= 12 ==> {
                &&& r == Ok::<Expr, GraphoidError>(binary_expr(*old(self)))
                &&& final(self).position() == old(self).position() + 3
            },
            power_chain(old(self).tokens(), old(self).position() as int) matches Some((e, j)) ==> {
                &&& r == Ok::<Expr, GraphoidError>(e)
                &&& final(self).position() == j
            },
        decreases old(self).remaining(), 8int,
    {
        let expr = match self.unary() {
            Ok(e) => e,
            Err(e) => return Err(e),
        };
        proof {
            super::lemma_next_is(*self, TokenType::DoubleStar);
            super::lemma_next_is(*self, TokenType::DotDoubleStar);
        }
        let op = if self.match_token(&TokenType::DoubleStar) {
            BinaryOp::Power
        } else if self.match_token(&TokenType::DotDoubleStar) {
            BinaryOp::DotPower
        } else {
            return Ok(expr);
        };
        let position = self.previous_position();
        let right = match self.power() {
            Ok(e) => e,
            Err(e) => return Err(e),
        };
        Ok(Expr::Binary { left: Box::new(expr), op, right: Box::new(right), position })
    }

    /// Prefix `-`, `not` and `~`.
    pub(super) fn unary(&mut self) -> (r: Result<Expr, GraphoidError>)
        requires
            old(self).wf(),
        ensures
            parsed(*old(self), *final(self), r),
            operand_below(*old(self), 13) ==> {
                &&& r == Ok::<Expr, GraphoidError>(operand_expr(old(self).next_token()))
                &&& final(self).position() == old(self).position() + 1
            },
            unary_op(old(self).next_token().token_type) is Some && old(self).position() + 2 < old(self).tokens().len()
                && is_operand(token_ahead(*old(self), 1)) && ends_expression(token_ahead(*old(self), 2)) ==> {
                &&& r == Ok::<Expr, GraphoidError>(Expr::Unary {
                    op: unary_op(old(self).next_token().token_type)->0,
                    operand: Box::new(operand_expr(old(self).tokens()[old(self).position() + 1int])),
                    position: token_position(old(self).next_token()),
                })
                &&& final(self).position() == old(self).position() + 2
            },
        decreases old(self).remaining(), 7int,
    {
        let op = if self.match_token(&TokenType::Minus) {
            UnaryOp::Negate
        } else if self.match_token(&TokenType::Not) {
            UnaryOp::Not
        } else if self.match_token(&TokenType::Tilde) {
            UnaryOp::BitwiseNot
        } else {
            return self.postfix();
        };
        let position = self.previous_position();
        let operand = match self.unary() {
            Ok(e) => e,
            Err(e) => return Err(e),
        };
        Ok(Expr::Unary { op, operand: Box::new(operand), position })
    }

    /// Calls, indexing, member access, method calls (also with command-style
    /// arguments or a trailing block) and `Name { key: value }`
    /// instantiation after a primary expression.  A line break ends the
    /// chain unless the next line starts with one of these suffixes.
    pub(super) fn postfix(&mut self) -> (r: Result<Expr, GraphoidError>)
        requires
            old(self).wf(),
        ensures
            parsed(*old(self), *final(self), r),
            operand_below(*old(self), 13) ==> {
                &&& r == Ok::<Expr, GraphoidError>(operand_expr(old(self).next_token()))
                &&& final(self).position() == old(self).position() + 1
            },
            simple_suffix_len(*old(self)) > 0 ==> {
                &&& r matches Ok(e) && simple_suffix_expr(*old(self), e)
                &&& final(self).position() == old(self).position() + simple_suffix_len(*old(self))
            },
        decreases old(self).remaining(), 6int,
    {
        let mut expr = match self.primary() {
            Ok(e) => e,
            Err(e) => return Err(e),
        };
        loop
            invariant
                progressed(*old(self), *self),
                operand_below(*old(self), 13) ==> (self.position() == old(self).position() + 1
                    && expr == operand_expr(old(self).next_token())),
                simple_suffix_len(*old(self)) > 0 ==> (
                    (self.position() == old(self).position() + 1 && expr == operand_expr(old(self).next_token()))
                    || (self.position() == old(self).position() + simple_suffix_len(*old(self))
                        && simple_suffix_expr(*old(self), expr))),
            ensures
                progressed(*old(self), *self),
                operand_below(*old(self), 13) ==> (self.position() == old(self).position() + 1
                    && expr == operand_expr(old(self).next_token())),
                simple_suffix_len(*old(self)) > 0 ==> (self.position() == old(self).position() + simple_suffix_len(*old(self))
                    && simple_suffix_expr(*old(self), expr)),
            decreases self.remaining(),
        {
            proof {
                super::lemma_next_is(*self, TokenType::Newline);
                super::lemma_next_is(*self, TokenType::LeftParen);
                super::lemma_next_is(*self, TokenType::LeftBracket);
                super::lemma_next_is(*self, TokenType::Dot);
                super::lemma_next_is(*self, TokenType::LeftBrace);
            }
            let ghost start = self.position();
            let checkpoint = self.current;
            self.skip_newlines();
            let has_postfix = self.check(&TokenType::LeftParen) || self.check(&TokenType::LeftBracket)
                || self.check(&TokenType::Dot) || self.check(&TokenType::LeftBrace);
            if checkpoint != self.current && !has_postfix {
                self.current = checkpoint;
                break;
            }
            if self.check(&TokenType::LeftBrace) && !self.disable_brace_instantiation {
                let is_variable = match &expr {
                    Expr::Variable { .. } => true,
                    _ => false,
                };
                if !is_variable {
                    break;
                }
                let brace_pos = self.current;
                self.advance();
                self.skip_newlines();
                let is_instantiation = if self.check(&TokenType::RightBrace) {
                    true
                } else if self.identifier_here().is_some() {
                    self.check_next(&TokenType::Colon)
                } else {
                    false
                };
                if !is_instantiation {
                    self.current = brace_pos;
                    break;
                }
                let position = expr.position();
                let mut overrides: Vec<(String, Expr)> = Vec::new();
                if !self.check(&TokenType::RightBrace) {
                    loop
                        invariant
                            progressed(*old(self), *self),
                            start < self.position(),
                            !operand_below(*old(self), 13),
                            simple_suffix_len(*old(self)) == 0,
                        decreases self.remaining(),
                    {
                        self.skip_newlines();
                        let key = match self.identifier_here() {
                            Some(k) => k,
                            None => return Err(self.syntax_error("Expected property name in instantiation")),
                        };
                        self.advance();
                        if !self.match_token(&TokenType::Colon) {
                            return Err(self.syntax_error("Expected ':' after property name"));
                        }
                        let value = match self.expression() {
                            Ok(e) => e,
                            Err(e) => return Err(e),
                        };
                        overrides.push((key, value));
                        self.skip_newlines();
                        if !self.match_token(&TokenType::Comma) {
                            break;
                        }
                    }
                }
                self.skip_newlines();
                if !self.match_token(&TokenType::RightBrace) {
                    return Err(self.syntax_error("Expected '}' after instantiation properties"));
                }
                expr = Expr::Instantiate { class_name: Box::new(expr), overrides, position };
                continue;
            }
            if self.match_token(&TokenType::LeftParen) {
                let position = expr.position();
                let mut args = match self.arguments() {
                    Ok(a) => a,
                    Err(e) => return Err(e),
                };
                if !self.match_token(&TokenType::RightParen) {
                    return Err(self.syntax_error("Expected ')' after arguments"));
                }
                if self.is_trailing_block() {
                    let block_lambda = match self.parse_trailing_block() {
                        Ok(e) => e,
                        Err(e) => return Err(e),
                    };
                    args.push(Argument::Positional { expr: block_lambda, mutable: false });
                }
                expr = Expr::Call { callee: Box::new(expr), args, position };
            } else if self.match_token(&TokenType::LeftBracket) {
                let position = expr.position();
                let index = match self.expression() {
                    Ok(e) => e,
                    Err(e) => return Err(e),
                };
                if !self.match_token(&TokenType::RightBracket) {
                    return Err(self.syntax_error("Expected ']' after index"));
                }
                expr = Expr::Index { object: Box::new(expr), index: Box::new(index), position };
            } else if self.match_token(&TokenType::Dot) {
                let position = expr.position();
                let mut method = match self.identifier_here() {
                    Some(m) => m,
                    None => {
                        let lexeme = self.peek().lexeme.clone();
                        if !is_word(lexeme.as_str()) {
                            return Err(self.syntax_error("Expected method name after '.'"));
                        }
                        lexeme
                    },
                };
                self.advance();
                if self.match_token(&TokenType::Bang) {
                    push_char(&mut method, '!');
                }
                if self.is_command_arg_start() && !self.check(&TokenType::LeftBrace) {
                    let mut args: Vec<Argument> = Vec::new();
                    while self.is_command_arg_start() && !self.check(&TokenType::LeftBrace)
                        invariant
                            progressed(*old(self), *self),
                            start < self.position(),
                            !operand_below(*old(self), 13),
                            simple_suffix_len(*old(self)) == 0,
                        decreases self.remaining(),
                    {
                        let arg = match self.command_arg() {
                            Ok(e) => e,
                            Err(e) => return Err(e),
                        };
                        args.push(Argument::Positional { expr: arg, mutable: false });
                    }
                    if !self.check(&TokenType::LeftBrace) {
                        return Err(self.syntax_error("Expected '{' block after command-style method arguments"));
                    }
                    let block_lambda = match self.parse_command_block() {
                        Ok(e) => e,
                        Err(e) => return Err(e),
                    };
                    args.push(Argument::Positional { expr: block_lambda, mutable: false });
                    expr = Expr::MethodCall { object: Box::new(expr), method, args, position };
                } else if self.match_token(&TokenType::LeftParen) {
                    let mut args = match self.arguments() {
                        Ok(a) => a,
                        Err(e) => return Err(e),
                    };
                    if !self.match_token(&TokenType::RightParen) {
                        return Err(self.syntax_error("Expected ')' after method arguments"));
                    }
                    if self.is_trailing_block() {
                        let block_lambda = match self.parse_trailing_block() {
                            Ok(e) => e,
                            Err(e) => return Err(e),
                        };
                        args.push(Argument::Positional { expr: block_lambda, mutable: false });
                    }
                    expr = Expr::MethodCall { object: Box::new(expr), method, args, position };
                } else if self.is_trailing_block() {
                    let block_lambda = match self.parse_trailing_block() {
                        Ok(e) => e,
                        Err(e) => return Err(e),
                    };
                    let args = vec![Argument::Positional { expr: block_lambda, mutable: false }];
                    expr = Expr::MethodCall { object: Box::new(expr), method, args, position };
                } else if self.check(&TokenType::LeftBrace) {
                    let block_lambda = match self.parse_command_block() {
                        Ok(e) => e,
                        Err(e) => return Err(e),
                    };
                    let args = vec![Argument::Positional { expr: block_lambda, mutable: false }];
                    expr = Expr::MethodCall { object: Box::new(expr), method, args, position };
                } else {
                    expr = Expr::PropertyAccess { object: Box::new(expr), property: method, position };
                }
            } else {
                break;
            }
        }
        Ok(expr)
    }

    /// The current token can start a command-style argument (a literal or a
    /// block).
    pub(super) fn is_command_arg_start(&self) -> (r: bool)
        requires
            self.wf(),
        ensures
            r ==> !self.at_end(),
            r == starts_command_arg(self.next_token().token_type),
    {
        match &self.peek().token_type {
            TokenType::String(_) | TokenType::Number(_) | TokenType::True | TokenType::False
            | TokenType::NoneKw | TokenType::Symbol(_) | TokenType::LeftBrace => true,
            _ => false,
        }
    }

    /// One command-style argument: a string, number, boolean, `none` or
    /// symbol literal.
    pub(super) fn command_arg(&mut self) -> (r: Result<Expr, GraphoidError>)
        requires
            old(self).wf(),
        ensures
            parsed(*old(self), *final(self), r),
            token_literal(old(self).next_token().token_type) matches Some(v) ==> {
                &&& r == Ok::<Expr, GraphoidError>(Expr::Literal { value: v, position: token_position(old(self).next_token()) })
                &&& final(self).position() == old(self).position() + 1
            },
    {
        let position = self.peek().position();
        let value = match &self.peek().token_type {
            TokenType::String(s) => LiteralValue::String(s.clone()),
            TokenType::Number(n) => LiteralValue::Number(*n),
            TokenType::True => LiteralValue::Boolean(true),
            TokenType::False => LiteralValue::Boolean(false),
            TokenType::NoneKw => LiteralValue::NoneValue,
            TokenType::Symbol(s) => LiteralValue::Symbol(s.clone()),
            _ => return Err(error_at("Expected command argument", position)),
        };
        self.advance();
        Ok(Expr::Literal { value, position })
    }

    /// `{ body }`, `{ || body }` or `{ |a, b| body }` as a lambda whose body
    /// is a block.
    pub(super) fn parse_command_block(&mut self) -> (r: Result<Expr, GraphoidError>)
        requires
            old(self).wf(),
        ensures
            parsed(*old(self), *final(self), r),
        decreases old(self).remaining(), 24int,
    {
        let position = self.peek().position();
        if !self.match_token(&TokenType::LeftBrace) {
            return Err(error_at("Expected '{' to start block", position));
        }
        let mut params: Vec<String> = Vec::new();
        if self.check(&TokenType::PipePipe) {
            self.advance();
        } else if self.check(&TokenType::Pipe) {
            self.advance();
            if !self.check(&TokenType::Pipe) {
                loop
                    invariant
                        progressed(*old(self), *self),
                    decreases self.remaining(),
                {
                    match self.identifier_here() {
                        Some(name) => {
                            params.push(name);
                            self.advance();
                            if !self.match_token(&TokenType::Comma) {
                                break;
                            }
                        },
                        None => break,
                    }
                }
            }
            if !self.match_token(&TokenType::Pipe) {
                return Err(self.syntax_error("Expected '|' to close parameter list"));
            }
        }
        let statements = match self.block() {
            Ok(s) => s,
            Err(e) => return Err(e),
        };
        if !self.match_token(&TokenType::RightBrace) {
            return Err(self.syntax_error("Expected '}' to close block"));
        }
        let body = Box::new(Expr::Block { statements, position });
        Ok(Expr::Lambda { params, body, position })
    }

    /// `{ statements }` as a block expression.
    pub(super) fn parse_lambda_block(&mut self) -> (r: Result<Expr, GraphoidError>)
        requires
            old(self).wf(),
        ensures
            parsed(*old(self), *final(self), r),
        decreases old(self).remaining(), 24int,
    {
        let position = self.peek().position();
        if !self.match_token(&TokenType::LeftBrace) {
            return Err(error_at("Expected '{' to start lambda block body", position));
        }
        let statements = match self.block() {
            Ok(s) => s,
            Err(e) => return Err(e),
        };
        if !self.match_token(&TokenType::RightBrace) {
            return Err(self.syntax_error("Expected '}' to close lambda block body"));
        }
        Ok(Expr::Block { statements, position })
    }

    /// The current token is `{` and the next one is `|` or `||`.
    pub(super) fn is_trailing_block(&self) -> (r: bool)
        requires
            self.wf(),
        ensures
            r == (self.next_is(kind(TokenType::LeftBrace)) && self.position() + 1 < self.tokens().len()
                && (token_ahead(*self, 1) is Pipe || token_ahead(*self, 1) is PipePipe)),
    {
        if !self.check(&TokenType::LeftBrace) {
            return false;
        }
        self.check_next(&TokenType::Pipe) || self.check_next(&TokenType::PipePipe)
    }

    /// `{ |params| body }` or `{ body }` as a lambda.  Parameters may be
    /// type keywords; a body of one expression statement becomes that
    /// expression.
    pub(super) fn parse_trailing_block(&mut self) -> (r: Result<Expr, GraphoidError>)
        requires
            old(self).wf(),
        ensures
            parsed(*old(self), *final(self), r),
        decreases old(self).remaining(), 24int,
    {
        let position = self.peek().position();
        if !self.match_token(&TokenType::LeftBrace) {
            return Err(error_at("Expected '{' to start trailing block", position));
        }
        let mut params: Vec<String> = Vec::new();
        if self.check(&TokenType::PipePipe) {
            self.advance();
        } else if self.check(&TokenType::Pipe) {
            self.advance();
            if !self.check(&TokenType::Pipe) {
                loop
                    invariant
                        progressed(*old(self), *self),
                    decreases self.remaining(),
                {
                    let param_name = match &self.peek().token_type {
                        TokenType::Identifier(name) => name.clone(),
                        TokenType::NumType => String::from_str("num"),
                        TokenType::StringType => String::from_str("string"),
                        TokenType::BoolType => String::from_str("bool"),
                        TokenType::ListType => String::from_str("list"),
                        TokenType::MapType => String::from_str("map"),
                        TokenType::GraphType => String::from_str("graph"),
                        TokenType::TreeType => String::from_str("tree"),
                        _ => {
                            let mut message = String::from_str("Expected parameter name, got ");
                            message.append(describe(&self.peek().token_type).as_str());
                            return Err(error_at(message.as_str(), self.peek().position()));
                        },
                    };
                    params.push(param_name);
                    self.advance();
                    if !self.match_token(&TokenType::Comma) {
                        break;
                    }
                }
            }
            if !self.match_token(&TokenType::Pipe) {
                return Err(self.syntax_error("Expected '|' after block parameters"));
            }
        }
        let mut statements = match self.block() {
            Ok(s) => s,
            Err(e) => return Err(e),
        };
        if !self.match_token(&TokenType::RightBrace) {
            return Err(self.syntax_error("Expected '}' to close trailing block"));
        }
        let single_expression = statements.len() == 1 && match &statements[0] {
            Stmt::Expression { .. } => true,
            _ => false,
        };
        let body = if single_expression {
            match statements.pop() {
                Some(Stmt::Expression { expr, .. }) => Box::new(expr),
                _ => Box::new(Expr::Block { statements: Vec::new(), position }),
            }
        } else {
            Box::new(Expr::Block { statements, position })
        };
        Ok(Expr::Lambda { params, body, position })
    }

    /// A call's argument list (without the parentheses): positional and
    /// `name: value` arguments, each optionally marked mutable with `!`,
    /// separated by commas, with line breaks allowed around them.
    pub(super) fn arguments(&mut self) -> (r: Result<Vec<Argument>, GraphoidError>)
        requires
            old(self).wf(),
        ensures
            scanned(*old(self), *final(self), r),
            r is Ok ==> !(final(self).next_token().token_type is Newline),
            r matches Ok(a) ==> (a@.len() == 0 <==> only_newlines(
                old(self).tokens(),
                old(self).position() as int,
                final(self).position() as int,
            )),
            r matches Ok(a) ==> (a@.len() == 0 ==> final(self).next_token().token_type is RightParen),
            old(self).next_token().token_type is RightParen ==> (r matches Ok(a) && a@.len() == 0
                && final(self).position() == old(self).position()),
            is_operand(old(self).next_token().token_type) && old(self).position() + 1 < old(self).tokens().len()
                && token_ahead(*old(self), 1) is RightParen ==> {
                &&& r matches Ok(a) && a@.len() == 1
                    && a@[0] == (Argument::Positional { expr: operand_expr(old(self).next_token()), mutable: false })
                &&& final(self).position() == old(self).position() + 1
            },
        decreases old(self).remaining(), 26int,
    {
        let mut args: Vec<Argument> = Vec::new();
        let ghost single = is_operand(old(self).next_token().token_type) && old(self).position() + 1 < old(self).tokens().len()
            && token_ahead(*old(self), 1) is RightParen;
        proof {
            super::lemma_next_is(*self, TokenType::Newline);
        }
        self.skip_newlines();
        let ghost first = self.position();
        proof {
            super::lemma_next_is(*self, TokenType::RightParen);
        }
        if !self.check(&TokenType::RightParen) {
            loop
                invariant_except_break
                    single ==> args@.len() == 0 && self.position() == old(self).position(),
                invariant
                    !(old(self).next_token().token_type is RightParen),
                    single == (is_operand(old(self).next_token().token_type) && old(self).position() + 1 < old(self).tokens().len()
                        && token_ahead(*old(self), 1) is RightParen),
                    super::advanced(*old(self), *self),
                    old(self).position() <= first <= self.position(),
                    only_newlines(old(self).tokens(), old(self).position() as int, first as int),
                    !(old(self).tokens()[first as int].token_type is Newline),
                    args@.len() > 0 ==> first < self.position(),
                    args@.len() == 0 ==> self.position() == first || only_newlines(old(self).tokens(), first as int, self.position() as int),
                ensures
                    super::advanced(*old(self), *self),
                    old(self).position() <= first < self.position(),
                    !(old(self).tokens()[first as int].token_type is Newline),
                    args@.len() > 0,
                    single ==> args@.len() == 1 && self.position() == old(self).position() + 1
                        && args@[0] == (Argument::Positional { expr: operand_expr(old(self).next_token()), mutable: false }),
                decreases self.remaining(),
            {
                proof {
                    super::lemma_next_is(*self, TokenType::Newline);
                }
                self.skip_newlines();
                let named = match self.identifier_here() {
                    Some(name) => {
                        if self.check_next(&TokenType::Colon) {
                            Some(name)
                        } else {
                            None
                        }
                    },
                    None => None,
                };
                match named {
                    Some(name) => {
                        self.advance();
                        self.advance();
                        let value = match self.lambda_or_expression() {
                            Ok(e) => e,
                            Err(e) => return Err(e),
                        };
                        let mutable = self.match_token(&TokenType::Bang);
                        args.push(Argument::Named { name, value, mutable });
                    },
                    None => {
                        let expr = match self.lambda_or_expression() {
                            Ok(e) => e,
                            Err(e) => return Err(e),
                        };
                        proof {
                            super::lemma_next_is(*self, TokenType::Bang);
                        }
                        let mutable = self.match_token(&TokenType::Bang);
                        args.push(Argument::Positional { expr, mutable });
                    },
                }
                proof {
                    super::lemma_next_is(*self, TokenType::Newline);
                }
                self.skip_newlines();
                proof {
                    super::lemma_next_is(*self, TokenType::Comma);
                }
                if !self.match_token(&TokenType::Comma) {
                    break;
                }
            }
        }
        self.skip_newlines();
        proof {
            if args@.len() > 0 {
                assert(!(old(self).tokens()[first as int].token_type is Newline));
                assert(!only_newlines(old(self).tokens(), old(self).position() as int, self.position() as int));
            } else {
                super::lemma_next_is(*self, TokenType::Newline);
            }
        }
        Ok(args)
    }

    /// `x => body`, `(a, b) => body`, `() => body`, a block lambda
    /// `{ |x| .. }`, or else an ordinary expression.
    pub(super) fn lambda_or_expression(&mut self) -> (r: Result<Expr, GraphoidError>)
        requires
            old(self).wf(),
        ensures
            parsed(*old(self), *final(self), r),
            lone_operand(*old(self)) ==> {
                &&& r == Ok::<Expr, GraphoidError>(operand_expr(old(self).next_token()))
                &&& final(self).position() == old(self).position() + 1
            },
        decreases old(self).remaining(), 25int,
    {
        proof {
            super::lemma_next_is(*self, TokenType::LeftParen);
            super::lemma_next_is(*self, TokenType::LeftBrace);
        }
        let position = self.peek().position();
        match self.identifier_here() {
            Some(param) => {
                if self.check_next(&TokenType::Arrow) {
                    self.advance();
                    self.advance();
                    let body = if self.check(&TokenType::LeftBrace) {
                        match self.parse_lambda_block() {
                            Ok(e) => e,
                            Err(e) => return Err(e),
                        }
                    } else {
                        match self.or_expression() {
                            Ok(e) => e,
                            Err(e) => return Err(e),
                        }
                    };
                    return Ok(Expr::Lambda { params: vec![param], body: Box::new(body), position });
                }
            },
            None => {},
        }
        if self.check(&TokenType::LeftParen) {
            let paren_checkpoint = self.current;
            self.advance();
            let mut params: Vec<String> = Vec::new();
            let mut could_be_lambda = true;
            if !self.check(&TokenType::RightParen) {
                loop
                    invariant
                        progressed(*old(self), *self),
                        paren_checkpoint == old(self).position(),
                    decreases self.remaining(),
                {
                    match self.identifier_here() {
                        Some(name) => {
                            params.push(name);
                            self.advance();
                            if !self.match_token(&TokenType::Comma) {
                                break;
                            }
                        },
                        None => {
                            could_be_lambda = false;
                            break;
                        },
                    }
                }
            }
            if could_be_lambda && self.match_token(&TokenType::RightParen) && self.check(&TokenType::Arrow) {
                self.advance();
                let body = if self.check(&TokenType::LeftBrace) {
                    match self.parse_lambda_block() {
                        Ok(e) => e,
                        Err(e) => return Err(e),
                    }
                } else {
                    match self.or_expression() {
                        Ok(e) => e,
                        Err(e) => return Err(e),
                    }
                };
                return Ok(Expr::Lambda { params, body: Box::new(body), position });
            }
            self.current = paren_checkpoint;
        }
        if self.check(&TokenType::LeftBrace) && (self.check_next(&TokenType::PipePipe) || self.check_next(&TokenType::Pipe)) {
            return self.parse_command_block();
        }
        self.expression()
    }

    /// `key: value` entries separated by commas, as in `graph { .. }`; empty
    /// before `}`.
    pub(super) fn parse_config_entries(&mut self) -> (r: Result<Vec<(String, Expr)>, GraphoidError>)
        requires
            old(self).wf(),
        ensures
            scanned(*old(self), *final(self), r),
            old(self).next_token().token_type is RightBrace ==> (r matches Ok(es) && es@.len() == 0
                && final(self).position() == old(self).position()),
            r matches Ok(es) ==> (es@.len() == 0 <==> old(self).next_token().token_type is RightBrace),
            r matches Ok(es) ==> (es@.len() > 0 ==> (old(self).next_token().token_type is String
                || old(self).next_token().token_type is Identifier)
                && es@[0].0 == token_text(old(self).next_token().token_type)->0),
        decreases old(self).remaining(), 23int,
    {
        let mut entries: Vec<(String, Expr)> = Vec::new();
        if self.check(&TokenType::RightBrace) {
            return Ok(entries);
        }
        proof {
            super::lemma_next_is(*self, TokenType::RightBrace);
        }
        loop
            invariant
                super::advanced(*old(self), *self),
                !(old(self).next_token().token_type is RightBrace),
                entries@.len() > 0 ==> (old(self).next_token().token_type is String
                    || old(self).next_token().token_type is Identifier)
                    && entries@[0].0 == token_text(old(self).next_token().token_type)->0,
                entries@.len() == 0 ==> self.position() == old(self).position(),
            ensures
                super::advanced(*old(self), *self),
                entries@.len() > 0,
                (old(self).next_token().token_type is String || old(self).next_token().token_type is Identifier)
                    && entries@[0].0 == token_text(old(self).next_token().token_type)->0,
            decreases self.remaining(),
        {
            let key = match self.string_here() {
                Some(k) => k,
                None => match self.identifier_here() {
                    Some(k) => k,
                    None => return Err(self.syntax_error("Expected string or identifier as key")),
                },
            };
            self.advance();
            if !self.match_token(&TokenType::Colon) {
                return Err(self.syntax_error("Expected ':' after key"));
            }
            let value = match self.expression() {
                Ok(e) => e,
                Err(e) => return Err(e),
            };
            entries.push((key, value));
            if !self.match_token(&TokenType::Comma) {
                break;
            }
        }
        Ok(entries)
    }

    /// Entries `key: value` of a map literal, keys being strings or
    /// identifiers, values possibly lambdas; reads through the closing `}`.
    pub(super) fn map_entries(&mut self) -> (r: Result<Vec<(String, Expr)>, GraphoidError>)
        requires
            old(self).wf(),
        ensures
            parsed(*old(self), *final(self), r),
            old(self).next_token().token_type is RightBrace ==> {
                &&& r matches Ok(v) && v@.len() == 0
                &&& final(self).position() == old(self).position() + 1
            },
            entry_key(old(self).next_token().token_type) is Some && old(self).position() + 3 < old(self).tokens().len()
                && token_ahead(*old(self), 1) is Colon && is_operand(token_ahead(*old(self), 2))
                && token_ahead(*old(self), 3) is RightBrace ==> {
                &&& r matches Ok(v) && v@ == seq![(entry_key(old(self).next_token().token_type)->0,
                    operand_expr(old(self).tokens()[old(self).position() + 2int]))]
                &&& final(self).position() == old(self).position() + 4
            },
        decreases old(self).remaining(), 23int,
    {
        let ghost single = entry_key(old(self).next_token().token_type) is Some && old(self).position() + 3 < old(self).tokens().len()
            && token_ahead(*old(self), 1) is Colon && is_operand(token_ahead(*old(self), 2))
            && token_ahead(*old(self), 3) is RightBrace;
        let mut entries: Vec<(String, Expr)> = Vec::new();
        proof {
            super::lemma_next_is(*self, TokenType::Newline);
        }
        self.skip_newlines();
        proof {
            super::lemma_next_is(*self, TokenType::RightBrace);
        }
        if !self.check(&TokenType::RightBrace) {
            loop
                invariant_except_break
                    single ==> entries@.len() == 0 && self.position() == old(self).position(),
                invariant
                    super::advanced(*old(self), *self),
                    !(old(self).next_token().token_type is RightBrace),
                    single == (entry_key(old(self).next_token().token_type) is Some && old(self).position() + 3 < old(self).tokens().len()
                        && token_ahead(*old(self), 1) is Colon && is_operand(token_ahead(*old(self), 2))
                        && token_ahead(*old(self), 3) is RightBrace),
                ensures
                    super::advanced(*old(self), *self),
                    single ==> entries@ == seq![(entry_key(old(self).next_token().token_type)->0,
                        operand_expr(old(self).tokens()[old(self).position() + 2int]))]
                        && self.position() == old(self).position() + 3,
                decreases self.remaining(),
            {
                proof {
                    super::lemma_next_is(*self, TokenType::Newline);
                }
                self.skip_newlines();
                let key = match self.string_here() {
                    Some(k) => k,
                    None => match self.identifier_here() {
                        Some(k) => k,
                        None => return Err(self.syntax_error("Expected string or identifier as map key")),
                    },
                };
                self.advance();
                proof {
                    super::lemma_next_is(*self, TokenType::Colon);
                }
                if !self.match_token(&TokenType::Colon) {
                    return Err(self.syntax_error("Expected ':' after map key"));
                }
                let value = match self.lambda_or_expression() {
                    Ok(e) => e,
                    Err(e) => return Err(e),
                };
                entries.push((key, value));
                proof {
                    super::lemma_next_is(*self, TokenType::Comma);
                }
                if !self.match_token(&TokenType::Comma) {
                    break;
                }
            }
        }
        proof {
            super::lemma_next_is(*self, TokenType::Newline);
        }
        self.skip_newlines();
        proof {
            super::lemma_next_is(*self, TokenType::RightBrace);
        }
        if !self.match_token(&TokenType::RightBrace) {
            return Err(self.syntax_error("Expected '}' after map entries"));
        }
        Ok(entries)
    }

    /// Elements of a list literal separated by commas, line breaks allowed;
    /// reads through the closing `]`.
    pub(super) fn list_elements(&mut self) -> (r: Result<Vec<Expr>, GraphoidError>)
        requires
            old(self).wf(),
        ensures
            parsed(*old(self), *final(self), r),
            old(self).next_token().token_type is RightBracket ==> {
                &&& r matches Ok(v) && v@.len() == 0
                &&& final(self).position() == old(self).position() + 1
            },
            is_operand(old(self).next_token().token_type) && old(self).position() + 1 < old(self).tokens().len()
                && token_ahead(*old(self), 1) is RightBracket ==> {
                &&& r matches Ok(v) && v@ == seq![operand_expr(old(self).next_token())]
                &&& final(self).position() == old(self).position() + 2
            },
        decreases old(self).remaining(), 23int,
    {
        let ghost single = is_operand(old(self).next_token().token_type) && old(self).position() + 1 < old(self).tokens().len()
            && token_ahead(*old(self), 1) is RightBracket;
        let mut elements: Vec<Expr> = Vec::new();
        proof {
            super::lemma_next_is(*self, TokenType::Newline);
        }
        self.skip_newlines();
        proof {
            super::lemma_next_is(*self, TokenType::RightBracket);
        }
        if !self.check(&TokenType::RightBracket) {
            loop
                invariant_except_break
                    single ==> elements@.len() == 0 && self.position() == old(self).position(),
                invariant
                    super::advanced(*old(self), *self),
                    !(old(self).next_token().token_type is RightBracket),
                    single == (is_operand(old(self).next_token().token_type) && old(self).position() + 1 < old(self).tokens().len()
                        && token_ahead(*old(self), 1) is RightBracket),
                ensures
                    super::advanced(*old(self), *self),
                    single ==> elements@ == seq![operand_expr(old(self).next_token())]
                        && self.position() == old(self).position() + 1,
                decreases self.remaining(),
            {
                proof {
                    super::lemma_next_is(*self, TokenType::Newline);
                }
                self.skip_newlines();
                let e = match self.expression() {
                    Ok(e) => e,
                    Err(e) => return Err(e),
                };
                elements.push(e);
                proof {
                    super::lemma_next_is(*self, TokenType::Newline);
                }
                self.skip_newlines();
                proof {
                    super::lemma_next_is(*self, TokenType::Comma);
                }
                if !self.match_token(&TokenType::Comma) {
                    break;
                }
            }
        }
        proof {
            super::lemma_next_is(*self, TokenType::Newline);
        }
        self.skip_newlines();
        proof {
            super::lemma_next_is(*self, TokenType::RightBracket);
        }
        if !self.match_token(&TokenType::RightBracket) {
            return Err(self.syntax_error("Expected ']' after list elements"));
        }
        Ok(elements)
    }

    /// An optional `<type>` after `list` or `hash`, whose type name is read
    /// and dropped.
    pub(super) fn skip_type_parameter(&mut self, after: &str) -> (r: Result<(), GraphoidError>)
        requires
            old(self).wf(),
        ensures
            scanned(*old(self), *final(self), r),
            !(old(self).next_token().token_type is Less) ==> r is Ok && final(self).position() == old(self).position(),
            old(self).next_token().token_type is Less ==> (r is Ok <==> (
                type_name_token(token_ahead(*old(self), 1)) && token_ahead(*old(self), 2) is Greater)),
            old(self).next_token().token_type is Less && r is Ok ==> final(self).position() == old(self).position() + 3,
    {
        if self.match_token(&TokenType::Less) {
            let is_valid_type = match &self.peek().token_type {
                TokenType::Identifier(_) | TokenType::NumType | TokenType::StringType | TokenType::BoolType
                | TokenType::ListType | TokenType::MapType | TokenType::GraphType | TokenType::TreeType => true,
                _ => false,
            };
            if !is_valid_type {
                let mut message = String::from_str("Expected type name after '");
                message.append(after);
                message.append("<'");
                return Err(self.syntax_error(message.as_str()));
            }
            self.advance();
            if !self.match_token(&TokenType::Greater) {
                return Err(self.syntax_error("Expected '>' after type parameter"));
            }
        }
        Ok(())
    }

    /// Literals, variables, `raise`, `match`, `super.method(..)`, list, map,
    /// graph and tree literals, block `if`/`unless` expressions, static calls
    /// on `list` and `string`, and parenthesized expressions.
    pub(super) fn primary(&mut self) -> (r: Result<Expr, GraphoidError>)
        requires
            old(self).wf(),
        ensures
            parsed(*old(self), *final(self), r),
            token_literal(old(self).next_token().token_type) matches Some(v) ==> {
                &&& r == Ok::<Expr, GraphoidError>(Expr::Literal { value: v, position: token_position(old(self).next_token()) })
                &&& final(self).position() == old(self).position() + 1
            },
            old(self).next_token().token_type matches TokenType::Identifier(name) ==> {
                &&& r == Ok::<Expr, GraphoidError>(Expr::Variable { name, position: token_position(old(self).next_token()) })
                &&& final(self).position() == old(self).position() + 1
            },
            old(self).next_token().token_type is TreeType && old(self).position() + 2 < old(self).tokens().len()
                && token_ahead(*old(self), 1) is LeftBrace && token_ahead(*old(self), 2) is RightBrace ==> {
                &&& r matches Ok(Expr::MethodCall { object, method, args, position })
                    && method@ == "with_ruleset"@
                    && position == token_position(old(self).next_token())
                    && (*object matches Expr::Graph { config, parent: None, position: gp } && config@.len() == 0 && gp == position)
                    && args@.len() == 1
                    && (args@[0] matches Argument::Positional { expr: Expr::Literal { value: LiteralValue::Symbol(sym), position: sp }, mutable: false }
                        && sym@ == "tree"@ && sp == position)
                &&& final(self).position() == old(self).position() + 3
            },
            literal_block_conditional(*old(self)) && old(self).next_token().token_type is Unless ==> (r matches Err(e)
                && syntax_error_is(e, "'unless' cannot be used with 'else'"@, old(self).next_token())),
            literal_block_conditional(*old(self)) && old(self).next_token().token_type is If ==> {
                &&& r matches Ok(Expr::Conditional { condition, then_expr, else_expr: Some(other), is_unless: false, position })
                    && *condition == operand_expr(old(self).tokens()[old(self).position() + 1int])
                    && position == token_position(old(self).next_token())
                    && (*then_expr matches Expr::Block { statements, position: tp } && statements@.len() == 0 && tp == position)
                    && (*other matches Expr::Block { statements, .. } && statements@.len() == 0)
                &&& final(self).position() == old(self).position() + 7
            },
            old(self).next_token().token_type is Raise && old(self).position() + 2 < old(self).tokens().len()
                && is_operand(token_ahead(*old(self), 1)) && ends_expression(token_ahead(*old(self), 2)) ==> {
                &&& r == Ok::<Expr, GraphoidError>(Expr::Raise {
                    error: Box::new(operand_expr(old(self).tokens()[old(self).position() + 1int])),
                    position: token_position(old(self).next_token()),
                })
                &&& final(self).position() == old(self).position() + 2
            },
            old(self).next_token().token_type is LeftParen && old(self).position() + 2 < old(self).tokens().len()
                && is_operand(token_ahead(*old(self), 1)) && token_ahead(*old(self), 2) is RightParen ==> {
                &&& r == Ok::<Expr, GraphoidError>(operand_expr(old(self).tokens()[old(self).position() + 1int]))
                &&& final(self).position() == old(self).position() + 3
            },
            old(self).next_token().token_type is LeftBracket && old(self).position() + 1 < old(self).tokens().len()
                && token_ahead(*old(self), 1) is RightBracket ==> {
                &&& r matches Ok(Expr::List { elements, position })
                    && elements@.len() == 0 && position == token_position(old(self).next_token())
                &&& final(self).position() == old(self).position() + 2
            },
            old(self).next_token().token_type is LeftBracket && old(self).position() + 2 < old(self).tokens().len()
                && is_operand(token_ahead(*old(self), 1)) && token_ahead(*old(self), 2) is RightBracket ==> {
                &&& r matches Ok(Expr::List { elements, position })
                    && elements@ == seq![operand_expr(old(self).tokens()[old(self).position() + 1int])]
                    && position == token_position(old(self).next_token())
                &&& final(self).position() == old(self).position() + 3
            },
            old(self).next_token().token_type is Match
                && simple_match_at(old(self).tokens(), old(self).position() + 1int, 0) ==> (r matches Err(e)
                && syntax_error_is(e, "Match expression must have at least one arm"@, old(self).next_token())),
            old(self).next_token().token_type is Match
                && simple_match_at(old(self).tokens(), old(self).position() + 1int, 1) ==> {
                &&& r matches Ok(Expr::Match { value, arms, position })
                    && *value == operand_expr(old(self).tokens()[old(self).position() + 1int])
                    && position == token_position(old(self).next_token()) && arms@.len() == 1
                    && arms@[0] == (MatchArm {
                        pattern: token_pattern(token_ahead(*old(self), 3)),
                        body: operand_expr(old(self).tokens()[old(self).position() + 5int]),
                        position: token_position(old(self).tokens()[old(self).position() + 3int]),
                    })
                &&& final(self).position() == old(self).position() + 7
            },
            old(self).next_token().token_type is GraphType && old(self).position() + 2 < old(self).tokens().len()
                && token_ahead(*old(self), 1) is LeftBrace && token_ahead(*old(self), 2) is RightBrace ==> {
                &&& r matches Ok(Expr::Graph { config, parent: None, position })
                    && config@.len() == 0 && position == token_position(old(self).next_token())
                &&& final(self).position() == old(self).position() + 3
            },
            old(self).next_token().token_type is LeftBrace && old(self).position() + 1 < old(self).tokens().len()
                && token_ahead(*old(self), 1) is RightBrace ==> {
                &&& r matches Ok(Expr::MapLit { entries, position })
                    && entries@.len() == 0 && position == token_position(old(self).next_token())
                &&& final(self).position() == old(self).position() + 2
            },
            old(self).next_token().token_type is LeftBrace && entry_key(token_ahead(*old(self), 1)) is Some
                && old(self).position() + 4 < old(self).tokens().len() && token_ahead(*old(self), 2) is Colon
                && is_operand(token_ahead(*old(self), 3)) && token_ahead(*old(self), 4) is RightBrace ==> {
                &&& r matches Ok(Expr::MapLit { entries, position })
                    && entries@ == seq![(entry_key(token_ahead(*old(self), 1))->0,
                        operand_expr(old(self).tokens()[old(self).position() + 3int]))]
                    && position == token_position(old(self).next_token())
                &&& final(self).position() == old(self).position() + 5
            },
        decreases old(self).remaining(), 5int,
    {
        let position = self.peek().position();
        if self.match_token(&TokenType::Raise) {
            let error_expr = match self.expression() {
                Ok(e) => e,
                Err(e) => return Err(e),
            };
            return Ok(Expr::Raise { error: Box::new(error_expr), position });
        }
        if self.match_token(&TokenType::Match) {
            return self.match_expression(position);
        }
        if self.match_token(&TokenType::Super) {
            if !self.match_token(&TokenType::Dot) {
                return Err(self.syntax_error("Expected '.' after 'super'"));
            }
            let method = match self.identifier_here() {
                Some(m) => m,
                None => return Err(self.syntax_error("Expected method name after 'super.'")),
            };
            self.advance();
            if !self.match_token(&TokenType::LeftParen) {
                return Err(self.syntax_error("Expected '(' after super method name"));
            }
            let args = match self.arguments() {
                Ok(a) => a,
                Err(e) => return Err(e),
            };
            if !self.match_token(&TokenType::RightParen) {
                return Err(self.syntax_error("Expected ')' after super method arguments"));
            }
            return Ok(Expr::SuperMethodCall { method, args, position });
        }
        let literal = match &self.peek().token_type {
            TokenType::Number(n) => Some(LiteralValue::Number(*n)),
            TokenType::String(s) => Some(LiteralValue::String(s.clone())),
            TokenType::Symbol(s) => Some(LiteralValue::Symbol(s.clone())),
            TokenType::True => Some(LiteralValue::Boolean(true)),
            TokenType::False => Some(LiteralValue::Boolean(false)),
            TokenType::NoneKw => Some(LiteralValue::NoneValue),
            _ => None,
        };
        match literal {
            Some(value) => {
                self.advance();
                return Ok(Expr::Literal { value, position });
            },
            None => {},
        }
        match self.identifier_here() {
            Some(name) => {
                self.advance();
                return Ok(Expr::Variable { name, position });
            },
            None => {},
        }
        if self.match_token(&TokenType::ListType) {
            if self.check(&TokenType::Dot) {
                return Ok(Expr::Variable { name: String::from_str("list"), position });
            }
            match self.skip_type_parameter("list") {
                Ok(()) => {},
                Err(e) => return Err(e),
            }
            if !self.match_token(&TokenType::LeftBracket) {
                return Err(self.syntax_error("Expected '[' after 'list' or 'list<type>'"));
            }
            let elements = match self.list_elements() {
                Ok(v) => v,
                Err(e) => return Err(e),
            };
            return Ok(Expr::List { elements, position });
        }
        if self.match_token(&TokenType::LeftBracket) {
            let elements = match self.list_elements() {
                Ok(v) => v,
                Err(e) => return Err(e),
            };
            return Ok(Expr::List { elements, position });
        }
        if self.match_token(&TokenType::StringType) {
            if self.check(&TokenType::Dot) {
                return Ok(Expr::Variable { name: String::from_str("string"), position });
            }
            return Err(error_at(
                "Unexpected 'string' keyword. Did you mean a string literal (\"text\") or string.generate()?",
                position,
            ));
        }
        if self.match_token(&TokenType::GraphType) {
            let parent = if self.match_token(&TokenType::From) {
                match self.expression() {
                    Ok(e) => Some(Box::new(e)),
                    Err(e) => return Err(e),
                }
            } else {
                None
            };
            if !self.match_token(&TokenType::LeftBrace) {
                return Err(self.syntax_error("Expected '{' after 'graph' or parent expression"));
            }
            let config = match self.parse_config_entries() {
                Ok(c) => c,
                Err(e) => return Err(e),
            };
            if !self.match_token(&TokenType::RightBrace) {
                return Err(self.syntax_error("Expected '}' after graph config"));
            }
            return Ok(Expr::Graph { config, parent, position });
        }
        if self.match_token(&TokenType::TreeType) {
            if !self.match_token(&TokenType::LeftBrace) {
                return Err(self.syntax_error("Expected '{' after 'tree'"));
            }
            let config = match self.parse_config_entries() {
                Ok(c) => c,
                Err(e) => return Err(e),
            };
            if !self.match_token(&TokenType::RightBrace) {
                return Err(self.syntax_error("Expected '}' after tree config"));
            }
            let graph_expr = Expr::Graph { config, parent: None, position };
            let symbol_expr = Expr::Literal { value: LiteralValue::Symbol(String::from_str("tree")), position };
            return Ok(Expr::MethodCall {
                object: Box::new(graph_expr),
                method: String::from_str("with_ruleset"),
                args: vec![Argument::Positional { expr: symbol_expr, mutable: false }],
                position,
            });
        }
        if self.match_token(&TokenType::MapType) {
            match self.skip_type_parameter("hash") {
                Ok(()) => {},
                Err(e) => return Err(e),
            }
            if !self.match_token(&TokenType::LeftBrace) {
                return Err(self.syntax_error("Expected '{' after 'hash' or 'hash<type>'"));
            }
            let entries = match self.map_entries() {
                Ok(v) => v,
                Err(e) => return Err(e),
            };
            return Ok(Expr::MapLit { entries, position });
        }
        if self.check(&TokenType::If) || self.check(&TokenType::Unless) {
            let is_unless = self.check(&TokenType::Unless);
            self.advance();
            let if_position = self.previous_position();
            let condition = match self.or_expression() {
                Ok(e) => e,
                Err(e) => return Err(e),
            };
            if !self.match_token(&TokenType::LeftBrace) {
                return Err(self.syntax_error(
                    "Expected '{' after if condition (use suffix form for inline conditionals)",
                ));
            }
            let then_statements = match self.block() {
                Ok(s) => s,
                Err(e) => return Err(e),
            };
            if !self.match_token(&TokenType::RightBrace) {
                return Err(self.syntax_error("Expected '}' after if block"));
            }
            let then_expr = Expr::Block { statements: then_statements, position: if_position };
            let else_expr = if self.match_token(&TokenType::Else) {
                if is_unless {
                    return Err(error_at("'unless' cannot be used with 'else'", if_position));
                }
                if !self.match_token(&TokenType::LeftBrace) {
                    return Err(self.syntax_error("Expected '{' after 'else'"));
                }
                let else_statements = match self.block() {
                    Ok(s) => s,
                    Err(e) => return Err(e),
                };
                if !self.match_token(&TokenType::RightBrace) {
                    return Err(self.syntax_error("Expected '}' after else block"));
                }
                Some(Box::new(Expr::Block { statements: else_statements, position: self.previous_position() }))
            } else {
                None
            };
            return Ok(Expr::Conditional {
                condition: Box::new(condition),
                then_expr: Box::new(then_expr),
                else_expr,
                is_unless,
                position: if_position,
            });
        }
        if self.match_token(&TokenType::LeftBrace) {
            let entries = match self.map_entries() {
                Ok(v) => v,
                Err(e) => return Err(e),
            };
            return Ok(Expr::MapLit { entries, position });
        }
        if self.match_token(&TokenType::LeftParen) {
            let expr = match self.expression() {
                Ok(e) => e,
                Err(e) => return Err(e),
            };
            if !self.match_token(&TokenType::RightParen) {
                return Err(self.syntax_error("Expected ')' after expression"));
            }
            return Ok(expr);
        }
        let mut message = String::from_str("Unexpected token: ");
        message.append(describe(&self.peek().token_type).as_str());
        Err(self.syntax_error(message.as_str()))
    }

    /// `match value { pattern => body, .. }` after the `match` keyword; each
    /// arm ends with a comma, a line break or the closing brace, and there
    /// is at least one arm.
    pub(super) fn match_expression(&mut self, position: crate::error::SourcePosition) -> (r: Result<Expr, GraphoidError>)
        requires
            old(self).wf(),
        ensures
            parsed(*old(self), *final(self), r),
            simple_match(*old(self), 0) ==> (r matches Err(GraphoidError::SyntaxError { message, position: p })
                && message@ == "Match expression must have at least one arm"@ && p == position),
            simple_match(*old(self), 1) ==> {
                &&& r matches Ok(Expr::Match { value, arms, position: p })
                    && *value == operand_expr(old(self).next_token()) && p == position && arms@.len() == 1
                    && arms@[0] == (MatchArm {
                        pattern: token_pattern(token_ahead(*old(self), 2)),
                        body: operand_expr(old(self).tokens()[old(self).position() + 4int]),
                        position: token_position(old(self).tokens()[old(self).position() + 2int]),
                    })
                &&& final(self).position() == old(self).position() + 6
            },
        decreases old(self).remaining(), 21int,
    {
        let value = match self.expression() {
            Ok(e) => e,
            Err(e) => return Err(e),
        };
        if !self.match_token(&TokenType::LeftBrace) {
            return Err(self.syntax_error("Expected '{' after match value"));
        }
        proof {
            super::lemma_next_is(*self, TokenType::Newline);
        }
        self.skip_newlines();
        let mut arms: Vec<MatchArm> = Vec::new();
        let ghost expected = MatchArm {
            pattern: token_pattern(token_ahead(*old(self), 2)),
            body: operand_expr(old(self).tokens()[old(self).position() + 4int]),
            position: token_position(old(self).tokens()[old(self).position() + 2int]),
        };
        while !self.check(&TokenType::RightBrace) && !self.is_at_end()
            invariant_except_break
                simple_match(*old(self), 0) ==> arms@.len() == 0 && self.position() == old(self).position() + 2,
                simple_match(*old(self), 1) ==> arms@.len() == 0 && self.position() == old(self).position() + 2,
            invariant
                progressed(*old(self), *self),
                expected == (MatchArm {
                    pattern: token_pattern(token_ahead(*old(self), 2)),
                    body: operand_expr(old(self).tokens()[old(self).position() + 4int]),
                    position: token_position(old(self).tokens()[old(self).position() + 2int]),
                }),
            ensures
                progressed(*old(self), *self),
                simple_match(*old(self), 0) ==> arms@.len() == 0 && self.position() == old(self).position() + 2,
                simple_match(*old(self), 1) ==> arms@.len() == 1 && arms@[0] == expected
                    && self.position() == old(self).position() + 5,
            decreases self.remaining(),
        {
            proof {
                super::lemma_next_is(*self, TokenType::RightBrace);
                super::lemma_next_is(*self, TokenType::Arrow);
            }
            let arm_position = self.peek().position();
            let pattern = match self.match_pattern() {
                Ok(p) => p,
                Err(e) => return Err(e),
            };
            if !self.match_token(&TokenType::Arrow) {
                return Err(self.syntax_error("Expected '=>' after match pattern"));
            }
            let body = match self.primary() {
                Ok(e) => e,
                Err(e) => return Err(e),
            };
            arms.push(MatchArm { pattern, body, position: arm_position });
            proof {
                super::lemma_next_is(*self, TokenType::Comma);
                super::lemma_next_is(*self, TokenType::Newline);
                super::lemma_next_is(*self, TokenType::RightBrace);
            }
            if self.match_token(&TokenType::Comma) {
                self.skip_newlines();
            } else if self.match_token(&TokenType::Newline) {
                self.skip_newlines();
            } else if self.check(&TokenType::RightBrace) {
                break;
            } else {
                let mut message = String::from_str("Expected comma, newline, or '}' after match arm, got ");
                message.append(describe(&self.peek().token_type).as_str());
                return Err(self.syntax_error(message.as_str()));
            }
        }
        self.skip_newlines();
        if !self.match_token(&TokenType::RightBrace) {
            return Err(self.syntax_error("Expected '}' after match arms"));
        }
        if arms.len() == 0 {
            return Err(error_at("Match expression must have at least one arm", position));
        }
        Ok(Expr::Match { value: Box::new(value), arms, position })
    }

    /// A pattern of a `match` arm: `_`, a literal, a variable, or a list
    /// pattern `[p, .., ...rest]` whose rest part comes last.
    pub(super) fn match_pattern(&mut self) -> (r: Result<MatchPattern, GraphoidError>)
        requires
            old(self).wf(),
        ensures
            parsed(*old(self), *final(self), r),
            old(self).next_token().token_type matches TokenType::Identifier(n) ==> {
                &&& r == Ok::<MatchPattern, GraphoidError>(if n@ == "_"@ { MatchPattern::Wildcard } else { MatchPattern::Variable(n) })
                &&& final(self).position() == old(self).position() + 1
            },
            pattern_literal(old(self).next_token().token_type) matches Some(v) ==> {
                &&& r == Ok::<MatchPattern, GraphoidError>(MatchPattern::Literal(v))
                &&& final(self).position() == old(self).position() + 1
            },
            !(old(self).next_token().token_type is Identifier || old(self).next_token().token_type is LeftBracket
                || pattern_literal(old(self).next_token().token_type) is Some) ==> r is Err,
        decreases old(self).remaining(),
    {
        match self.identifier_here() {
            Some(name) => {
                self.advance();
                if str_eq(name.as_str(), "_") {
                    return Ok(MatchPattern::Wildcard);
                }
                return Ok(MatchPattern::Variable(name));
            },
            None => {},
        }
        if self.match_token(&TokenType::LeftBracket) {
            let mut elements: Vec<MatchPattern> = Vec::new();
            let mut rest_name: Option<String> = None;
            while !self.check(&TokenType::RightBracket) && !self.is_at_end()
                invariant
                    progressed(*old(self), *self),
                    old(self).next_token().token_type is LeftBracket,
                decreases self.remaining(),
            {
                if self.match_token(&TokenType::DotDotDot) {
                    match self.identifier_here() {
                        Some(name) => {
                            rest_name = Some(name);
                            self.advance();
                        },
                        None => {
                            rest_name = Some(String::from_str("_"));
                        },
                    }
                    self.match_token(&TokenType::Comma);
                    if !self.check(&TokenType::RightBracket) {
                        return Err(self.syntax_error("Rest pattern must be the last element in a list pattern"));
                    }
                    break;
                }
                let element = match self.match_pattern() {
                    Ok(p) => p,
                    Err(e) => return Err(e),
                };
                elements.push(element);
                if !self.check(&TokenType::RightBracket) {
                    self.match_token(&TokenType::Comma);
                }
            }
            if !self.match_token(&TokenType::RightBracket) {
                return Err(self.syntax_error("Expected ']' after list pattern"));
            }
            return Ok(MatchPattern::List { elements, rest_name });
        }
        let literal = match &self.peek().token_type {
            TokenType::Number(n) => Some(LiteralValue::Number(*n)),
            TokenType::String(s) => Some(LiteralValue::String(s.clone())),
            TokenType::True => Some(LiteralValue::Boolean(true)),
            TokenType::False => Some(LiteralValue::Boolean(false)),
            TokenType::NoneKw => Some(LiteralValue::NoneValue),
            _ => None,
        };
        match literal {
            Some(value) => {
                self.advance();
                Ok(MatchPattern::Literal(value))
            },
            None => {
                let mut message = String::from_str("Expected pattern, got ");
                message.append(describe(&self.peek().token_type).as_str());
                Err(self.syntax_error(message.as_str()))
            },
        }
    }
}

} // verus!
