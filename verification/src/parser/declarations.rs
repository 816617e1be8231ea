//! Graph declarations and the statements with a braced body of their own:
//! `configure`, `precision` and `try`; also the pattern clauses of
//! pattern-matching functions.

use vstd::prelude::*;
use crate::ast::{CatchClause, Expr, GraphMethod, GraphProperty, GraphRule, LiteralValue, Pattern, PatternClause, Stmt};
use crate::error::GraphoidError;
use crate::text::str_eq;
use crate::token::{describe, TokenType};
use super::numbers::{f64_whole_number, saturate, whole_number_places};
use super::{syntax_error_is, token_ahead, token_position, advanced, error_at, parsed, progressed, scanned, Parser};

verus! {

/// The keys a graph's `configure` block accepts: `readable`, `writable`
/// and `accessible`.
pub open spec fn config_key(k: Seq<char>) -> bool {
    k == "readable"@ || k == "writable"@ || k == "accessible"@
}

/// `after` keeps the entries of `before` under their keys, in order, and
/// every entry it adds is under a key that `configure` accepts.
pub open spec fn config_grown(before: Seq<(String, Vec<String>)>, after: Seq<(String, Vec<String>)>) -> bool {
    &&& before.len() <= after.len()
    &&& forall|i: int| 0 <= i < before.len() ==> #[trigger] after[i].0 == before[i].0
    &&& forall|i: int| before.len() <= i < after.len() ==> config_key(#[trigger] after[i].0@)
}

/// No two entries have the same key.
pub open spec fn distinct_keys<V>(entries: Seq<(String, V)>) -> bool {
    forall|i: int, j: int| 0 <= i < j < entries.len() ==> entries[i].0@ != entries[j].0@
}

/// Some entry has key `key`.
pub open spec fn has_key<V>(entries: Seq<(String, V)>, key: Seq<char>) -> bool {
    exists|i: int| 0 <= i < entries.len() && entries[i].0@ == key
}

/// Adds `symbols` to the entry for `key`: appended to its symbols when the
/// key is present, as a new last entry otherwise.
pub fn merge_config_entry(config: &mut Vec<(String, Vec<String>)>, key: String, symbols: Vec<String>)
    requires
        distinct_keys(old(config)@),
    ensures
        distinct_keys(final(config)@),
        !has_key(old(config)@, key@) ==> final(config)@ == old(config)@.push((key, symbols)),
        has_key(old(config)@, key@) ==> {
            &&& final(config)@.len() == old(config)@.len()
            &&& forall|i: int| 0 <= i < old(config)@.len() ==> {
                &&& #[trigger] final(config)@[i].0 == old(config)@[i].0
                &&& old(config)@[i].0@ != key@ ==> final(config)@[i].1 == old(config)@[i].1
                &&& old(config)@[i].0@ == key@ ==> final(config)@[i].1@ == old(config)@[i].1@ + symbols@
            }
        },
{
    let n = config.len();
    let mut i: usize = 0;
    while i < n
        invariant
            n == config@.len(),
            config@ == old(config)@,
            distinct_keys(config@),
            i <= n,
            forall|j: int| 0 <= j < i ==> config@[j].0@ != key@,
        decreases n - i,
    {
        if str_eq(config[i].0.as_str(), key.as_str()) {
            let mut entry = config.remove(i);
            let mut more = symbols;
            entry.1.append(&mut more);
            config.insert(i, entry);
            proof {
                assert forall|j: int| 0 <= j < old(config)@.len() implies {
                    &&& #[trigger] config@[j].0 == old(config)@[j].0
                    &&& old(config)@[j].0@ != key@ ==> config@[j].1 == old(config)@[j].1
                    &&& old(config)@[j].0@ == key@ ==> config@[j].1@ == old(config)@[j].1@ + symbols@
                } by {
                    if j != i {
                        assert(old(config)@[j].0@ != key@);
                    }
                }
            }
            return;
        }
        i = i + 1;
    }
    proof {
        assert forall|j: int| 0 <= j < old(config)@.len() implies old(config)@[j].0@ != key@ by {}
    }
    config.push((key, symbols));
}

/// Sets the value for `key`: replaces the value of its entry when the key is
/// present, adds a new last entry otherwise.
pub fn insert_setting(settings: &mut Vec<(String, Expr)>, key: String, value: Expr)
    requires
        distinct_keys(old(settings)@),
    ensures
        distinct_keys(final(settings)@),
        !has_key(old(settings)@, key@) ==> final(settings)@ == old(settings)@.push((key, value)),
        has_key(old(settings)@, key@) ==> {
            &&& final(settings)@.len() == old(settings)@.len()
            &&& forall|i: int| 0 <= i < old(settings)@.len() ==> {
                &&& #[trigger] final(settings)@[i].0 == old(settings)@[i].0
                &&& old(settings)@[i].0@ != key@ ==> final(settings)@[i].1 == old(settings)@[i].1
                &&& old(settings)@[i].0@ == key@ ==> final(settings)@[i].1 == value
            }
        },
{
    let n = settings.len();
    let mut i: usize = 0;
    while i < n
        invariant
            n == settings@.len(),
            settings@ == old(settings)@,
            distinct_keys(settings@),
            i <= n,
            forall|j: int| 0 <= j < i ==> settings@[j].0@ != key@,
        decreases n - i,
    {
        if str_eq(settings[i].0.as_str(), key.as_str()) {
            let entry = settings.remove(i);
            let name = entry.0;
            settings.insert(i, (name, value));
            proof {
                assert forall|j: int| 0 <= j < old(settings)@.len() implies {
                    &&& #[trigger] settings@[j].0 == old(settings)@[j].0
                    &&& old(settings)@[j].0@ != key@ ==> settings@[j].1 == old(settings)@[j].1
                    &&& old(settings)@[j].0@ == key@ ==> settings@[j].1 == value
                } by {
                    if j != i {
                        assert(old(settings)@[j].0@ != key@);
                    }
                }
            }
            return;
        }
        i = i + 1;
    }
    proof {
        assert forall|j: int| 0 <= j < old(settings)@.len() implies old(settings)@[j].0@ != key@ by {}
    }
    settings.push((key, value));
}

impl Parser {
    /// `graph Name(:type) from Parent { body }` (type and parent optional),
    /// starting at the `graph` keyword.
    pub(super) fn graph_declaration(&mut self) -> (r: Result<Stmt, GraphoidError>)
        requires
            old(self).wf(),
        ensures
            r matches Ok(s) ==> s is GraphDecl,
            parsed(*old(self), *final(self), r),
            old(self).position() + 3 < old(self).tokens().len() && !(old(self).next_token().token_type is Eof)
                && token_ahead(*old(self), 1) is Identifier && token_ahead(*old(self), 2) is LeftBrace
                && token_ahead(*old(self), 3) is RightBrace ==> {
                &&& r matches Ok(Stmt::GraphDecl { name, graph_type: None, parent: None, properties, methods, rules, config, position })
                    && token_ahead(*old(self), 1) == TokenType::Identifier(name)
                    && properties@.len() == 0 && methods@.len() == 0 && rules@.len() == 0 && config@.len() == 0
                    && position == token_position(old(self).next_token())
                &&& final(self).position() == old(self).position() + 4
            },
            old(self).position() + 1 < old(self).tokens().len() && !(old(self).next_token().token_type is Eof)
                && !(token_ahead(*old(self), 1) is Identifier) ==> (r matches Err(e) && syntax_error_is(e,
                    "Expected graph name after 'graph' keyword"@, old(self).tokens()[old(self).position() + 1int])),
        decreases old(self).remaining(), 45int,
    {
        let position = self.peek().position();
        self.advance();
        let name = match self.identifier_here() {
            Some(n) => n,
            None => return Err(self.syntax_error("Expected graph name after 'graph' keyword")),
        };
        self.advance();
        proof {
            super::lemma_next_is(*self, TokenType::LeftParen);
            super::lemma_next_is(*self, TokenType::From);
        }
        let graph_type = if self.match_token(&TokenType::LeftParen) {
            let gtype = match self.symbol_here() {
                Some(t) => t,
                None => return Err(self.syntax_error("Expected graph type symbol (e.g., :dag, :tree)")),
            };
            self.advance();
            if !self.match_token(&TokenType::RightParen) {
                return Err(self.syntax_error("Expected ')' after graph type"));
            }
            Some(gtype)
        } else {
            None
        };
        let parent = if self.match_token(&TokenType::From) {
            self.disable_brace_instantiation = true;
            let parent_expr = match self.expression() {
                Ok(e) => e,
                Err(e) => return Err(e),
            };
            self.disable_brace_instantiation = false;
            Some(Box::new(parent_expr))
        } else {
            None
        };
        if !self.match_token(&TokenType::LeftBrace) {
            return Err(self.syntax_error("Expected '{' after graph declaration"));
        }
        let (properties, methods, rules, config) = match self.parse_graph_body() {
            Ok(b) => b,
            Err(e) => return Err(e),
        };
        if !self.match_token(&TokenType::RightBrace) {
            return Err(self.syntax_error("Expected '}' to close graph declaration"));
        }
        Ok(Stmt::GraphDecl { name, graph_type, parent, properties, methods, rules, config, position })
    }

    /// The entries of a graph body up to `}` or `Eof`: properties
    /// `name: value`, methods, `rule :name[, param]` and `configure { .. }`
    /// blocks, separated by line breaks, semicolons or commas.
    pub(super) fn parse_graph_body(&mut self) -> (r: Result<
        (Vec<GraphProperty>, Vec<GraphMethod>, Vec<GraphRule>, Vec<(String, Vec<String>)>),
        GraphoidError,
    >)
        requires
            old(self).wf(),
        ensures
            scanned(*old(self), *final(self), r),
            r matches Ok(body) ==> distinct_keys(body.3@),
            r is Ok ==> final(self).next_token().token_type is RightBrace || final(self).next_token().token_type is Eof,
            old(self).next_token().token_type is RightBrace ==> (r matches Ok(body)
                && body.0@.len() == 0 && body.1@.len() == 0 && body.2@.len() == 0 && body.3@.len() == 0
                && final(self).position() == old(self).position()),
        decreases old(self).remaining(), 40int,
    {
        let mut properties: Vec<GraphProperty> = Vec::new();
        let mut methods: Vec<GraphMethod> = Vec::new();
        let mut rules: Vec<GraphRule> = Vec::new();
        let mut config: Vec<(String, Vec<String>)> = Vec::new();
        loop
            invariant
                advanced(*old(self), *self),
                distinct_keys(config@),
                old(self).next_token().token_type is RightBrace ==> (self.position() == old(self).position()
                    && properties@.len() == 0 && methods@.len() == 0 && rules@.len() == 0 && config@.len() == 0),
            ensures
                advanced(*old(self), *self),
                distinct_keys(config@),
                old(self).next_token().token_type is RightBrace ==> (self.position() == old(self).position()
                    && properties@.len() == 0 && methods@.len() == 0 && rules@.len() == 0 && config@.len() == 0),
                self.next_token().token_type is RightBrace || self.next_token().token_type is Eof,
            decreases self.remaining(),
        {
            let ghost start = self.position();
            loop
                invariant
                    advanced(*old(self), *self),
                    start <= self.position(),
                    !(self.tokens()[start as int].token_type is Newline || self.tokens()[start as int].token_type is Semicolon)
                        ==> self.position() == start,
                ensures
                    advanced(*old(self), *self),
                    start <= self.position(),
                    !(self.tokens()[start as int].token_type is Newline || self.tokens()[start as int].token_type is Semicolon)
                        ==> self.position() == start,
                decreases self.remaining(),
            {
                let ghost before = *self;
                proof {
                    super::lemma_next_is(before, TokenType::Newline);
                    super::lemma_next_is(before, TokenType::Semicolon);
                }
                if !(self.match_token(&TokenType::Newline) || self.match_token(&TokenType::Semicolon)) {
                    break;
                }
            }
            proof {
                super::lemma_next_is(*self, TokenType::RightBrace);
            }
            if self.check(&TokenType::RightBrace) || self.is_at_end() {
                break;
            }
            if self.match_token(&TokenType::Comma) {
                continue;
            }
            if self.match_token(&TokenType::Configure) {
                if !self.match_token(&TokenType::LeftBrace) {
                    return Err(self.syntax_error("Expected '{' after 'configure'"));
                }
                match self.parse_graph_config(&mut config) {
                    Ok(()) => {},
                    Err(e) => return Err(e),
                }
                if !self.match_token(&TokenType::RightBrace) {
                    return Err(self.syntax_error("Expected '}' to close configure block"));
                }
                continue;
            }
            if self.match_token(&TokenType::Rule) {
                let rule_pos = self.previous_position();
                let name = match self.symbol_here() {
                    Some(n) => n,
                    None => return Err(self.syntax_error("Expected symbol after 'rule' (e.g., rule :no_cycles)")),
                };
                self.advance();
                let param = if self.match_token(&TokenType::Comma) {
                    match self.expression() {
                        Ok(e) => Some(e),
                        Err(e) => return Err(e),
                    }
                } else {
                    None
                };
                rules.push(GraphRule { name, param, position: rule_pos });
                continue;
            }
            let is_private = self.match_token(&TokenType::Priv);
            let is_static = if !is_private { self.match_token(&TokenType::Static) } else { false };
            if self.match_token(&TokenType::Func) {
                let method = match self.parse_graph_method(is_private, false, is_static) {
                    Ok(m) => m,
                    Err(e) => return Err(e),
                };
                methods.push(method);
            } else if self.match_token(&TokenType::SetKw) {
                let method = match self.parse_graph_method(is_private, true, is_static) {
                    Ok(m) => m,
                    Err(e) => return Err(e),
                };
                methods.push(method);
            } else if is_private {
                return Err(self.syntax_error("Expected 'fn' or 'set' after 'priv' in graph body"));
            } else {
                match self.identifier_here() {
                    Some(prop_name) => {
                        let prop_pos = self.peek().position();
                        self.advance();
                        if !self.match_token(&TokenType::Colon) {
                            let mut message = String::from_str("Expected ':' after property name '");
                            message.append(prop_name.as_str());
                            message.append("' in graph body");
                            return Err(self.syntax_error(message.as_str()));
                        }
                        let value = match self.expression() {
                            Ok(e) => e,
                            Err(e) => return Err(e),
                        };
                        properties.push(GraphProperty { name: prop_name, value, position: prop_pos });
                    },
                    None => {
                        let mut message = String::from_str("Unexpected token in graph body: ");
                        message.append(describe(&self.peek().token_type).as_str());
                        return Err(self.syntax_error(message.as_str()));
                    },
                }
            }
        }
        Ok((properties, methods, rules, config))
    }

    /// Entries `key: symbols` of a graph's `configure { .. }` block, up to
    /// `}` or `Eof`, merged into `config`.  Keys are `readable`, `writable`
    /// and `accessible`; each has at least one symbol.
    pub(super) fn parse_graph_config(&mut self, config: &mut Vec<(String, Vec<String>)>) -> (r: Result<(), GraphoidError>)
        requires
            old(self).wf(),
            distinct_keys(old(config)@),
        ensures
            scanned(*old(self), *final(self), r),
            distinct_keys(final(config)@),
            config_grown(old(config)@, final(config)@),
            r is Ok ==> final(self).next_token().token_type is RightBrace || final(self).next_token().token_type is Eof,
    {
        loop
            invariant
                advanced(*old(self), *self),
                distinct_keys(config@),
                config_grown(old(config)@, config@),
            ensures
                advanced(*old(self), *self),
                distinct_keys(config@),
                config_grown(old(config)@, config@),
                self.next_token().token_type is RightBrace || self.next_token().token_type is Eof,
            decreases self.remaining(),
        {
            self.skip_newlines();
            proof {
                super::lemma_next_is(*self, TokenType::RightBrace);
            }
            if self.check(&TokenType::RightBrace) || self.is_at_end() {
                break;
            }
            if self.match_token(&TokenType::Comma) {
                continue;
            }
            let key = match self.identifier_here() {
                Some(k) => k,
                None => {
                    let mut message = String::from_str("Expected config key (readable, writable, accessible), got ");
                    message.append(describe(&self.peek().token_type).as_str());
                    return Err(self.syntax_error(message.as_str()));
                },
            };
            self.advance();
            if !(str_eq(key.as_str(), "readable") || str_eq(key.as_str(), "writable") || str_eq(key.as_str(), "accessible")) {
                let mut message = String::from_str("Unknown config key '");
                message.append(key.as_str());
                message.append("'. Valid keys: readable, writable, accessible");
                return Err(self.syntax_error(message.as_str()));
            }
            if !self.match_token(&TokenType::Colon) {
                let mut message = String::from_str("Expected ':' after config key '");
                message.append(key.as_str());
                message.append("'");
                return Err(self.syntax_error(message.as_str()));
            }
            let symbols = match self.parse_config_symbols() {
                Ok(s) => s,
                Err(e) => return Err(e),
            };
            if symbols.len() == 0 {
                let mut message = String::from_str("Config '");
                message.append(key.as_str());
                message.append("' requires at least one symbol");
                return Err(self.syntax_error(message.as_str()));
            }
            let ghost c0 = config@;
            let ghost k = key@;
            merge_config_entry(config, key, symbols);
            proof {
                assert(config_key(k));
                if has_key(c0, k) {
                    assert forall|i: int| 0 <= i < c0.len() implies #[trigger] config@[i].0 == c0[i].0 by {}
                } else {
                    assert(config@[c0.len() as int].0@ == k);
                }
                assert(config_grown(old(config)@, config@));
            }
        }
        Ok(())
    }

    /// `:symbol` or `[:a, :b, ..]` (commas and line breaks optional).
    pub(super) fn parse_config_symbols(&mut self) -> (r: Result<Vec<String>, GraphoidError>)
        requires
            old(self).wf(),
        ensures
            parsed(*old(self), *final(self), r),
    {
        let mut symbols: Vec<String> = Vec::new();
        if self.match_token(&TokenType::LeftBracket) {
            loop
                invariant
                    progressed(*old(self), *self),
                decreases self.remaining(),
            {
                self.skip_newlines();
                if self.check(&TokenType::RightBracket) {
                    break;
                }
                if self.match_token(&TokenType::Comma) {
                    continue;
                }
                match self.symbol_here() {
                    Some(sym) => {
                        symbols.push(sym);
                        self.advance();
                    },
                    None => {
                        let mut message = String::from_str("Expected symbol in config list, got ");
                        message.append(describe(&self.peek().token_type).as_str());
                        return Err(self.syntax_error(message.as_str()));
                    },
                }
            }
            if !self.match_token(&TokenType::RightBracket) {
                return Err(self.syntax_error("Expected ']' to close config symbol list"));
            }
        } else {
            match self.symbol_here() {
                Some(sym) => {
                    symbols.push(sym);
                    self.advance();
                },
                None => {
                    let mut message = String::from_str("Expected symbol or symbol list, got ");
                    message.append(describe(&self.peek().token_type).as_str());
                    return Err(self.syntax_error(message.as_str()));
                },
            }
        }
        Ok(symbols)
    }

    /// A method of a graph body after `fn` or `set`: `name(params) when
    /// guard { body }`; a setter has exactly one parameter.
    pub(super) fn parse_graph_method(&mut self, is_private: bool, is_setter: bool, is_static: bool) -> (r: Result<
        GraphMethod,
        GraphoidError,
    >)
        requires
            old(self).wf(),
        ensures
            parsed(*old(self), *final(self), r),
        decreases old(self).remaining(), 30int,
    {
        let position = self.peek().position();
        let name = match self.identifier_here() {
            Some(n) => n,
            None => return Err(self.syntax_error("Expected method name")),
        };
        self.advance();
        if !self.match_token(&TokenType::LeftParen) {
            let mut message = String::from_str("Expected '(' after method name '");
            message.append(name.as_str());
            message.append("'");
            return Err(self.syntax_error(message.as_str()));
        }
        let params = match self.parameters() {
            Ok(p) => p,
            Err(e) => return Err(e),
        };
        if !self.match_token(&TokenType::RightParen) {
            return Err(self.syntax_error("Expected ')' after parameters"));
        }
        if is_setter && params.len() != 1 {
            return Err(self.syntax_error("Setters must have exactly one parameter"));
        }
        let guard = if self.match_token(&TokenType::When) {
            match self.expression() {
                Ok(e) => Some(Box::new(e)),
                Err(e) => return Err(e),
            }
        } else {
            None
        };
        if !self.match_token(&TokenType::LeftBrace) {
            return Err(self.syntax_error("Expected '{' before method body"));
        }
        let body = match self.block() {
            Ok(b) => b,
            Err(e) => return Err(e),
        };
        if !self.match_token(&TokenType::RightBrace) {
            return Err(self.syntax_error("Expected '}' after method body"));
        }
        Ok(GraphMethod { name, params, body, is_static, is_setter, is_private, guard, position })
    }

    /// `configure { key: value, :flag, .. } { body }` after `configure`;
    /// the body is optional.  A repeated key keeps its first place and its
    /// last value.
    pub(super) fn configure_statement(&mut self) -> (r: Result<Stmt, GraphoidError>)
        requires
            old(self).wf(),
        ensures
            r matches Ok(s) ==> s is Configure,
            parsed(*old(self), *final(self), r),
            r matches Ok(Stmt::Configure { settings, .. }) ==> distinct_keys(settings@),
        decreases old(self).remaining(), 30int,
    {
        let position = self.previous_position();
        if !self.match_token(&TokenType::LeftBrace) {
            return Err(self.syntax_error("Expected '{' after 'configure'"));
        }
        let mut settings: Vec<(String, Expr)> = Vec::new();
        while !self.check(&TokenType::RightBrace) && !self.is_at_end()
            invariant
                progressed(*old(self), *self),
                distinct_keys(settings@),
            decreases self.remaining(),
        {
            self.skip_newlines();
            if self.check(&TokenType::RightBrace) {
                break;
            }
            match self.symbol_here() {
                Some(symbol_name) => {
                    let pos = self.peek().position();
                    self.advance();
                    let key = symbol_name.clone();
                    insert_setting(&mut settings, key, Expr::Literal { value: LiteralValue::Symbol(symbol_name), position: pos });
                },
                None => {
                    let key = match &self.peek().token_type {
                        TokenType::Identifier(id) => id.clone(),
                        TokenType::Precision => String::from_str("precision"),
                        _ => {
                            let mut message = String::from_str("Expected configuration key or symbol, got ");
                            message.append(describe(&self.peek().token_type).as_str());
                            return Err(self.syntax_error(message.as_str()));
                        },
                    };
                    self.advance();
                    if !self.match_token(&TokenType::Colon) {
                        return Err(self.syntax_error("Expected ':' after configuration key"));
                    }
                    let value = match self.expression() {
                        Ok(e) => e,
                        Err(e) => return Err(e),
                    };
                    insert_setting(&mut settings, key, value);
                },
            }
            if !self.check(&TokenType::RightBrace) {
                if !self.match_token(&TokenType::Comma) {
                    self.match_token(&TokenType::Newline);
                }
            }
        }
        if !self.match_token(&TokenType::RightBrace) {
            return Err(self.syntax_error("Expected '}' after configuration settings"));
        }
        let body = if self.match_token(&TokenType::LeftBrace) {
            let stmts = match self.block() {
                Ok(b) => b,
                Err(e) => return Err(e),
            };
            if !self.match_token(&TokenType::RightBrace) {
                return Err(self.syntax_error("Expected '}' after configure body"));
            }
            Some(stmts)
        } else {
            None
        };
        Ok(Stmt::Configure { settings, body, position })
    }

    /// `precision n { body }` or `precision :int { body }` after
    /// `precision`; `n` must be a non-negative whole number, `:int` means 0.
    pub(super) fn precision_statement(&mut self) -> (r: Result<Stmt, GraphoidError>)
        requires
            old(self).wf(),
        ensures
            r matches Ok(s) ==> s is Precision,
            parsed(*old(self), *final(self), r),
            r matches Ok(Stmt::Precision { places, .. }) ==> match old(self).tokens()[old(self).position() as int].token_type {
                TokenType::Number(bits) => f64_whole_number(bits) matches Some(n) && places == Some(saturate(n)),
                TokenType::Symbol(s) => s@ == "int"@ && places == Some(0usize),
                _ => false,
            },
        decreases old(self).remaining(), 30int,
    {
        let position = self.previous_position();
        let places = match &self.peek().token_type {
            TokenType::Number(bits) => {
                let bits = *bits;
                self.advance();
                match whole_number_places(bits) {
                    Some(n) => Some(n),
                    None => {
                        return Err(error_at("Precision must be a non-negative integer", self.previous_position()));
                    },
                }
            },
            TokenType::Symbol(s) => {
                if str_eq(s.as_str(), "int") {
                    self.advance();
                    Some(0)
                } else {
                    let mut message = String::from_str("Invalid precision specifier :");
                    message.append(s.as_str());
                    message.append(", expected :int");
                    return Err(self.syntax_error(message.as_str()));
                }
            },
            _ => return Err(self.syntax_error("Expected number or :int after 'precision'")),
        };
        if !self.match_token(&TokenType::LeftBrace) {
            return Err(self.syntax_error("Expected '{' after precision value"));
        }
        let body = match self.block() {
            Ok(b) => b,
            Err(e) => return Err(e),
        };
        if !self.match_token(&TokenType::RightBrace) {
            return Err(self.syntax_error("Expected '}' after precision body"));
        }
        Ok(Stmt::Precision { places, body, position })
    }

    /// The name after `as` in a catch clause.
    pub(super) fn catch_variable(&mut self) -> (r: Result<String, GraphoidError>)
        requires
            old(self).wf(),
        ensures
            parsed(*old(self), *final(self), r),
    {
        match self.identifier_here() {
            Some(v) => {
                self.advance();
                Ok(v)
            },
            None => Err(self.syntax_error("Expected variable name after 'as'")),
        }
    }

    /// `try { .. }` after `try`, then catch clauses `catch`, `catch Type`,
    /// `catch Type as e` or `catch as e`, each with a body, then an optional
    /// `finally { .. }`; at least one catch clause or a finally block.
    pub(super) fn try_catch_statement(&mut self) -> (r: Result<Stmt, GraphoidError>)
        requires
            old(self).wf(),
        ensures
            r matches Ok(s) ==> s is Try,
            parsed(*old(self), *final(self), r),
            r matches Ok(Stmt::Try { catch_clauses, finally_block, .. }) ==> catch_clauses@.len() > 0 || finally_block is Some,
        decreases old(self).remaining(), 30int,
    {
        let position = self.previous_position();
        if !self.match_token(&TokenType::LeftBrace) {
            return Err(self.syntax_error("Expected '{' after 'try'"));
        }
        let body = match self.block() {
            Ok(b) => b,
            Err(e) => return Err(e),
        };
        if !self.match_token(&TokenType::RightBrace) {
            return Err(self.syntax_error("Expected '}' after try body"));
        }
        self.skip_newlines();
        let mut catch_clauses: Vec<CatchClause> = Vec::new();
        while self.match_token(&TokenType::Catch)
            invariant
                progressed(*old(self), *self),
            decreases self.remaining(),
        {
            let catch_pos = self.previous_position();
            let mut error_type: Option<String> = None;
            let mut variable: Option<String> = None;
            match self.identifier_here() {
                Some(name_of_type) => {
                    error_type = Some(name_of_type);
                    self.advance();
                    if self.match_token(&TokenType::As) {
                        match self.catch_variable() {
                            Ok(v) => variable = Some(v),
                            Err(e) => return Err(e),
                        }
                    }
                },
                None => {
                    if self.match_token(&TokenType::As) {
                        match self.catch_variable() {
                            Ok(v) => variable = Some(v),
                            Err(e) => return Err(e),
                        }
                    }
                },
            }
            if !self.match_token(&TokenType::LeftBrace) {
                return Err(self.syntax_error("Expected '{' after catch clause"));
            }
            let catch_body = match self.block() {
                Ok(b) => b,
                Err(e) => return Err(e),
            };
            if !self.match_token(&TokenType::RightBrace) {
                return Err(self.syntax_error("Expected '}' after catch body"));
            }
            catch_clauses.push(CatchClause { error_type, variable, body: catch_body, position: catch_pos });
            self.skip_newlines();
        }
        let finally_block = if self.match_token(&TokenType::Finally) {
            if !self.match_token(&TokenType::LeftBrace) {
                return Err(self.syntax_error("Expected '{' after 'finally'"));
            }
            let finally_body = match self.block() {
                Ok(b) => b,
                Err(e) => return Err(e),
            };
            if !self.match_token(&TokenType::RightBrace) {
                return Err(self.syntax_error("Expected '}' after finally body"));
            }
            Some(finally_body)
        } else {
            None
        };
        if catch_clauses.len() == 0 && finally_block.is_none() {
            return Err(error_at("Try statement must have at least one catch or finally block", position));
        }
        Ok(Stmt::Try { body, catch_clauses, finally_block, position })
    }

    /// `|pattern|` where the pattern is a literal, `_` or a variable name.
    pub(super) fn parse_pattern(&mut self) -> (r: Result<Pattern, GraphoidError>)
        requires
            old(self).wf(),
        ensures
            parsed(*old(self), *final(self), r),
    {
        let position = self.peek().position();
        if !self.match_token(&TokenType::Pipe) {
            return Err(error_at("Expected '|' to start pattern", position));
        }
        let literal = match &self.peek().token_type {
            TokenType::Number(n) => Some(LiteralValue::Number(*n)),
            TokenType::String(s) => Some(LiteralValue::String(s.clone())),
            TokenType::NoneKw => Some(LiteralValue::NoneValue),
            TokenType::True => Some(LiteralValue::Boolean(true)),
            TokenType::False => Some(LiteralValue::Boolean(false)),
            _ => None,
        };
        let pattern = match literal {
            Some(value) => Pattern::Literal { value, position },
            None => match self.identifier_here() {
                Some(name) => {
                    if str_eq(name.as_str(), "_") {
                        Pattern::Wildcard { position }
                    } else {
                        Pattern::Variable { name, position }
                    }
                },
                None => {
                    let mut message = String::from_str("Expected pattern, got ");
                    message.append(describe(&self.peek().token_type).as_str());
                    return Err(error_at(message.as_str(), position));
                },
            },
        };
        self.advance();
        if !self.match_token(&TokenType::Pipe) {
            return Err(self.syntax_error("Expected '|' after pattern"));
        }
        Ok(pattern)
    }

    /// `|pattern| if guard => body` (guard optional).
    pub(super) fn parse_pattern_clause(&mut self) -> (r: Result<PatternClause, GraphoidError>)
        requires
            old(self).wf(),
        ensures
            parsed(*old(self), *final(self), r),
        decreases old(self).remaining(), 22int,
    {
        let position = self.peek().position();
        let pattern = match self.parse_pattern() {
            Ok(p) => p,
            Err(e) => return Err(e),
        };
        let guard = if self.match_token(&TokenType::If) {
            match self.expression() {
                Ok(e) => Some(e),
                Err(e) => return Err(e),
            }
        } else {
            None
        };
        if !self.match_token(&TokenType::Arrow) {
            return Err(self.syntax_error("Expected '=>' after pattern"));
        }
        let body = match self.expression() {
            Ok(e) => e,
            Err(e) => return Err(e),
        };
        Ok(PatternClause { pattern, guard, body, position })
    }
}

} // verus!
