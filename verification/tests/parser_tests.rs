use graphoid::ast::{AssignmentTarget, BinaryOp, Expr, LiteralValue, Stmt};
use graphoid::error::GraphoidError;
use graphoid::parser::numbers::whole_number_places;
use graphoid::parser::Parser;
use graphoid::token::{Token, TokenType};

fn tok(tt: TokenType) -> Token {
    Token::new(tt, String::new(), 1, 1)
}

fn word(tt: TokenType, lexeme: &str) -> Token {
    Token::new(tt, lexeme.to_string(), 1, 1)
}

fn ident(name: &str) -> Token {
    word(TokenType::Identifier(name.to_string()), name)
}

fn num(v: f64) -> Token {
    tok(TokenType::Number(v.to_bits()))
}

fn sym(name: &str) -> Token {
    tok(TokenType::Symbol(name.to_string()))
}

fn parse(mut tokens: Vec<Token>) -> Result<Vec<Stmt>, GraphoidError> {
    tokens.push(tok(TokenType::Eof));
    Parser::new(tokens).parse().map(|p| p.statements)
}

fn is_number(e: &Expr, v: f64) -> bool {
    matches!(e, Expr::Literal { value: LiteralValue::Number(bits), .. } if *bits == v.to_bits())
}

fn syntax_message(r: Result<Vec<Stmt>, GraphoidError>) -> String {
    match r {
        Err(GraphoidError::SyntaxError { message, .. }) => message,
        other => panic!("expected a syntax error, got {:?}", other),
    }
}

#[test]
fn empty_program() {
    let stmts = parse(vec![]).expect("parses");
    assert!(stmts.is_empty());
    let stmts = parse(vec![tok(TokenType::Newline), tok(TokenType::Newline)]).expect("parses");
    assert!(stmts.is_empty());
}

#[test]
fn multiplication_binds_tighter_than_addition() {
    // x = 1 + 2 * 3
    let stmts = parse(vec![
        ident("x"),
        tok(TokenType::Equal),
        num(1.0),
        tok(TokenType::Plus),
        num(2.0),
        tok(TokenType::Star),
        num(3.0),
    ])
    .expect("parses");
    assert_eq!(stmts.len(), 1);
    match &stmts[0] {
        Stmt::Assignment { target: AssignmentTarget::Variable(name), value, .. } => {
            assert_eq!(name, "x");
            match value {
                Expr::Binary { left, op: BinaryOp::Add, right, .. } => {
                    assert!(is_number(left, 1.0));
                    match &**right {
                        Expr::Binary { left, op: BinaryOp::Multiply, right, .. } => {
                            assert!(is_number(left, 2.0));
                            assert!(is_number(right, 3.0));
                        }
                        other => panic!("unexpected: {:?}", other),
                    }
                }
                other => panic!("unexpected: {:?}", other),
            }
        }
        other => panic!("unexpected: {:?}", other),
    }
}

#[test]
fn subtraction_is_left_associative() {
    // 10 - 4 - 3
    let stmts = parse(vec![num(10.0), tok(TokenType::Minus), num(4.0), tok(TokenType::Minus), num(3.0)]).expect("parses");
    match &stmts[0] {
        Stmt::Expression { expr: Expr::Binary { left, op: BinaryOp::Subtract, right, .. }, .. } => {
            assert!(is_number(right, 3.0));
            assert!(matches!(&**left, Expr::Binary { op: BinaryOp::Subtract, .. }));
        }
        other => panic!("unexpected: {:?}", other),
    }
}

#[test]
fn power_is_right_associative() {
    // 2 ** 3 ** 2
    let stmts = parse(vec![num(2.0), tok(TokenType::DoubleStar), num(3.0), tok(TokenType::DoubleStar), num(2.0)])
        .expect("parses");
    match &stmts[0] {
        Stmt::Expression { expr: Expr::Binary { left, op: BinaryOp::Power, right, .. }, .. } => {
            assert!(is_number(left, 2.0));
            match &**right {
                Expr::Binary { left, op: BinaryOp::Power, right, .. } => {
                    assert!(is_number(left, 3.0));
                    assert!(is_number(right, 2.0));
                }
                other => panic!("unexpected: {:?}", other),
            }
        }
        other => panic!("unexpected: {:?}", other),
    }
}

#[test]
fn typed_variable_declaration() {
    // list<num> xs = [1, 2]
    let stmts = parse(vec![
        tok(TokenType::ListType),
        tok(TokenType::Less),
        tok(TokenType::NumType),
        tok(TokenType::Greater),
        ident("xs"),
        tok(TokenType::Equal),
        tok(TokenType::LeftBracket),
        num(1.0),
        tok(TokenType::Comma),
        num(2.0),
        tok(TokenType::RightBracket),
    ])
    .expect("parses");
    match &stmts[0] {
        Stmt::VariableDecl { name, type_annotation: Some(ta), value: Expr::List { elements, .. }, is_private, .. } => {
            assert_eq!(name, "xs");
            assert_eq!(ta.base_type, "list");
            assert_eq!(ta.constraint.as_deref(), Some("num"));
            assert_eq!(elements.len(), 2);
            assert!(!is_private);
        }
        other => panic!("unexpected: {:?}", other),
    }
}

#[test]
fn constraint_only_on_collections() {
    // num<num> x = 1
    let message = syntax_message(parse(vec![
        tok(TokenType::NumType),
        tok(TokenType::Less),
        tok(TokenType::NumType),
        tok(TokenType::Greater),
        ident("x"),
        tok(TokenType::Equal),
        num(1.0),
    ]));
    assert_eq!(message, "Type parameters only allowed on built-in collections (list, hash, tree, graph), not 'num'");
}

#[test]
fn function_with_default_parameter() {
    // fn add(a, b = 1) { return a + b }
    let stmts = parse(vec![
        tok(TokenType::Func),
        ident("add"),
        tok(TokenType::LeftParen),
        ident("a"),
        tok(TokenType::Comma),
        ident("b"),
        tok(TokenType::Equal),
        num(1.0),
        tok(TokenType::RightParen),
        tok(TokenType::LeftBrace),
        tok(TokenType::Return),
        ident("a"),
        tok(TokenType::Plus),
        ident("b"),
        tok(TokenType::RightBrace),
    ])
    .expect("parses");
    match &stmts[0] {
        Stmt::FunctionDecl { name, params, body, receiver: None, pattern_clauses: None, .. } => {
            assert_eq!(name, "add");
            assert_eq!(params.len(), 2);
            assert!(params[0].default_value.is_none());
            assert!(params[1].default_value.is_some());
            assert_eq!(body.len(), 1);
            assert!(matches!(body[0], Stmt::Return { value: Some(_), .. }));
        }
        other => panic!("unexpected: {:?}", other),
    }
}

#[test]
fn static_method_needs_receiver() {
    let message = syntax_message(parse(vec![
        tok(TokenType::Static),
        tok(TokenType::Func),
        ident("make"),
        tok(TokenType::LeftParen),
        tok(TokenType::RightParen),
        tok(TokenType::LeftBrace),
        tok(TokenType::RightBrace),
    ]));
    assert_eq!(message, "Static methods must be attached to a graph. Use `static fn GraphName.method_name()`.");
}

#[test]
fn if_else_statement() {
    // if x { y } else { z }
    let stmts = parse(vec![
        tok(TokenType::If),
        ident("x"),
        tok(TokenType::LeftBrace),
        ident("y"),
        tok(TokenType::RightBrace),
        tok(TokenType::Else),
        tok(TokenType::LeftBrace),
        ident("z"),
        tok(TokenType::RightBrace),
    ])
    .expect("parses");
    match &stmts[0] {
        Stmt::If { then_branch, else_branch: Some(else_branch), .. } => {
            assert_eq!(then_branch.len(), 1);
            assert_eq!(else_branch.len(), 1);
        }
        other => panic!("unexpected: {:?}", other),
    }
}

#[test]
fn missing_brace_after_while() {
    let message = syntax_message(parse(vec![tok(TokenType::While), ident("x"), ident("y")]));
    assert_eq!(message, "Expected '{' after while condition");
}

#[test]
fn precision_places() {
    let block = |n: Token| vec![tok(TokenType::Precision), n, tok(TokenType::LeftBrace), tok(TokenType::RightBrace)];
    match &parse(block(num(2.0))).expect("parses")[0] {
        Stmt::Precision { places, body, .. } => {
            assert_eq!(*places, Some(2));
            assert!(body.is_empty());
        }
        other => panic!("unexpected: {:?}", other),
    }
    match &parse(block(sym("int"))).expect("parses")[0] {
        Stmt::Precision { places, .. } => assert_eq!(*places, Some(0)),
        other => panic!("unexpected: {:?}", other),
    }
    assert_eq!(syntax_message(parse(block(num(2.5)))), "Precision must be a non-negative integer");
    assert_eq!(syntax_message(parse(block(num(-1.0)))), "Precision must be a non-negative integer");
    assert_eq!(syntax_message(parse(block(sym("float")))), "Invalid precision specifier :float, expected :int");
}

#[test]
fn whole_numbers_from_bits() {
    assert_eq!(whole_number_places(3.0f64.to_bits()), Some(3));
    assert_eq!(whole_number_places(0.0f64.to_bits()), Some(0));
    assert_eq!(whole_number_places((-0.0f64).to_bits()), Some(0));
    assert_eq!(whole_number_places(4096.0f64.to_bits()), Some(4096));
    assert_eq!(whole_number_places(9007199254740993.0f64.to_bits()), Some(9007199254740992));
    assert_eq!(whole_number_places(1e300f64.to_bits()), Some(usize::MAX));
    assert_eq!(whole_number_places(2.5f64.to_bits()), None);
    assert_eq!(whole_number_places(0.5f64.to_bits()), None);
    assert_eq!(whole_number_places((-1.0f64).to_bits()), None);
    assert_eq!(whole_number_places(f64::NAN.to_bits()), None);
    assert_eq!(whole_number_places(f64::INFINITY.to_bits()), None);
    assert_eq!(whole_number_places(f64::MIN_POSITIVE.to_bits()), None);
}

#[test]
fn try_needs_catch_or_finally() {
    let message = syntax_message(parse(vec![tok(TokenType::Try), tok(TokenType::LeftBrace), tok(TokenType::RightBrace)]));
    assert_eq!(message, "Try statement must have at least one catch or finally block");
    let stmts = parse(vec![
        tok(TokenType::Try),
        tok(TokenType::LeftBrace),
        tok(TokenType::RightBrace),
        tok(TokenType::Catch),
        ident("ValueError"),
        tok(TokenType::As),
        ident("e"),
        tok(TokenType::LeftBrace),
        tok(TokenType::RightBrace),
    ])
    .expect("parses");
    match &stmts[0] {
        Stmt::Try { catch_clauses, finally_block: None, .. } => {
            assert_eq!(catch_clauses.len(), 1);
            assert_eq!(catch_clauses[0].error_type.as_deref(), Some("ValueError"));
            assert_eq!(catch_clauses[0].variable.as_deref(), Some("e"));
        }
        other => panic!("unexpected: {:?}", other),
    }
}

#[test]
fn configure_repeated_key_keeps_last_value() {
    // configure { x: 1, y: 2, x: 3, :flag }
    let stmts = parse(vec![
        tok(TokenType::Configure),
        tok(TokenType::LeftBrace),
        ident("x"),
        tok(TokenType::Colon),
        num(1.0),
        tok(TokenType::Comma),
        ident("y"),
        tok(TokenType::Colon),
        num(2.0),
        tok(TokenType::Comma),
        ident("x"),
        tok(TokenType::Colon),
        num(3.0),
        tok(TokenType::Comma),
        sym("flag"),
        tok(TokenType::RightBrace),
    ])
    .expect("parses");
    match &stmts[0] {
        Stmt::Configure { settings, body: None, .. } => {
            let keys: Vec<&str> = settings.iter().map(|(k, _)| k.as_str()).collect();
            assert_eq!(keys, vec!["x", "y", "flag"]);
            assert!(is_number(&settings[0].1, 3.0));
            assert!(matches!(&settings[2].1, Expr::Literal { value: LiteralValue::Symbol(s), .. } if s == "flag"));
        }
        other => panic!("unexpected: {:?}", other),
    }
}

#[test]
fn graph_config_blocks_merge() {
    // graph G { configure { readable: :a } configure { readable: [:b, :c], writable: :d } name: 1 }
    let stmts = parse(vec![
        tok(TokenType::GraphType),
        ident("G"),
        tok(TokenType::LeftBrace),
        tok(TokenType::Configure),
        tok(TokenType::LeftBrace),
        ident("readable"),
        tok(TokenType::Colon),
        sym("a"),
        tok(TokenType::RightBrace),
        tok(TokenType::Configure),
        tok(TokenType::LeftBrace),
        ident("readable"),
        tok(TokenType::Colon),
        tok(TokenType::LeftBracket),
        sym("b"),
        tok(TokenType::Comma),
        sym("c"),
        tok(TokenType::RightBracket),
        tok(TokenType::Comma),
        ident("writable"),
        tok(TokenType::Colon),
        sym("d"),
        tok(TokenType::RightBrace),
        tok(TokenType::Newline),
        ident("name"),
        tok(TokenType::Colon),
        num(1.0),
        tok(TokenType::RightBrace),
    ])
    .expect("parses");
    match &stmts[0] {
        Stmt::GraphDecl { name, config, properties, .. } => {
            assert_eq!(name, "G");
            assert_eq!(
                config,
                &vec![
                    ("readable".to_string(), vec!["a".to_string(), "b".to_string(), "c".to_string()]),
                    ("writable".to_string(), vec!["d".to_string()]),
                ]
            );
            assert_eq!(properties.len(), 1);
            assert_eq!(properties[0].name, "name");
        }
        other => panic!("unexpected: {:?}", other),
    }
}

#[test]
fn unknown_config_key() {
    let message = syntax_message(parse(vec![
        tok(TokenType::GraphType),
        ident("G"),
        tok(TokenType::LeftBrace),
        tok(TokenType::Configure),
        tok(TokenType::LeftBrace),
        ident("hidden"),
        tok(TokenType::Colon),
        sym("a"),
        tok(TokenType::RightBrace),
        tok(TokenType::RightBrace),
    ]));
    assert_eq!(message, "Unknown config key 'hidden'. Valid keys: readable, writable, accessible");
}

#[test]
fn method_call_chain_and_index() {
    // a.push!(1)[0].size
    let stmts = parse(vec![
        ident("a"),
        tok(TokenType::Dot),
        ident("push"),
        tok(TokenType::Bang),
        tok(TokenType::LeftParen),
        num(1.0),
        tok(TokenType::RightParen),
        tok(TokenType::LeftBracket),
        num(0.0),
        tok(TokenType::RightBracket),
        tok(TokenType::Dot),
        ident("size"),
    ])
    .expect("parses");
    match &stmts[0] {
        Stmt::Expression { expr: Expr::PropertyAccess { object, property, .. }, .. } => {
            assert_eq!(property, "size");
            match &**object {
                Expr::Index { object, .. } => match &**object {
                    Expr::MethodCall { method, args, .. } => {
                        assert_eq!(method, "push!");
                        assert_eq!(args.len(), 1);
                    }
                    other => panic!("unexpected: {:?}", other),
                },
                other => panic!("unexpected: {:?}", other),
            }
        }
        other => panic!("unexpected: {:?}", other),
    }
}

#[test]
fn keyword_as_method_name() {
    // xs.match
    let stmts = parse(vec![ident("xs"), tok(TokenType::Dot), word(TokenType::Match, "match")]).expect("parses");
    match &stmts[0] {
        Stmt::Expression { expr: Expr::PropertyAccess { property, .. }, .. } => assert_eq!(property, "match"),
        other => panic!("unexpected: {:?}", other),
    }
}

#[test]
fn lambda_argument_and_named_argument() {
    // f(x => x, key: 1)
    let stmts = parse(vec![
        ident("f"),
        tok(TokenType::LeftParen),
        ident("x"),
        tok(TokenType::Arrow),
        ident("x"),
        tok(TokenType::Comma),
        ident("key"),
        tok(TokenType::Colon),
        num(1.0),
        tok(TokenType::RightParen),
    ])
    .expect("parses");
    match &stmts[0] {
        Stmt::Expression { expr: Expr::Call { args, .. }, .. } => {
            assert_eq!(args.len(), 2);
            assert!(matches!(&args[0], graphoid::ast::Argument::Positional { expr: Expr::Lambda { .. }, mutable: false }));
            assert!(matches!(&args[1], graphoid::ast::Argument::Named { name, .. } if name == "key"));
        }
        other => panic!("unexpected: {:?}", other),
    }
}

#[test]
fn command_style_call() {
    // describe "stack" { }
    let stmts = parse(vec![
        ident("describe"),
        tok(TokenType::String("stack".to_string())),
        tok(TokenType::LeftBrace),
        tok(TokenType::RightBrace),
    ])
    .expect("parses");
    match &stmts[0] {
        Stmt::Expression { expr: Expr::Call { callee, args, .. }, .. } => {
            assert!(matches!(&**callee, Expr::Variable { name, .. } if name == "describe"));
            assert_eq!(args.len(), 2);
        }
        other => panic!("unexpected: {:?}", other),
    }
}

#[test]
fn suffix_conditional() {
    // a if b else c
    let stmts = parse(vec![ident("a"), tok(TokenType::If), ident("b"), tok(TokenType::Else), ident("c")]).expect("parses");
    assert!(matches!(
        &stmts[0],
        Stmt::Expression { expr: Expr::Conditional { else_expr: Some(_), is_unless: false, .. }, .. }
    ));
    let message = syntax_message(parse(vec![ident("a"), tok(TokenType::Unless), ident("b"), tok(TokenType::Else), ident("c")]));
    assert_eq!(message, "'unless' cannot be used with 'else'");
}

#[test]
fn match_expression_arms() {
    // match v { 1 => "one", _ => "other" }
    let stmts = parse(vec![
        tok(TokenType::Match),
        ident("v"),
        tok(TokenType::LeftBrace),
        num(1.0),
        tok(TokenType::Arrow),
        tok(TokenType::String("one".to_string())),
        tok(TokenType::Comma),
        ident("_"),
        tok(TokenType::Arrow),
        tok(TokenType::String("other".to_string())),
        tok(TokenType::RightBrace),
    ])
    .expect("parses");
    match &stmts[0] {
        Stmt::Expression { expr: Expr::Match { arms, .. }, .. } => {
            assert_eq!(arms.len(), 2);
            assert!(matches!(arms[1].pattern, graphoid::ast::MatchPattern::Wildcard));
        }
        other => panic!("unexpected: {:?}", other),
    }
}

#[test]
fn map_literal_and_assignment_to_index() {
    // m["k"] = {a: 1}
    let stmts = parse(vec![
        ident("m"),
        tok(TokenType::LeftBracket),
        tok(TokenType::String("k".to_string())),
        tok(TokenType::RightBracket),
        tok(TokenType::Equal),
        tok(TokenType::LeftBrace),
        ident("a"),
        tok(TokenType::Colon),
        num(1.0),
        tok(TokenType::RightBrace),
    ])
    .expect("parses");
    match &stmts[0] {
        Stmt::Assignment { target: AssignmentTarget::Index { .. }, value: Expr::MapLit { entries, .. }, .. } => {
            assert_eq!(entries.len(), 1);
            assert_eq!(entries[0].0, "a");
        }
        other => panic!("unexpected: {:?}", other),
    }
}

#[test]
fn invalid_assignment_target() {
    // 1 + x = 2 starts with a number, so it is an expression statement; f() = 2 is refused
    let message = syntax_message(parse(vec![
        ident("f"),
        tok(TokenType::LeftParen),
        tok(TokenType::RightParen),
        tok(TokenType::Equal),
        num(2.0),
    ]));
    assert_eq!(message, "Invalid assignment target");
}

#[test]
fn unexpected_token_message() {
    let message = syntax_message(parse(vec![tok(TokenType::RightParen)]));
    assert_eq!(message, "Unexpected token: RightParen");
}

#[test]
fn import_and_module() {
    let stmts = parse(vec![
        tok(TokenType::Import),
        tok(TokenType::String("math".to_string())),
        tok(TokenType::As),
        ident("m"),
        tok(TokenType::Newline),
        tok(TokenType::Module),
        ident("geometry"),
        tok(TokenType::Alias),
        ident("geo"),
    ])
    .expect("parses");
    assert_eq!(stmts.len(), 2);
    assert!(matches!(&stmts[0], Stmt::Import { module, alias: Some(a), .. } if module == "math" && a == "m"));
    assert!(matches!(&stmts[1], Stmt::ModuleDecl { name, alias: Some(a), .. } if name == "geometry" && a == "geo"));
}

#[test]
fn lone_operands_are_expression_statements() {
    let stmts = parse(vec![Token::new(TokenType::Number(2.5f64.to_bits()), "2.5".to_string(), 3, 7)]).expect("parses");
    assert_eq!(stmts.len(), 1);
    match &stmts[0] {
        Stmt::Expression { expr, position } => {
            assert!(is_number(expr, 2.5));
            assert_eq!((position.line, position.column), (3, 7));
        },
        other => panic!("unexpected statement {:?}", other),
    }
    let stmts = parse(vec![ident("total")]).expect("parses");
    assert!(matches!(&stmts[0], Stmt::Expression { expr: Expr::Variable { name, .. }, .. } if name == "total"));
    let stmts = parse(vec![sym("ok")]).expect("parses");
    assert!(matches!(&stmts[0], Stmt::Expression { expr: Expr::Literal { value: LiteralValue::Symbol(s), .. }, .. } if s == "ok"));
}

#[test]
fn import_load_and_module_statements() {
    let stmts = parse(vec![
        tok(TokenType::Import), tok(TokenType::String("math".to_string())), tok(TokenType::As), ident("m"),
        tok(TokenType::Newline),
        tok(TokenType::Load), tok(TokenType::String("lib/util.gr".to_string())),
        tok(TokenType::Newline),
        tok(TokenType::Module), ident("geometry"), tok(TokenType::Alias), ident("geo"),
    ]).expect("parses");
    assert_eq!(stmts.len(), 3);
    assert!(matches!(&stmts[0], Stmt::Import { module, alias: Some(a), .. } if module == "math" && a == "m"));
    assert!(matches!(&stmts[1], Stmt::Load { path, .. } if path == "lib/util.gr"));
    assert!(matches!(&stmts[2], Stmt::ModuleDecl { name, alias: Some(a), .. } if name == "geometry" && a == "geo"));
    let message = syntax_message(parse(vec![tok(TokenType::Import), ident("math")]));
    assert_eq!(message, "Expected string literal after 'import'");
    let message = syntax_message(parse(vec![tok(TokenType::Module), ident("geometry"), tok(TokenType::Alias)]));
    assert_eq!(message, "Expected identifier after 'alias'");
}

#[test]
fn two_operands_and_an_operator_make_one_binary_statement() {
    let cases = vec![
        (TokenType::Plus, BinaryOp::Add),
        (TokenType::DoubleStar, BinaryOp::Power),
        (TokenType::AmpersandAmpersand, BinaryOp::And),
        (TokenType::DotLessEqual, BinaryOp::DotLessEqual),
        (TokenType::RegexMatch, BinaryOp::RegexMatch),
    ];
    for (tt, expected) in cases {
        let stmts = parse(vec![ident("a"), tok(tt), num(2.0)]).unwrap();
        assert_eq!(stmts.len(), 1);
        match &stmts[0] {
            Stmt::Expression { expr: Expr::Binary { left, op, right, .. }, .. } => {
                assert!(matches!(&**left, Expr::Variable { name, .. } if name == "a"));
                assert_eq!(*op, expected);
                assert!(is_number(right, 2.0));
            },
            other => panic!("expected a binary expression statement, got {:?}", other),
        }
    }
}

fn one_expression(tokens: Vec<Token>) -> Expr {
    let mut stmts = parse(tokens).expect("parses");
    assert_eq!(stmts.len(), 1);
    match stmts.pop() {
        Some(Stmt::Expression { expr, .. }) => expr,
        other => panic!("expected an expression statement, got {:?}", other),
    }
}

#[test]
fn tree_literal_is_a_graph_with_the_tree_ruleset() {
    let stmts = parse(vec![ident("t"), tok(TokenType::Equal), tok(TokenType::TreeType), tok(TokenType::LeftBrace), tok(TokenType::RightBrace)])
        .expect("parses");
    let e = match &stmts[0] {
        Stmt::Assignment { value, .. } => value,
        other => panic!("unexpected: {:?}", other),
    };
    match e {
        Expr::MethodCall { object, method, args, .. } => {
            assert_eq!(method, "with_ruleset");
            assert!(matches!(&**object, Expr::Graph { config, parent: None, .. } if config.is_empty()));
            assert_eq!(args.len(), 1);
            assert!(matches!(&args[0], graphoid::ast::Argument::Positional {
                expr: Expr::Literal { value: LiteralValue::Symbol(s), .. }, mutable: false } if s == "tree"));
        },
        other => panic!("unexpected: {:?}", other),
    }
}

#[test]
fn block_conditionals_with_else() {
    let body = |first: TokenType| vec![
        ident("x"), tok(TokenType::Equal), tok(first), tok(TokenType::True),
        tok(TokenType::LeftBrace), tok(TokenType::RightBrace), tok(TokenType::Else),
        tok(TokenType::LeftBrace), tok(TokenType::RightBrace),
    ];
    let message = syntax_message(parse(body(TokenType::Unless)));
    assert_eq!(message, "'unless' cannot be used with 'else'");
    let stmts = parse(body(TokenType::If)).expect("parses");
    assert!(matches!(&stmts[0], Stmt::Assignment {
        value: Expr::Conditional { is_unless: false, else_expr: Some(_), .. }, .. }));
}

#[test]
fn power_chains_group_to_the_right() {
    let e = one_expression(vec![num(2.0), tok(TokenType::DoubleStar), num(3.0), tok(TokenType::DoubleStar), num(2.0)]);
    match e {
        Expr::Binary { left, op: BinaryOp::Power, right, .. } => {
            assert!(is_number(&left, 2.0));
            match *right {
                Expr::Binary { left, op: BinaryOp::Power, right, .. } => {
                    assert!(is_number(&left, 3.0));
                    assert!(is_number(&right, 2.0));
                },
                other => panic!("unexpected: {:?}", other),
            }
        },
        other => panic!("unexpected: {:?}", other),
    }
}

#[test]
fn simple_function_declarations() {
    let decl = vec![
        tok(TokenType::Func), ident("f"), tok(TokenType::LeftParen), ident("a"), tok(TokenType::RightParen),
        tok(TokenType::LeftBrace), ident("a"), tok(TokenType::RightBrace),
    ];
    let stmts = parse(decl).expect("parses");
    match &stmts[0] {
        Stmt::FunctionDecl { name, params, body, receiver: None, pattern_clauses: None, .. } => {
            assert_eq!(name, "f");
            assert_eq!(params.len(), 1);
            assert_eq!(params[0].name, "a");
            assert_eq!(body.len(), 1);
        },
        other => panic!("unexpected: {:?}", other),
    }
    let setter = vec![
        tok(TokenType::SetKw), ident("f"), tok(TokenType::LeftParen), tok(TokenType::RightParen),
        tok(TokenType::LeftBrace), tok(TokenType::RightBrace),
    ];
    assert_eq!(syntax_message(parse(setter)), "Setters must have exactly one parameter (the value being assigned).");
    let generic = vec![tok(TokenType::Func), ident("f"), tok(TokenType::Less), ident("T"), tok(TokenType::Greater)];
    assert!(syntax_message(parse(generic)).starts_with("Generic functions are not supported in Graphoid."));
}

#[test]
fn streams_with_an_early_eof_stop_there() {
    let tokens = vec![tok(TokenType::Newline), tok(TokenType::Eof), ident("ignored")];
    let program = Parser::new(tokens).parse().expect("parses");
    assert!(program.statements.is_empty());
}

#[test]
fn simple_suffixes() {
    let call = one_expression(vec![ident("f"), tok(TokenType::LeftParen), num(1.0), tok(TokenType::RightParen)]);
    assert!(matches!(&call, Expr::Call { args, .. } if args.len() == 1));
    let access = one_expression(vec![ident("p"), tok(TokenType::Dot), ident("x")]);
    assert!(matches!(&access, Expr::PropertyAccess { property, .. } if property == "x"));
}

#[test]
fn token_names_in_messages_show_their_text() {
    let tokens = vec![
        tok(TokenType::GraphType), ident("G"), tok(TokenType::LeftBrace),
        tok(TokenType::String("a\"b".to_string())), tok(TokenType::RightBrace),
    ];
    assert_eq!(syntax_message(parse(tokens)), "Unexpected token in graph body: String(\"a\\\"b\")");
}

#[test]
fn while_and_if_with_literal_conditions() {
    let stmts = parse(vec![
        tok(TokenType::While), tok(TokenType::True), tok(TokenType::LeftBrace), ident("x"), tok(TokenType::RightBrace),
    ])
    .expect("parses");
    match &stmts[0] {
        Stmt::While { condition, body, .. } => {
            assert!(matches!(condition, Expr::Literal { value: LiteralValue::Boolean(true), .. }));
            assert_eq!(body.len(), 1);
        },
        other => panic!("unexpected: {:?}", other),
    }
    let stmts = parse(vec![tok(TokenType::If), num(1.0), tok(TokenType::LeftBrace), tok(TokenType::RightBrace)])
        .expect("parses");
    assert!(matches!(&stmts[0], Stmt::If { then_branch, else_branch: None, .. } if then_branch.is_empty()));
}

#[test]
fn typed_declarations_and_named_graphs() {
    let stmts = parse(vec![tok(TokenType::NumType), ident("n"), tok(TokenType::Equal), num(5.0)]).expect("parses");
    match &stmts[0] {
        Stmt::VariableDecl { name, type_annotation: Some(ta), value, .. } => {
            assert_eq!(name, "n");
            assert_eq!(ta.base_type, "num");
            assert!(ta.constraint.is_none());
            assert!(is_number(value, 5.0));
        },
        other => panic!("unexpected: {:?}", other),
    }
    let stmts = parse(vec![tok(TokenType::GraphType), ident("G"), tok(TokenType::LeftBrace), tok(TokenType::RightBrace)])
        .expect("parses");
    assert!(matches!(&stmts[0], Stmt::GraphDecl { name, parent: None, properties, .. } if name == "G" && properties.is_empty()));
}

#[test]
fn match_without_arms_is_refused() {
    let r = parse(vec![tok(TokenType::Match), num(1.0), tok(TokenType::LeftBrace), tok(TokenType::RightBrace)]);
    assert_eq!(syntax_message(r), "Match expression must have at least one arm");
}

#[test]
fn match_with_one_arm_keeps_pattern_and_body() {
    let stmts = parse(vec![
        tok(TokenType::Match),
        num(1.0),
        tok(TokenType::LeftBrace),
        ident("_"),
        tok(TokenType::Arrow),
        num(2.0),
        tok(TokenType::RightBrace),
    ])
    .expect("parses");
    match &stmts[0] {
        Stmt::Expression { expr: Expr::Match { value, arms, .. }, .. } => {
            assert!(is_number(value, 1.0));
            assert_eq!(arms.len(), 1);
            assert!(matches!(arms[0].pattern, graphoid::ast::MatchPattern::Wildcard));
            assert!(is_number(&arms[0].body, 2.0));
        }
        other => panic!("unexpected: {:?}", other),
    }
}

#[test]
fn parenthesised_operand_is_the_operand_itself() {
    let e = one_expression(vec![tok(TokenType::LeftParen), num(7.0), tok(TokenType::RightParen)]);
    assert!(is_number(&e, 7.0));
}

#[test]
fn raise_wraps_its_operand() {
    let e = one_expression(vec![tok(TokenType::Raise), word(TokenType::String("boom".to_string()), "\"boom\"")]);
    match e {
        Expr::Raise { error, .. } => {
            assert!(matches!(&*error, Expr::Literal { value: LiteralValue::String(s), .. } if s == "boom"));
        }
        other => panic!("unexpected: {:?}", other),
    }
}

#[test]
fn bracket_literals_give_lists() {
    let e = one_expression(vec![tok(TokenType::LeftBracket), tok(TokenType::RightBracket)]);
    assert!(matches!(&e, Expr::List { elements, .. } if elements.is_empty()));
    let e = one_expression(vec![tok(TokenType::LeftBracket), num(3.0), tok(TokenType::RightBracket)]);
    match e {
        Expr::List { elements, .. } => {
            assert_eq!(elements.len(), 1);
            assert!(is_number(&elements[0], 3.0));
        }
        other => panic!("unexpected: {:?}", other),
    }
}

#[test]
fn empty_graph_literal_has_no_config_and_no_parent() {
    let stmts = parse(vec![ident("g"), tok(TokenType::Equal), tok(TokenType::GraphType), tok(TokenType::LeftBrace), tok(TokenType::RightBrace)])
        .expect("parses");
    match &stmts[0] {
        Stmt::Assignment { value: Expr::Graph { config, parent: None, .. }, .. } => assert!(config.is_empty()),
        other => panic!("unexpected: {:?}", other),
    }
}

#[test]
fn brace_literals_give_maps() {
    let stmts = parse(vec![ident("m"), tok(TokenType::Equal), tok(TokenType::LeftBrace), tok(TokenType::RightBrace)])
        .expect("parses");
    match &stmts[0] {
        Stmt::Assignment { value: Expr::MapLit { entries, .. }, .. } => assert!(entries.is_empty()),
        other => panic!("unexpected: {:?}", other),
    }
    let stmts = parse(vec![
        ident("m"),
        tok(TokenType::Equal),
        tok(TokenType::LeftBrace),
        word(TokenType::String("k".to_string()), "\"k\""),
        tok(TokenType::Colon),
        num(5.0),
        tok(TokenType::RightBrace),
    ])
    .expect("parses");
    match &stmts[0] {
        Stmt::Assignment { value: Expr::MapLit { entries, .. }, .. } => {
            assert_eq!(entries.len(), 1);
            assert_eq!(entries[0].0, "k");
            assert!(is_number(&entries[0].1, 5.0));
        }
        other => panic!("unexpected: {:?}", other),
    }
}

#[test]
fn prefix_minus_wraps_its_operand() {
    let e = one_expression(vec![tok(TokenType::Minus), num(5.0)]);
    match e {
        Expr::Unary { op, operand, .. } => {
            assert!(matches!(op, graphoid::ast::UnaryOp::Negate));
            assert!(is_number(&operand, 5.0));
        }
        other => panic!("unexpected: {:?}", other),
    }
}
