//! The parser against token lists and source texts.

use loxr::ast::{Expr, Stmt};
use loxr::parser::{create_parse_error, ParseError, Parser};
use loxr::printer::PrintExprVisitor;
use loxr::scanner::Scanner;
use loxr::token::{LitValue, LoxType, Token, TokenType};

#[test]
fn test_parser() {
    let tokens = vec![
        Token::new(
            TokenType::Number,
            "1".to_string(),
            1,
            1,
            1,
            Some(LoxType::new_str("1")),
        ),
        Token::new(TokenType::Plus, "+".to_string(), 1, 2, 2, None),
        Token::new(
            TokenType::Number,
            "2".to_string(),
            1,
            3,
            3,
            Some(LoxType::new_str("2")),
        ),
        Token::new(TokenType::Star, "*".to_string(), 1, 4, 4, None),
        Token::new(TokenType::LeftParen, "(".to_string(), 1, 5, 5, None),
        Token::new(
            TokenType::Number,
            "3".to_string(),
            1,
            6,
            6,
            Some(LoxType::new_str("3")),
        ),
        Token::new(TokenType::Minus, "-".to_string(), 1, 7, 7, None),
        Token::new(
            TokenType::Number,
            "4".to_string(),
            1,
            8,
            8,
            Some(LoxType::new_str("4")),
        ),
        Token::new(TokenType::RightParen, ")".to_string(), 1, 9, 9, None),
        Token::new(TokenType::Eof, "".to_string(), 1, 10, 10, None),
    ];
    let mut parser = Parser::new(tokens);
    let expr = parser.expression().unwrap();
    println!("{:?}", expr);

    let printer = PrintExprVisitor;
    println!("{}", printer.render(&expr));
}

#[test]
fn ast_test_expr() {
    let left = Box::new(Expr::Literal {
        value: Some(LitValue::Str(String::from("1"))),
    });
    let right = Box::new(Expr::Literal {
        value: Some(LitValue::Str(String::from("2"))),
    });
    let operator = Token::new(TokenType::Plus, "+".to_string(), 1, 2, 2, None);
    let binary_expr = Expr::Binary { left, operator, right };
    println!("{:?}", binary_expr);

    let printer = PrintExprVisitor;
    println!("{}", printer.render(&binary_expr));

    match &binary_expr {
        Expr::Binary { left, right, .. } => {
            match &**left {
                Expr::Literal { value: Some(LitValue::Str(s)) } => assert_eq!(s, "1"),
                other => panic!("wrong left literal: {:?}", other),
            }
            match &**right {
                Expr::Literal { value: Some(LitValue::Str(s)) } => assert_eq!(s, "2"),
                other => panic!("wrong right literal: {:?}", other),
            }
        }
        other => panic!("wrong shape: {:?}", other),
    }
    assert_eq!(printer.render(&binary_expr), "([binary] 1 + 2)");
}

#[test]
fn expression_test_expr() {
    let left = Box::new(Expr::Literal {
        value: Some(LitValue::Str("1".to_string())),
    });
    let right = Box::new(Expr::Literal {
        value: Some(LitValue::Str("2".to_string())),
    });
    let operator = Token::new(TokenType::Plus, "+".to_string(), 1, 2, 2, None);
    let binary_expr = Expr::Binary { left, operator, right };
    println!("{:?}", binary_expr);

    let printer = PrintExprVisitor;
    println!("{}", printer.render(&binary_expr));

    match &binary_expr {
        Expr::Binary { left, right, .. } => {
            assert!(matches!(
                &**left,
                Expr::Literal { value: Some(LitValue::Str(s)) } if s == "1"
            ));
            assert!(matches!(
                &**right,
                Expr::Literal { value: Some(LitValue::Str(s)) } if s == "2"
            ));
        }
        other => panic!("wrong shape: {:?}", other),
    }
}

#[test]
fn test_parser_base_offsets_function_ids() {
    let mut first = Scanner::new(String::from("fun f() {}"));
    let toks_a = first.scan_tokens();
    let mut second = Scanner::new(String::from("fun f() {}"));
    let toks_b = second.scan_tokens();
    let base = toks_a.len();
    let mut pa = Parser::new(toks_a);
    let mut pb = Parser::with_base(toks_b, base);
    let sa = pa.parse();
    let sb = pb.parse();
    let ida = match &sa[0] {
        Stmt::Function { declaration } => declaration.id,
        other => panic!("wrong shape: {:?}", other),
    };
    let idb = match &sb[0] {
        Stmt::Function { declaration } => declaration.id,
        other => panic!("wrong shape: {:?}", other),
    };
    assert_ne!(ida, idb);
}

#[test]
fn test_printer_bracketed_text() {
    let mut scanner = Scanner::new(String::from("1 + 2 * (3 - x)"));
    let tokens = scanner.scan_tokens();
    let mut parser = Parser::new(tokens);
    let expr = parser.expression().unwrap();
    let printer = PrintExprVisitor;
    assert_eq!(
        printer.render(&expr),
        "([binary] 1 + ([binary] 2 * ([group] ([binary] 3 - x))))"
    );
}

#[test]
fn test_printer_call_and_unary() {
    let mut scanner = Scanner::new(String::from("f(-1, nil)"));
    let tokens = scanner.scan_tokens();
    let mut parser = Parser::new(tokens);
    let expr = parser.expression().unwrap();
    let printer = PrintExprVisitor;
    assert_eq!(printer.render(&expr), "([call] f ([unary] - 1) nil)");
}

#[test]
fn test_token_to_string() {
    let t = Token::new(TokenType::Plus, "+".to_string(), 1, 2, 3, None);
    assert_eq!(t.to_string(), "plus +");
    let t = Token::new(TokenType::Identifier, "abc".to_string(), 1, 2, 5, None);
    assert_eq!(t.to_string(), "identifier abc");
}

fn parse_source(src: &str) -> (Vec<Stmt>, Vec<ParseError>) {
    let mut scanner = Scanner::new(String::from(src));
    let tokens = scanner.scan_tokens();
    let mut parser = Parser::new(tokens);
    let statements = parser.parse();
    (statements, parser.errors)
}

#[test]
fn test_precedence_shape() {
    // 1 + 2 * 3 parses as 1 + (2 * 3)
    let (stmts, errors) = parse_source("1 + 2 * 3;");
    assert!(errors.is_empty());
    assert_eq!(stmts.len(), 1);
    match &stmts[0] {
        Stmt::Expression { expression } => match expression {
            Expr::Binary { left, operator, right } => {
                assert_eq!(operator.token_type, TokenType::Plus);
                assert!(matches!(**left, Expr::Literal { .. }));
                match &**right {
                    Expr::Binary { operator, .. } => {
                        assert_eq!(operator.token_type, TokenType::Star)
                    }
                    other => panic!("wrong shape: {:?}", other),
                }
            }
            other => panic!("wrong shape: {:?}", other),
        },
        other => panic!("wrong shape: {:?}", other),
    }
}

#[test]
fn test_for_desugars_to_while_in_block() {
    let (stmts, errors) = parse_source("for (var i = 0; i < 3; i = i + 1) print i;");
    assert!(errors.is_empty());
    assert_eq!(stmts.len(), 1);
    match &stmts[0] {
        Stmt::Block { statements } => {
            assert_eq!(statements.len(), 2);
            assert!(matches!(statements[0], Stmt::Var { .. }));
            match &statements[1] {
                Stmt::While { body, .. } => match &**body {
                    Stmt::Block { statements } => {
                        assert_eq!(statements.len(), 2);
                        assert!(matches!(statements[1], Stmt::Expression { .. }));
                    }
                    other => panic!("wrong shape: {:?}", other),
                },
                other => panic!("wrong shape: {:?}", other),
            }
        }
        other => panic!("wrong shape: {:?}", other),
    }
}

#[test]
fn test_for_without_condition_gets_literal_true() {
    let (stmts, errors) = parse_source("for (;;) print 1;");
    assert!(errors.is_empty());
    match &stmts[0] {
        Stmt::While { condition, .. } => match condition {
            Expr::Literal { value: Some(LitValue::Bool(true)) } => {}
            other => panic!("wrong condition: {:?}", other),
        },
        other => panic!("wrong shape: {:?}", other),
    }
}

#[test]
fn test_function_declarations_get_distinct_ids() {
    let (stmts, errors) = parse_source("fun f() {} fun g() {}");
    assert!(errors.is_empty());
    let mut ids: Vec<usize> = Vec::new();
    for s in &stmts {
        match s {
            Stmt::Function { declaration } => ids.push(declaration.id),
            other => panic!("wrong shape: {:?}", other),
        }
    }
    assert_eq!(ids.len(), 2);
    assert_ne!(ids[0], ids[1]);
}

#[test]
fn test_synchronize_recovers_with_placeholder() {
    let (stmts, errors) = parse_source("var = 1; print 2;");
    assert_eq!(errors.len(), 1);
    assert_eq!(stmts.len(), 2);
    assert!(matches!(
        stmts[0],
        Stmt::Expression { expression: Expr::Literal { value: None } }
    ));
    assert!(matches!(stmts[1], Stmt::Print { .. }));
}

#[test]
fn test_error_messages_and_positions() {
    let (_, errors) = parse_source("print 1");
    assert_eq!(errors.len(), 1);
    assert_eq!(errors[0].message, "Parser consume error: Expect ';' after value.");
    let (_, errors) = parse_source(";");
    assert_eq!(errors.len(), 1);
    assert_eq!(errors[0].message, "Expect expression.");
    assert_eq!(errors[0].line, 1);
}

#[test]
fn test_parse_error_constructors() {
    let e = ParseError::new("boom");
    assert_eq!(e.message, "boom");
    assert_eq!(e.line, 0);
    assert_eq!(e.column, 0);
    let t = Token::new(TokenType::Plus, "+".to_string(), 3, 4, 5, None);
    let e = create_parse_error(&t, "bad");
    assert_eq!(e.message, "bad");
    assert_eq!(e.line, 3);
    assert_eq!(e.column, 4);
}

#[test]
fn test_too_many_arguments_rejected() {
    let mut src = String::from("f(0");
    let mut i = 0;
    while i < 255 {
        src.push_str(", 0");
        i += 1;
    }
    src.push_str(");");
    let (_, errors) = parse_source(&src);
    assert_eq!(errors.len(), 1);
    assert_eq!(errors[0].message, "Can't have more than 255 arguments.");
}
