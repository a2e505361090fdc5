//! The evaluator against hand-built trees, with the host's doubles as the
//! oracle for the number arithmetic.

use loxr::ast::{Expr, FunDecl, Stmt};
use loxr::function::{Callable, ClockNativeFunction, LoxFunction};
use loxr::interp::{Flow, Interpreter, RuntimeError};
use loxr::token::{LitValue, LoxType, Token, TokenType};
use std::rc::Rc;

fn num_lit(x: f64) -> Expr {
    Expr::Literal {
        value: Some(LitValue::Num(x.to_bits())),
    }
}

fn op(tt: TokenType, lexeme: &str) -> Token {
    Token::new(tt, String::from(lexeme), 1, 1, 2, None)
}

fn eval(e: &Expr) -> Option<LoxType> {
    let mut interpreter = Interpreter::new();
    interpreter.evaluate(e, 10000).expect("evaluation failed")
}

#[test]
fn test_interpreter_plus() {
}

#[test]
fn test_binary_arithmetic_matches_host_doubles() {
    let cases: &[(TokenType, &str, f64, f64, f64)] = &[
        (TokenType::Plus, "+", 1.0, 2.0, 1.0 + 2.0),
        (TokenType::Minus, "-", 0.3, 0.1, 0.3 - 0.1),
        (TokenType::Star, "*", 1.5, 2.5, 1.5 * 2.5),
        (TokenType::Slash, "/", 7.0, 2.0, 7.0 / 2.0),
        (TokenType::Plus, "+", 0.1, 0.2, 0.1 + 0.2),
    ];
    for &(tt, lex, a, b, want) in cases {
        let e = Expr::Binary {
            left: Box::new(num_lit(a)),
            operator: op(tt, lex),
            right: Box::new(num_lit(b)),
        };
        match eval(&e) {
            Some(LoxType::Num(bits)) => assert_eq!(bits, want.to_bits()),
            other => panic!("not a number: {:?}", other),
        }
    }
}

#[test]
fn test_unary_minus_flips_sign() {
    let e = Expr::Unary {
        operator: op(TokenType::Minus, "-"),
        right: Box::new(num_lit(3.5)),
    };
    match eval(&e) {
        Some(LoxType::Num(bits)) => assert_eq!(bits, (-3.5f64).to_bits()),
        other => panic!("not a number: {:?}", other),
    }
}

#[test]
fn test_comparison_matches_host_doubles() {
    let cases: &[(TokenType, &str, f64, f64, bool)] = &[
        (TokenType::Less, "<", 1.0, 2.0, true),
        (TokenType::LessEqual, "<=", 2.0, 2.0, true),
        (TokenType::Greater, ">", 1.0, 2.0, false),
        (TokenType::GreaterEqual, ">=", 1.0, 2.0, false),
        (TokenType::EqualEqual, "==", 0.0, -0.0, true),
    ];
    for &(tt, lex, a, b, want) in cases {
        let e = Expr::Binary {
            left: Box::new(num_lit(a)),
            operator: op(tt, lex),
            right: Box::new(num_lit(b)),
        };
        match eval(&e) {
            Some(LoxType::Bool(r)) => assert_eq!(r, want),
            other => panic!("not a boolean: {:?}", other),
        }
    }
}

#[test]
fn test_out_of_steps_guard() {
    // while (true) {}
    let program = vec![Stmt::While {
        condition: Expr::Literal {
            value: Some(LitValue::Bool(true)),
        },
        body: Box::new(Stmt::Block { statements: vec![] }),
    }];
    let mut interpreter = Interpreter::new();
    match interpreter.interpret_with_steps(&program, 100) {
        Err(RuntimeError::OutOfSteps) => {}
        other => panic!("wrong outcome: {:?}", other),
    }
}

#[test]
fn test_return_flow_at_top_level_stops_run() {
    let kw = op(TokenType::Return, "return");
    let program = vec![
        Stmt::Return {
            keyword: kw,
            value: Some(num_lit(1.0)),
        },
        Stmt::Print {
            expression: num_lit(2.0),
        },
    ];
    let mut interpreter = Interpreter::new();
    match interpreter.interpret_with_steps(&program, 1000) {
        Ok(Flow::Returning(Some(LoxType::Num(bits)))) => assert_eq!(bits, 1.0f64.to_bits()),
        other => panic!("wrong outcome: {:?}", other),
    }
    assert!(interpreter.output.is_empty());
}

#[test]
fn test_callable_constructors_and_equality() {
    let decl = Rc::new(FunDecl {
        name: op(TokenType::Identifier, "f"),
        params: vec![],
        body: vec![],
        id: 7,
    });
    let f1 = LoxFunction::new(Rc::clone(&decl), 0);
    let f2 = LoxFunction::new(Rc::clone(&decl), 0);
    assert_eq!(f1.arity(), 0);
    let c1 = Callable::Lox(f1);
    let c2 = Callable::Lox(f2);
    assert!(c1.eq_callable(&c2));
    let n1 = Callable::Native(ClockNativeFunction::new());
    let n2 = Callable::Native(ClockNativeFunction::new());
    assert!(n1.eq_callable(&n2));
    assert!(!c1.eq_callable(&n1));
}

#[test]
fn test_value_constructors() {
    match LoxType::new_str("hi") {
        LoxType::Str(s) => assert_eq!(s, "hi"),
        other => panic!("wrong value: {:?}", other),
    }
    match LoxType::new_num(1.5f64.to_bits()) {
        LoxType::Num(b) => assert_eq!(b, 1.5f64.to_bits()),
        other => panic!("wrong value: {:?}", other),
    }
    match LoxType::new_bool(true) {
        LoxType::Bool(b) => assert!(b),
        other => panic!("wrong value: {:?}", other),
    }
}
