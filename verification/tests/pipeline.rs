//! End-to-end runs: source text through scanner, parser and interpreter.

use loxr::interp::RuntimeError;
use loxr::Lox;

fn run(src: &str) -> (loxr::RunOutcome, Vec<String>) {
    let mut lox = Lox::new();
    let outcome = lox.run(String::from(src));
    (outcome, lox.interpreter.output.clone())
}

fn outputs(src: &str) -> Vec<String> {
    let (outcome, out) = run(src);
    assert!(outcome.scan_errors.is_empty());
    assert!(outcome.parse_errors.is_empty());
    assert!(outcome.runtime_error.is_none());
    out
}

fn expect(src: &str, want: &[&str]) {
    let got = outputs(src);
    let want: Vec<String> = want.iter().map(|s| s.to_string()).collect();
    assert_eq!(got, want);
}

#[test]
fn test_arithmetic_exact() {
    expect("print 1 + 2;", &["3"]);
    expect("print 7 - 2.5;", &["4.5"]);
    expect("print 6 * 7;", &["42"]);
    expect("print 10 / 4;", &["2.5"]);
    expect("print 123.45;", &["123.45"]);
}

#[test]
fn test_division_by_zero_is_fatal() {
    let (outcome, out) = run("print 1 / 0;");
    assert!(matches!(
        outcome.runtime_error,
        Some(RuntimeError::DivisionByZero { .. })
    ));
    assert!(out.is_empty());
}

#[test]
fn test_division_by_negative_zero_is_fatal() {
    let (outcome, _) = run("print 1 / (0 - 0);");
    assert!(matches!(
        outcome.runtime_error,
        Some(RuntimeError::DivisionByZero { .. })
    ));
}

#[test]
fn test_string_concatenation() {
    expect("print \"a\" + \"b\";", &["ab"]);
    expect("print \"a\" + 1;", &["a1"]);
    expect("print 1 + \"a\";", &["1a"]);
}

#[test]
fn test_equality_rules() {
    expect("print nil == nil;", &["true"]);
    expect("print nil == 0;", &["false"]);
    expect("print 1 == 1.0;", &["true"]);
    expect("print \"1\" == 1;", &["false"]);
    expect("print 1 != 2;", &["true"]);
}

#[test]
fn test_comparisons() {
    expect("print 1 < 2;", &["true"]);
    expect("print 2 <= 1;", &["false"]);
    expect("print 2 > 1;", &["true"]);
    expect("print 1 >= 1;", &["true"]);
}

#[test]
fn test_unary() {
    expect("print -3;", &["-3"]);
    expect("print !nil;", &["true"]);
    expect("print !false;", &["true"]);
    expect("print !0;", &["false"]);
}

#[test]
fn test_truthiness_rule() {
    expect("if (0) print \"y\"; else print \"n\";", &["y"]);
    expect("if (\"\") print \"y\"; else print \"n\";", &["y"]);
    expect("if (nil) print \"y\"; else print \"n\";", &["n"]);
    expect("if (false) print \"y\"; else print \"n\";", &["n"]);
}

#[test]
fn test_logical_short_circuit() {
    expect("print false and 1;", &["false"]);
    expect("print true or 1;", &["true"]);
    expect("print nil or \"x\";", &["x"]);
    expect("print true and \"x\";", &["x"]);
}

#[test]
fn test_block_scoping() {
    expect("var a = 1; { var a = 2; print a; } print a;", &["2", "1"]);
    expect("var a = 1; { a = 2; } print a;", &["2"]);
}

#[test]
fn test_undefined_after_block() {
    let (outcome, _) = run("{ var a = 1; } print a;");
    assert!(matches!(
        outcome.runtime_error,
        Some(RuntimeError::UndefinedVariable { .. })
    ));
}

#[test]
fn test_closure_sees_later_assignment() {
    expect("var x = 1; fun f() { print x; } x = 2; f();", &["2"]);
}

#[test]
fn test_for_loop_prints_in_order() {
    expect("for (var i = 0; i < 3; i = i + 1) print i;", &["0", "1", "2"]);
}

#[test]
fn test_while_loop() {
    expect("var i = 0; while (i < 2) { print i; i = i + 1; }", &["0", "1"]);
}

#[test]
fn test_return_unwinds() {
    expect(
        "fun f() { while (true) { if (true) { return 7; } } print \"no\"; } print f();",
        &["7"],
    );
    expect("fun f() { return; print \"no\"; } print f();", &["<nil>"]);
    expect("fun f() {} print f();", &["<nil>"]);
}

#[test]
fn test_arity_mismatch_counts() {
    let (outcome, _) = run("fun f(a) { print a; } f(1, 2);");
    match outcome.runtime_error {
        Some(RuntimeError::ArityMismatch { expected, actual, .. }) => {
            assert_eq!(expected, 1);
            assert_eq!(actual, 2);
        }
        other => panic!("wrong outcome: {:?}", other),
    }
    let (outcome, _) = run("fun f(a) { print a; } f();");
    match outcome.runtime_error {
        Some(RuntimeError::ArityMismatch { expected, actual, .. }) => {
            assert_eq!(expected, 1);
            assert_eq!(actual, 0);
        }
        other => panic!("wrong outcome: {:?}", other),
    }
}

#[test]
fn test_two_malformed_statements_two_reports() {
    let (outcome, _) = run("+; var;");
    assert_eq!(outcome.parse_errors.len(), 2);
    assert!(outcome.scan_errors.is_empty());
    assert!(outcome.runtime_error.is_none());
}

#[test]
fn test_invalid_assignment_target() {
    let (outcome, _) = run("1 = 2;");
    assert_eq!(outcome.parse_errors.len(), 1);
    assert_eq!(outcome.parse_errors[0].message, "Invalid assignment target.");
}

#[test]
fn test_runtime_error_variants() {
    let (o, _) = run("print -\"a\";");
    assert!(matches!(o.runtime_error, Some(RuntimeError::OperandNotNumber { .. })));
    let (o, _) = run("print 1 + nil;");
    assert!(matches!(o.runtime_error, Some(RuntimeError::OperandNil { .. })));
    let (o, _) = run("print true * 1;");
    assert!(matches!(o.runtime_error, Some(RuntimeError::OperandsNotNumbers { .. })));
    let (o, _) = run("print true + false;");
    assert!(matches!(
        o.runtime_error,
        Some(RuntimeError::OperandsNotNumbersOrStrings { .. })
    ));
    let (o, _) = run("print q;");
    assert!(matches!(o.runtime_error, Some(RuntimeError::UndefinedVariable { .. })));
    let (o, _) = run("3();");
    assert!(matches!(o.runtime_error, Some(RuntimeError::NotCallable { .. })));
    let (o, _) = run("var a = 1; b = 2;");
    assert!(matches!(o.runtime_error, Some(RuntimeError::UndefinedVariable { .. })));
}

#[test]
fn test_print_unescapes_strings() {
    expect("print \"a\\nb\";", &["a\nb"]);
    expect("print \"a\\tb\";", &["a\tb"]);
}

#[test]
fn test_print_nil_placeholder() {
    expect("print nil;", &["<nil>"]);
}

#[test]
fn test_print_function_values() {
    expect("fun f() {} print f;", &["<fn f>"]);
    expect("print clock;", &["<native fn>"]);
}

#[test]
fn test_clock_yields_a_number() {
    let (outcome, out) = run("print clock() >= 0;");
    assert!(outcome.runtime_error.is_none());
    assert_eq!(out, vec!["true".to_string()]);
}

#[test]
fn test_comments_and_whitespace() {
    expect("// nothing\nprint 1; // trailing\n", &["1"]);
}

#[test]
fn test_multiline_string() {
    expect("print \"a\nb\";", &["a\nb"]);
}

#[test]
fn test_output_accumulates_across_runs() {
    let mut lox = Lox::new();
    lox.run(String::from("print 1;"));
    lox.run(String::from("print 2;"));
    assert_eq!(
        lox.interpreter.output,
        vec!["1".to_string(), "2".to_string()]
    );
}

#[test]
fn test_globals_persist_across_runs() {
    let mut lox = Lox::new();
    lox.run(String::from("var a = 5;"));
    let outcome = lox.run(String::from("print a;"));
    assert!(outcome.runtime_error.is_none());
    assert_eq!(lox.interpreter.output, vec!["5".to_string()]);
}

#[test]
fn test_function_identity_distinct_across_runs() {
    let mut lox = Lox::new();
    let o = lox.run(String::from("fun f() {} var a = f;"));
    assert!(o.runtime_error.is_none());
    let o = lox.run(String::from("fun g() {} print a == g;"));
    assert!(o.runtime_error.is_none());
    assert_eq!(lox.interpreter.output, vec!["false".to_string()]);
}

#[test]
fn test_function_identity_same_declaration() {
    expect(
        "fun mk() { fun inner() {} return inner; } print mk() == mk();",
        &["true"],
    );
}

#[test]
fn test_nested_closures() {
    expect(
        "fun outer() { var a = 1; fun inner() { print a; } inner(); } outer();",
        &["1"],
    );
}

#[test]
fn test_recursion() {
    expect(
        "fun fib(n) { if (n <= 1) return n; return fib(n - 1) + fib(n - 2); } print fib(10);",
        &["55"],
    );
}
