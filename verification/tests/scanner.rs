//! The scanner against source texts, with the host's double parsing as the
//! oracle for number literals.

use loxr::scanner::Scanner;
use loxr::token::{get_keywords_map, LoxType, TokenType};

#[test]
fn test_scanner() {
    let source = String::from("var a = \"test\";\nvar b = 123.45;");
    let mut scanner = Scanner::new(source);
    let tokens = scanner.scan_tokens();
    for token in tokens {
        println!("{:?}", token);
    }
}

#[test]
fn test_scanner_token_kinds() {
    let mut scanner = Scanner::new(String::from("var a = \"test\";\nvar b = 123.45;"));
    let tokens = scanner.scan_tokens();
    let kinds: Vec<TokenType> = tokens.iter().map(|t| t.token_type).collect();
    assert_eq!(
        kinds,
        vec![
            TokenType::Var,
            TokenType::Identifier,
            TokenType::Equal,
            TokenType::String,
            TokenType::Semicolon,
            TokenType::Var,
            TokenType::Identifier,
            TokenType::Equal,
            TokenType::Number,
            TokenType::Semicolon,
            TokenType::Eof,
        ]
    );
    assert!(scanner.errors.is_empty());
    assert_eq!(scanner.get_line(), 2);
}

#[test]
fn test_number_literal_matches_host_parsing() {
    let mut scanner = Scanner::new(String::from("123.45 1 1.0 0"));
    let tokens = scanner.scan_tokens();
    let mut bits: Vec<u64> = Vec::new();
    for t in &tokens {
        if let Some(LoxType::Num(b)) = t.literal {
            bits.push(b);
        }
    }
    assert_eq!(
        bits,
        vec![
            123.45f64.to_bits(),
            1.0f64.to_bits(),
            1.0f64.to_bits(),
            0.0f64.to_bits(),
        ]
    );
}

#[test]
fn test_string_literal_and_lexeme() {
    let mut scanner = Scanner::new(String::from("\"hi\""));
    let tokens = scanner.scan_tokens();
    assert_eq!(tokens[0].token_type, TokenType::String);
    assert_eq!(tokens[0].lexeme, "\"hi\"");
    match &tokens[0].literal {
        Some(LoxType::Str(s)) => assert_eq!(s, "hi"),
        other => panic!("wrong literal: {:?}", other),
    }
}

#[test]
fn test_trailing_dot_not_consumed() {
    let mut scanner = Scanner::new(String::from("123."));
    let tokens = scanner.scan_tokens();
    let kinds: Vec<TokenType> = tokens.iter().map(|t| t.token_type).collect();
    assert_eq!(kinds, vec![TokenType::Number, TokenType::Dot, TokenType::Eof]);
    assert_eq!(tokens[0].lexeme, "123");
}

#[test]
fn test_two_character_operators() {
    let mut scanner = Scanner::new(String::from("! != = == < <= > >="));
    let tokens = scanner.scan_tokens();
    let kinds: Vec<TokenType> = tokens.iter().map(|t| t.token_type).collect();
    assert_eq!(
        kinds,
        vec![
            TokenType::Bang,
            TokenType::BangEqual,
            TokenType::Equal,
            TokenType::EqualEqual,
            TokenType::Less,
            TokenType::LessEqual,
            TokenType::Greater,
            TokenType::GreaterEqual,
            TokenType::Eof,
        ]
    );
}

#[test]
fn test_unterminated_string_reported_and_scan_continues() {
    let mut scanner = Scanner::new(String::from("\"abc"));
    let tokens = scanner.scan_tokens();
    assert_eq!(tokens.len(), 1);
    assert_eq!(tokens[0].token_type, TokenType::Eof);
    assert_eq!(scanner.errors.len(), 1);
    assert_eq!(scanner.errors[0].message, "Unterminated string.");
}

#[test]
fn test_unexpected_character_reported_and_scan_continues() {
    let mut scanner = Scanner::new(String::from("@ 1"));
    let tokens = scanner.scan_tokens();
    assert_eq!(scanner.errors.len(), 1);
    assert_eq!(scanner.errors[0].message, "Unexpected character: @");
    let kinds: Vec<TokenType> = tokens.iter().map(|t| t.token_type).collect();
    assert_eq!(kinds, vec![TokenType::Number, TokenType::Eof]);
}

#[test]
fn test_unterminated_string_reported_at_opening_line() {
    let mut scanner = Scanner::new(String::from("1\n\"ab\ncd"));
    let _tokens = scanner.scan_tokens();
    assert_eq!(scanner.errors.len(), 1);
    assert_eq!(scanner.errors[0].message, "Unterminated string.");
    assert_eq!(scanner.errors[0].line, 2);
}

#[test]
fn test_keywords_map() {
    let m = get_keywords_map();
    assert_eq!(m.len(), 16);
    assert_eq!(m[0].0, "and");
    assert_eq!(m[0].1, TokenType::And);
    assert_eq!(m[15].0, "while");
    assert_eq!(m[15].1, TokenType::While);
}

#[test]
fn test_keywords_scanned_case_sensitively() {
    let mut scanner = Scanner::new(String::from("and And while fun"));
    let tokens = scanner.scan_tokens();
    let kinds: Vec<TokenType> = tokens.iter().map(|t| t.token_type).collect();
    assert_eq!(
        kinds,
        vec![
            TokenType::And,
            TokenType::Identifier,
            TokenType::While,
            TokenType::Fun,
            TokenType::Eof,
        ]
    );
}

#[test]
fn test_empty_source_yields_eof_only() {
    let mut scanner = Scanner::new(String::from(""));
    let tokens = scanner.scan_tokens();
    assert_eq!(tokens.len(), 1);
    assert_eq!(tokens[0].token_type, TokenType::Eof);
}
