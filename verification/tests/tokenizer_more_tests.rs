use zelen::tokenizer::{tokenize, FlatZincError, Location, TokenType};

fn types(input: &str) -> Vec<TokenType> {
    tokenize(input).unwrap().into_iter().map(|t| t.token_type).collect()
}

fn lex_error(input: &str) -> (String, usize, usize) {
    match tokenize(input).unwrap_err() {
        FlatZincError::LexError { message, line, column } => (message, line, column),
    }
}

#[test]
fn tokenizer_locations() {
    let tokens = tokenize("var x;\n  int").unwrap();
    let locs: Vec<Location> = tokens.iter().map(|t| t.location).collect();
    assert_eq!(
        locs,
        vec![
            Location::new(1, 1),
            Location::new(1, 5),
            Location::new(1, 6),
            Location::new(2, 3),
            Location::new(2, 6),
        ]
    );
    assert_eq!(tokens[4].token_type, TokenType::Eof);
}

#[test]
fn tokenizer_empty_input_is_just_eof() {
    assert_eq!(types(""), vec![TokenType::Eof]);
    assert_eq!(types("  % comment only\n /* block */ "), vec![TokenType::Eof]);
}

#[test]
fn tokenizer_punctuation() {
    assert_eq!(
        types("x :: y : [1..2] {a, b} (c) = ."),
        vec![
            TokenType::Identifier("x".to_string()),
            TokenType::DoubleColon,
            TokenType::Identifier("y".to_string()),
            TokenType::Colon,
            TokenType::LeftBracket,
            TokenType::IntLiteral(1),
            TokenType::DoubleDot,
            TokenType::IntLiteral(2),
            TokenType::RightBracket,
            TokenType::LeftBrace,
            TokenType::Identifier("a".to_string()),
            TokenType::Comma,
            TokenType::Identifier("b".to_string()),
            TokenType::RightBrace,
            TokenType::LeftParen,
            TokenType::Identifier("c".to_string()),
            TokenType::RightParen,
            TokenType::Equals,
            TokenType::Dot,
            TokenType::Eof,
        ]
    );
}

#[test]
fn tokenizer_all_keywords() {
    assert_eq!(
        types("array of minimize maximize float set true false"),
        vec![
            TokenType::Array,
            TokenType::Of,
            TokenType::Minimize,
            TokenType::Maximize,
            TokenType::Float,
            TokenType::SetKw,
            TokenType::True,
            TokenType::False,
            TokenType::Eof,
        ]
    );
}

#[test]
fn tokenizer_number_forms() {
    assert_eq!(
        types("3.14 -2.5 1e10 2.5e-3 7E+2 -0"),
        vec![
            TokenType::FloatLiteral("3.14".to_string()),
            TokenType::FloatLiteral("-2.5".to_string()),
            TokenType::FloatLiteral("1e10".to_string()),
            TokenType::FloatLiteral("2.5e-3".to_string()),
            TokenType::FloatLiteral("7E+2".to_string()),
            TokenType::IntLiteral(0),
            TokenType::Eof,
        ]
    );
    assert_eq!(types("-9223372036854775808"), vec![TokenType::IntLiteral(i64::MIN), TokenType::Eof]);
}

#[test]
fn tokenizer_strings_and_escapes() {
    assert_eq!(
        types(r#""a\nb\t\\\"""#),
        vec![TokenType::StringLiteral("a\nb\t\\\"".to_string()), TokenType::Eof]
    );
}

#[test]
fn tokenizer_unicode_identifier() {
    assert_eq!(types("café"), vec![TokenType::Identifier("café".to_string()), TokenType::Eof]);
}

#[test]
fn tokenizer_errors() {
    assert_eq!(lex_error("x @"), ("Unexpected character: '@'".to_string(), 1, 3));
    assert_eq!(lex_error("- 5"), ("Unexpected character: '-'".to_string(), 1, 1));
    assert_eq!(lex_error("\"abc"), ("Unterminated string literal".to_string(), 1, 1));
    assert_eq!(lex_error("x \"ab\ncd\""), ("Unterminated string literal".to_string(), 1, 3));
    assert_eq!(lex_error("\"a\\qb\""), ("Invalid escape sequence".to_string(), 1, 4));
    assert_eq!(lex_error("x\n  /* open"), ("Unterminated block comment".to_string(), 2, 3));
    assert_eq!(lex_error("1e"), ("Invalid float literal: 1e".to_string(), 1, 1));
    assert_eq!(lex_error("1e+"), ("Invalid float literal: 1e+".to_string(), 1, 1));
    assert_eq!(
        lex_error("99999999999999999999"),
        ("Invalid integer literal: 99999999999999999999".to_string(), 1, 1)
    );
}

#[test]
fn tokenizer_result_ends_with_eof() {
    for input in ["", "var int: x;", "solve satisfy; % done", "a b c"] {
        let tokens = tokenize(input).unwrap();
        assert_eq!(tokens.last().unwrap().token_type, TokenType::Eof);
        assert_eq!(tokens.iter().filter(|t| t.token_type == TokenType::Eof).count(), 1);
    }
}
