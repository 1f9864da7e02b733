use zelen::tokenizer::{tokenize, TokenType};

#[test]
fn test_tokenize_keywords() {
    let input = "var int bool predicate constraint solve satisfy";
    let tokens = tokenize(input).unwrap();
    assert_eq!(tokens.len(), 8);
    assert!(matches!(tokens[0].token_type, TokenType::Var));
    assert!(matches!(tokens[1].token_type, TokenType::Int));
    assert!(matches!(tokens[2].token_type, TokenType::Bool));
}

#[test]
fn test_tokenize_numbers() {
    let input = "42 -17 3.14 -2.5 1e10";
    let tokens = tokenize(input).unwrap();
    assert!(matches!(tokens[0].token_type, TokenType::IntLiteral(42)));
    assert!(matches!(tokens[1].token_type, TokenType::IntLiteral(-17)));
    assert!(matches!(tokens[2].token_type, TokenType::FloatLiteral(_)));
}

#[test]
fn test_tokenize_identifiers() {
    let input = "x y_1 foo_bar INT____00001";
    let tokens = tokenize(input).unwrap();
    assert_eq!(tokens.len(), 5);
}

#[test]
fn test_tokenize_comment() {
    let input = "var x; % this is a comment\nvar y;";
    let tokens = tokenize(input).unwrap();
    assert!(matches!(tokens[0].token_type, TokenType::Var));
    assert!(matches!(tokens[2].token_type, TokenType::Semicolon));
    assert!(matches!(tokens[3].token_type, TokenType::Var));
}
