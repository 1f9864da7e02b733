use zelen::{Lexer, Result, TokenKind};

fn lex_all(source: &str) -> Result<Vec<TokenKind>> {
    let mut lexer = Lexer::new(source);
    let mut tokens = Vec::new();
    loop {
        let token = lexer.next_token()?;
        if token.kind == TokenKind::Eof {
            break;
        }
        tokens.push(token.kind);
    }
    Ok(tokens)
}

#[test]
fn test_keywords() {
    let tokens = lex_all("var int constraint solve satisfy").unwrap();
    assert_eq!(
        tokens,
        vec![TokenKind::Var, TokenKind::Int, TokenKind::Constraint, TokenKind::Solve, TokenKind::Satisfy]
    );
}

#[test]
fn test_operators() {
    let tokens = lex_all("+ - * / div mod < <= > >= == != /\\ \\/ -> <-> ..").unwrap();
    assert_eq!(tokens.len(), 17);
}

#[test]
fn test_numbers() {
    let tokens = lex_all("42 3.14 0 100").unwrap();
    assert_eq!(
        tokens,
        vec![
            TokenKind::IntLit(42),
            TokenKind::FloatLit("3.14".to_string()),
            TokenKind::IntLit(0),
            TokenKind::IntLit(100),
        ]
    );
}

#[test]
fn test_identifiers() {
    let tokens = lex_all("x queens my_var_123").unwrap();
    assert_eq!(
        tokens,
        vec![
            TokenKind::Ident("x".to_string()),
            TokenKind::Ident("queens".to_string()),
            TokenKind::Ident("my_var_123".to_string()),
        ]
    );
}

#[test]
fn test_string() {
    let tokens = lex_all(r#""hello" "world\n""#).unwrap();
    assert_eq!(
        tokens,
        vec![TokenKind::StringLit("hello".to_string()), TokenKind::StringLit("world\n".to_string())]
    );
}

#[test]
fn test_comments() {
    let tokens = lex_all("int % this is a comment\nvar").unwrap();
    assert_eq!(tokens, vec![TokenKind::Int, TokenKind::Var]);
}
