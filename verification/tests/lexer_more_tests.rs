use zelen::{ErrorKind, Lexer, Span, TokenKind};

fn kinds(source: &str) -> Vec<TokenKind> {
    let mut lexer = Lexer::new(source);
    let mut out = Vec::new();
    loop {
        let t = lexer.next_token().unwrap();
        if t.kind == TokenKind::Eof {
            break;
        }
        out.push(t.kind);
    }
    out
}

#[test]
fn lexer_logical_operators() {
    assert_eq!(
        kinds("x <-> y -> z /\\ w \\/ v"),
        vec![
            TokenKind::Ident("x".to_string()),
            TokenKind::Iff,
            TokenKind::Ident("y".to_string()),
            TokenKind::Impl,
            TokenKind::Ident("z".to_string()),
            TokenKind::And,
            TokenKind::Ident("w".to_string()),
            TokenKind::Or,
            TokenKind::Ident("v".to_string()),
        ]
    );
}

#[test]
fn lexer_equality_forms() {
    assert_eq!(
        kinds("a != b == c = d"),
        vec![
            TokenKind::Ident("a".to_string()),
            TokenKind::Ne,
            TokenKind::Ident("b".to_string()),
            TokenKind::Eq,
            TokenKind::Ident("c".to_string()),
            TokenKind::Eq,
            TokenKind::Ident("d".to_string()),
        ]
    );
}

#[test]
fn lexer_keywords_and_booleans() {
    assert_eq!(
        kinds("true false not xor in where par output of array bool float"),
        vec![
            TokenKind::BoolLit(true),
            TokenKind::BoolLit(false),
            TokenKind::Not,
            TokenKind::Xor,
            TokenKind::In,
            TokenKind::Where,
            TokenKind::Par,
            TokenKind::Output,
            TokenKind::Of,
            TokenKind::Array,
            TokenKind::Bool,
            TokenKind::Float,
        ]
    );
}

#[test]
fn lexer_range_after_integer() {
    assert_eq!(kinds("1..10"), vec![TokenKind::IntLit(1), TokenKind::DotDot, TokenKind::IntLit(10)]);
    assert_eq!(kinds("a::b"), vec![
        TokenKind::Ident("a".to_string()),
        TokenKind::ColonColon,
        TokenKind::Ident("b".to_string()),
    ]);
}

#[test]
fn lexer_spans_are_char_offsets() {
    let mut lexer = Lexer::new("  ab <= 12");
    let t1 = lexer.next_token().unwrap();
    assert_eq!(t1.span, Span::new(2, 4));
    let t2 = lexer.next_token().unwrap();
    assert_eq!((t2.kind, t2.span), (TokenKind::Le, Span::new(5, 7)));
    let t3 = lexer.next_token().unwrap();
    assert_eq!((t3.kind, t3.span), (TokenKind::IntLit(12), Span::new(8, 10)));
    let t4 = lexer.next_token().unwrap();
    assert_eq!((t4.kind, t4.span), (TokenKind::Eof, Span::new(10, 10)));
}

#[test]
fn lexer_peek_does_not_consume() {
    let mut lexer = Lexer::new("foo bar");
    let p = lexer.peek_token().unwrap();
    let n = lexer.next_token().unwrap();
    assert_eq!(p, n);
    assert_eq!(n.kind, TokenKind::Ident("foo".to_string()));
    let n2 = lexer.next_token().unwrap();
    assert_eq!(n2.kind, TokenKind::Ident("bar".to_string()));
}

#[test]
fn lexer_string_escapes() {
    assert_eq!(
        kinds(r#""a\tb\rc\"d\\e\qf""#),
        vec![TokenKind::StringLit("a\tb\rc\"d\\e\\qf".to_string())]
    );
}

#[test]
fn lexer_errors() {
    let mut l = Lexer::new("x @");
    l.next_token().unwrap();
    let err = l.next_token().unwrap_err();
    assert_eq!(err.kind, ErrorKind::UnexpectedChar('@'));
    assert_eq!(err.span, Span::new(2, 2));

    let err = Lexer::new("<-x").next_token().unwrap_err();
    assert_eq!(err.kind, ErrorKind::UnexpectedChar('<'));
    assert_eq!(err.span, Span::new(0, 2));

    let err = Lexer::new("!x").next_token().unwrap_err();
    assert_eq!(err.kind, ErrorKind::UnexpectedChar('!'));

    let err = Lexer::new(".5").next_token().unwrap_err();
    assert_eq!(err.kind, ErrorKind::UnexpectedChar('.'));

    let err = Lexer::new("\\x").next_token().unwrap_err();
    assert_eq!(err.kind, ErrorKind::UnexpectedChar('\\'));

    let err = Lexer::new("99999999999999999999").next_token().unwrap_err();
    assert_eq!(err.kind, ErrorKind::InvalidNumber("99999999999999999999".to_string()));
    assert_eq!(err.span, Span::new(0, 20));

    let err = Lexer::new("\"open").next_token().unwrap_err();
    assert_eq!(err.kind, ErrorKind::UnterminatedString);
    assert_eq!(err.span, Span::new(0, 5));
}

#[test]
fn lexer_largest_integer() {
    assert_eq!(kinds("9223372036854775807"), vec![TokenKind::IntLit(9223372036854775807)]);
}

#[test]
fn lexer_float_keeps_text() {
    assert_eq!(kinds("0.50 10.25"), vec![
        TokenKind::FloatLit("0.50".to_string()),
        TokenKind::FloatLit("10.25".to_string()),
    ]);
}

#[test]
fn float_literal_debug_text_matches_f64() {
    let cases: Vec<(&str, f64)> = vec![
        ("0.0", 0.0),
        ("007.50", 7.5),
        ("0.0001", 0.0001),
        ("0.000125", 0.000125),
        ("0.00001", 0.00001),
        ("10000000000000000.0", 10000000000000000.0),
        ("25000000000000000.0", 25000000000000000.0),
        ("123456789012345000000.0", 123456789012345000000.0),
        ("3.14", 3.14),
    ];
    for (text, value) in cases {
        let kind = TokenKind::FloatLit(text.to_string());
        assert_eq!(kind.debug_text(), format!("FloatLit({:?})", value), "literal {}", text);
    }
}

#[test]
fn cloned_lexer_reads_the_same_tokens() {
    let mut a = Lexer::new("x + 1");
    a.next_token().unwrap();
    let mut b = a.clone();
    assert_eq!(a.next_token().unwrap(), b.next_token().unwrap());
    assert_eq!(a.next_token().unwrap(), b.next_token().unwrap());
}
