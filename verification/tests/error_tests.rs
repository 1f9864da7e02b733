use zelen::{parse, Error, ErrorKind, Span};

#[test]
fn error_without_source_has_no_location() {
    let e = Error::type_error("int", "bool", Span::new(3, 4));
    assert_eq!(e.location(), (0, 0));
    assert_eq!(e.source_line(), None);
    assert_eq!(e.to_string(), "Error: Type error: expected int, found bool");
}

#[test]
fn error_location_counts_lines_and_columns() {
    let e = Error::new(ErrorKind::UndefinedVariable("q".to_string()), Span::new(4, 5))
        .with_source("ab\ncd q".to_string());
    assert_eq!(e.location(), (2, 2));
    assert_eq!(e.source_line(), Some("cd q".to_string()));
    assert_eq!(e.to_string(), "Error at line 2, column 2: Undefined variable 'q'\n  cd q\n   ^");
}

#[test]
fn error_location_past_the_end_is_clamped() {
    let e = Error::unexpected_eof(Span::new(100, 100)).with_source("ab".to_string());
    assert_eq!(e.location(), (1, 3));
    assert_eq!(e.to_string(), "Error at line 1, column 3: Unexpected end of file\n  ab\n    ^");
}

#[test]
fn error_source_line_strips_carriage_return() {
    let e = Error::message("bad", Span::new(0, 1)).with_source("a\r\nbc".to_string());
    assert_eq!(e.location(), (1, 1));
    assert_eq!(e.source_line(), Some("a".to_string()));
    let e2 = Error::message("bad", Span::new(4, 5)).with_source("a\r\nbc".to_string());
    assert_eq!(e2.location(), (2, 2));
    assert_eq!(e2.source_line(), Some("bc".to_string()));
}

#[test]
fn error_with_workaround_only_on_unsupported_feature() {
    let e = Error::unsupported_feature("Sets", "Phase 2", Span::new(0, 0)).with_workaround("use arrays");
    assert_eq!(
        e.kind,
        ErrorKind::UnsupportedFeature {
            feature: "Sets".to_string(),
            phase: "Phase 2".to_string(),
            workaround: Some("use arrays".to_string()),
        }
    );
    assert_eq!(e.to_string(), "Error: Unsupported feature: Sets (will be supported in Phase 2)\nWorkaround: use arrays");
    let m = Error::message("plain", Span::new(0, 0)).with_workaround("ignored");
    assert_eq!(m.kind, ErrorKind::Message("plain".to_string()));
    assert_eq!(m.to_string(), "Error: plain");
}

#[test]
fn error_messages_of_each_kind() {
    let sp = Span::new(0, 0);
    assert_eq!(Error::new(ErrorKind::UnexpectedChar('@'), sp).to_string(), "Error: Unexpected character '@'");
    assert_eq!(Error::new(ErrorKind::UnterminatedString, sp).to_string(), "Error: Unterminated string literal");
    assert_eq!(
        Error::new(ErrorKind::InvalidNumber("99".to_string()), sp).to_string(),
        "Error: Invalid number: 99"
    );
    assert_eq!(Error::unexpected_token("';'", "Eof", sp).to_string(), "Error: Expected ';', found Eof");
    assert_eq!(
        Error::new(ErrorKind::InvalidExpression("x".to_string()), sp).to_string(),
        "Error: Invalid expression: x"
    );
    assert_eq!(
        Error::new(ErrorKind::InvalidTypeInst("y".to_string()), sp).to_string(),
        "Error: Invalid type-inst: y"
    );
    assert_eq!(
        Error::new(ErrorKind::DuplicateDeclaration("n".to_string()), sp).to_string(),
        "Error: Duplicate declaration of 'n'"
    );
}

#[test]
fn parse_error_points_at_unexpected_character() {
    let err = parse("int: x = 5 @;").unwrap_err();
    assert_eq!(err.kind, ErrorKind::UnexpectedChar('@'));
    assert_eq!(err.location(), (1, 12));
    assert_eq!(
        err.to_string(),
        "Error at line 1, column 12: Unexpected character '@'\n  int: x = 5 @;\n             ^"
    );
}

#[test]
fn parse_error_on_second_line() {
    let err = parse("int: n = 5;\nint m = 3;").unwrap_err();
    assert_eq!(err.location(), (2, 4));
    assert_eq!(err.source_line(), Some("int m = 3;".to_string()));
    assert_eq!(err.source, Some("int: n = 5;\nint m = 3;".to_string()));
}

#[test]
fn parse_error_unterminated_string() {
    let err = parse("output [\"abc").unwrap_err();
    assert_eq!(err.kind, ErrorKind::UnterminatedString);
    assert_eq!(err.location(), (1, 9));
}

#[test]
fn parse_empty_source_gives_empty_model() {
    let model = parse("  % only a comment\n").unwrap();
    assert_eq!(model.items.len(), 0);
}

#[test]
fn error_from_string_is_a_plain_message() {
    let e: Error = Error::from("went wrong".to_string());
    assert_eq!(e.kind, ErrorKind::Message("went wrong".to_string()));
    assert_eq!(e.span, Span::new(0, 0));
    assert_eq!(e.source, None);
    assert_eq!(e.to_string(), "Error: went wrong");
}
