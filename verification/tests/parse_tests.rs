use zelen::{parse, BaseType, ExprKind, Item, Lexer, Model, Parser, Result, TypeInst};

fn parse_with_parser(source: &str) -> Result<Model> {
    let lexer = Lexer::new(source);
    let mut parser = Parser::new(lexer).with_source(source.to_string());
    parser.parse_model()
}

#[test]
fn test_parse_simple_model() {
    let source = r#"
            int: n = 5;
            var 1..n: x;
            constraint x > 2;
            solve satisfy;
        "#;
    let result = parse(source);
    assert!(result.is_ok(), "Failed to parse: {:?}", result.err());
    let model = result.unwrap();
    assert_eq!(model.items.len(), 4);
}

#[test]
fn test_parse_nqueens() {
    let source = r#"
            int: n = 4;
            array[1..n] of var 1..n: queens;
            constraint alldifferent(queens);
            solve satisfy;
        "#;
    let result = parse(source);
    assert!(result.is_ok(), "Failed to parse: {:?}", result.err());
    let model = result.unwrap();
    assert_eq!(model.items.len(), 4);
}

#[test]
fn test_parse_with_expressions() {
    let source = r#"
            int: n = 10;
            array[1..n] of var int: x;
            constraint sum(x) == 100;
            constraint forall(i in 1..n)(x[i] >= 0);
            solve minimize sum(i in 1..n)(x[i] * x[i]);
        "#;
    let result = parse(source);
    assert!(result.is_ok(), "Failed to parse: {:?}", result.err());
}

#[test]
fn test_error_reporting() {
    let source = "int n = 5";
    let result = parse(source);
    assert!(result.is_err());
    if let Err(e) = result {
        let error_msg = e.to_string();
        assert!(error_msg.contains("line 1"));
    }
}

#[test]
fn test_simple_var_decl() {
    let model = parse_with_parser("int: n = 5;").unwrap();
    assert_eq!(model.items.len(), 1);
}

#[test]
fn test_array_decl() {
    let model = parse_with_parser("array[1..n] of var int: x;").unwrap();
    assert_eq!(model.items.len(), 1);
}

#[test]
fn test_constraint() {
    let model = parse_with_parser("constraint x < y;").unwrap();
    assert_eq!(model.items.len(), 1);
}

#[test]
fn test_solve_satisfy() {
    let model = parse_with_parser("solve satisfy;").unwrap();
    assert_eq!(model.items.len(), 1);
}

#[test]
fn test_nqueens_simple() {
    let source = r#"
            int: n = 4;
            array[1..n] of var 1..n: queens;
            constraint alldifferent(queens);
            solve satisfy;
        "#;
    let model = parse_with_parser(source).unwrap();
    assert_eq!(model.items.len(), 4);
}

#[test]
fn test_expressions() {
    let source = r#"
            constraint x + y > 10;
            constraint a /\ b \/ c;
            constraint sum(arr) <= 100;
        "#;
    let model = parse_with_parser(source).unwrap();
    assert_eq!(model.items.len(), 3);
}

#[test]
fn test_implicit_index_array() {
    let source = r#"
            array[int] of int: evens = [2, 4, 6, 8];
        "#;
    let model = parse_with_parser(source).unwrap();
    assert_eq!(model.items.len(), 1);
    if let Item::VarDecl(var_decl) = &model.items[0] {
        if let TypeInst::Array { index_sets, .. } = &var_decl.type_inst {
            assert_eq!(index_sets.len(), 1);
            assert!(matches!(index_sets[0].kind, ExprKind::ImplicitIndexSet(BaseType::Int)));
        } else {
            panic!("Expected array type");
        }
    } else {
        panic!("Expected var decl");
    }
}
