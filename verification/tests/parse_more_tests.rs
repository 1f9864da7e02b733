use zelen::compiler::Compiler;
use zelen::{parse, BaseType, BinOp, EnumDef, ErrorKind, Expr, ExprKind, Item, Model, Solve, Span, TypeInst, VarDecl};

#[test]
fn enum_keyword_is_not_parsed() {
    assert!(parse("enum Color = {Red, Green, Blue};").is_err());
}

#[test]
fn compile_rejects_enum_definition() {
    let model = Model {
        items: vec![Item::EnumDef(EnumDef {
            name: "Color".to_string(),
            values: vec!["Red".to_string(), "Green".to_string()],
            span: Span::new(0, 0),
        })],
    };
    let err = Compiler::new().compile(&model).unwrap_err();
    assert_eq!(
        err.kind,
        ErrorKind::UnsupportedFeature {
            feature: "Enumerated types".to_string(),
            phase: "Phase 1".to_string(),
            workaround: None,
        }
    );
}

#[test]
fn compile_enum_typed_parameter_is_an_integer() {
    let model = Model {
        items: vec![Item::VarDecl(VarDecl {
            type_inst: TypeInst::Basic { is_var: false, base_type: BaseType::Enum("Color".to_string()) },
            name: "c".to_string(),
            expr: Some(Expr { kind: ExprKind::IntLit(2), span: Span::new(0, 0) }),
            span: Span::new(0, 0),
        })],
    };
    let code = Compiler::new().compile(&model).unwrap();
    assert!(code.contains("    let c = 2;\n"));
}

#[test]
fn parse_nested_forall_and_objective() {
    let source = "int: n = 3;\narray[1..n] of var 1..n: x;\nconstraint forall(i, j in 1..n where i < j)(x[i] != x[j]);\nsolve maximize sum(x);\noutput [\"x = \", show(x)];";
    let model = parse(source).unwrap();
    assert_eq!(model.items.len(), 5);
    assert!(matches!(model.items[2], Item::Constraint(_)));
    assert!(matches!(model.items[3], Item::Solve(Solve::Maximize { .. })));
    assert!(matches!(model.items[4], Item::Output(_)));
}

#[test]
fn parse_operator_precedence() {
    let model = parse("constraint a + b * c < d;").unwrap();
    match &model.items[0] {
        Item::Constraint(c) => match &c.expr.kind {
            ExprKind::BinOp { op: BinOp::Lt, left, .. } => match &left.kind {
                ExprKind::BinOp { op: BinOp::Add, right, .. } => {
                    assert!(matches!(right.kind, ExprKind::BinOp { op: BinOp::Mul, .. }));
                },
                other => panic!("unexpected {:?}", other),
            },
            other => panic!("unexpected {:?}", other),
        },
        other => panic!("unexpected {:?}", other),
    }
}

#[test]
fn parse_two_dimensional_array_type() {
    let model = parse("array[1..2, 1..3] of var 0..9: grid;").unwrap();
    match &model.items[0] {
        Item::VarDecl(d) => match &d.type_inst {
            TypeInst::Array { index_sets, .. } => assert_eq!(index_sets.len(), 2),
            other => panic!("unexpected {:?}", other),
        },
        other => panic!("unexpected {:?}", other),
    }
}

#[test]
fn parse_missing_semicolon_is_an_error() {
    let err = parse("int: n = 5").unwrap_err();
    assert_eq!(err.source, Some("int: n = 5".to_string()));
    assert!(err.to_string().contains("line 1"));
}

#[test]
fn cloned_model_equals_the_original() {
    let source = "int: n = 3;\narray[1..n] of var 1..n: x;\nconstraint forall(i, j in 1..n where i < j)(x[i] != x[j]);\nsolve maximize sum(x);\noutput [\"x = \", show(x)];";
    let model = parse(source).unwrap();
    let copy = model.clone();
    assert_eq!(copy, model);
    assert_eq!(model.items[2].clone(), model.items[2]);
}
