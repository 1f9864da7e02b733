use zelen::compiler::Compiler;
use zelen::{parse, ErrorKind};

fn compile(source: &str) -> zelen::Result<String> {
    let model = parse(source).unwrap();
    let mut compiler = Compiler::new();
    compiler.compile(&model)
}

#[test]
fn compile_whole_program_for_a_parameter() {
    let code = compile("int: n = 5;").unwrap();
    let expected_start = "use zelen::*;\n\nfn main() {\n    let mut model = Model::new();\n    \n    let n = 5;\n    \n    // Solve the model\n    let solver = model.solve();\n    match solver.next_solution() {\n        Some(solution) => {\n            println!(\"Solution found:\");\n";
    assert!(code.starts_with(expected_start));
    let expected_end = "        }\n        None => {\n            println!(\"No solution found\");\n        }\n    }\n}\n";
    assert!(code.ends_with(expected_end));
}

#[test]
fn compile_constraints_and_objective() {
    let code = compile("var 1..10: x;\nvar 1..10: y;\nconstraint x < y;\nconstraint x != 3;\nsolve minimize x;").unwrap();
    assert!(code.contains("    let x = model.new_int_var(1..=10);\n"));
    assert!(code.contains("    let y = model.new_int_var(1..=10);\n"));
    assert!(code.contains("    model.less_than(x, y);\n"));
    assert!(code.contains("    model.not_equals(x, 3);\n"));
    assert!(code.contains("    \n    // Solve configuration\n    model.minimize(x);\n"));
}

#[test]
fn compile_arithmetic_and_arrays() {
    let code = compile(
        "int: n = 5;\nint: m = n * 2 + 1;\narray[1..3] of int: a = [1, 2, 3];\nconstraint alldifferent(a);\nsolve satisfy;",
    )
    .unwrap();
    assert!(code.contains("    let m = ((n * 2) + 1);\n"));
    assert!(code.contains("    let a = vec![1, 2, 3];\n"));
    assert!(code.contains("    model.all_different(&a);\n"));
    assert!(code.contains("    // Solve configuration\n    // solve satisfy (default)\n"));
}

#[test]
fn compile_domain_from_set_literal() {
    let code = compile("var {1, 3, 5}: x;").unwrap();
    assert!(code.contains("    let x = model.new_int_var(&[1, 3, 5]);\n"));
}

#[test]
fn compile_undefined_variable() {
    let err = compile("constraint x < 3;").unwrap_err();
    assert_eq!(err.kind, ErrorKind::Message("Undefined variable: x".to_string()));
}

#[test]
fn compile_decision_variable_without_domain() {
    let err = compile("var int: x;").unwrap_err();
    assert_eq!(
        err.kind,
        ErrorKind::UnsupportedFeature {
            feature: "Decision variables without domains".to_string(),
            phase: "Phase 1".to_string(),
            workaround: None,
        }
    );
}

#[test]
fn compile_parameter_without_initializer() {
    let err = compile("int: n;").unwrap_err();
    assert_eq!(
        err.kind,
        ErrorKind::TypeError {
            expected: "parameter with initializer".to_string(),
            found: "parameter without initializer".to_string(),
        }
    );
}

#[test]
fn compile_array_index_set_must_be_a_range_expression() {
    let err = compile("array[1..5] of var 1..9: q;").unwrap_err();
    assert_eq!(
        err.kind,
        ErrorKind::TypeError { expected: "range expression".to_string(), found: "other expression".to_string() }
    );
}

#[test]
fn compile_unknown_constraint_call() {
    let err = compile("var 1..3: x;\nconstraint foo(x);").unwrap_err();
    assert_eq!(
        err.kind,
        ErrorKind::UnsupportedFeature {
            feature: "Constraint 'foo'".to_string(),
            phase: "Phase 1".to_string(),
            workaround: None,
        }
    );
}

#[test]
fn compile_unsupported_expression_reports_its_debug_form() {
    let model = parse("int: x = {1, 2};").unwrap();
    let mut compiler = Compiler::new();
    let err = compiler.compile(&model).unwrap_err();
    let expected = "Expression type: SetLit([Expr { kind: IntLit(1), span: Span { start: 10, end: 12 } }, Expr { kind: IntLit(2), span: Span { start: 13, end: 15 } }])";
    assert_eq!(
        err.kind,
        ErrorKind::UnsupportedFeature { feature: expected.to_string(), phase: "Phase 1".to_string(), workaround: None }
    );
    if let zelen::Item::VarDecl(d) = &model.items[0] {
        let e = d.expr.as_ref().unwrap();
        assert_eq!(format!("Expression type: {:?}", e.kind), expected);
    } else {
        panic!("expected a declaration");
    }
}

#[test]
fn compile_later_declaration_is_found() {
    let code = compile("int: n = 1;\nint: k = n;\nint: j = k + n;").unwrap();
    assert!(code.contains("    let k = n;\n"));
    assert!(code.contains("    let j = (k + n);\n"));
}

#[test]
fn compile_float_parameters_as_f64_display() {
    let code = compile("float: a = 2.50;\nfloat: b = 0.00001;\nfloat: c = 100000000000000000000.0;").unwrap();
    assert!(code.contains(&format!("    let a = {};\n", 2.50f64)));
    assert!(code.contains(&format!("    let b = {};\n", 0.00001f64)));
    assert!(code.contains(&format!("    let c = {};\n", 100000000000000000000.0f64)));
}
