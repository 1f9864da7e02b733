use zelen::compiler::Compiler;
use zelen::parse;

#[test]
fn test_compile_simple_param() {
    let source = "int: n = 5;";
    let model = parse(source).unwrap();
    let mut compiler = Compiler::new();
    let rust_code = compiler.compile(&model).unwrap();
    assert!(rust_code.contains("let n = 5;"));
}

#[test]
fn test_compile_var_with_domain() {
    let source = "var 1..10: x;";
    let model = parse(source).unwrap();
    let mut compiler = Compiler::new();
    let rust_code = compiler.compile(&model).unwrap();
    assert!(rust_code.contains("new_int_var"));
    assert!(rust_code.contains("1..=10"));
}
