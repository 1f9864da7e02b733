use zelen::exporter::{get_var_name, sanitize_name, translate_var_name};
use zelen::SolverConfig;

#[test]
fn solver_config_builder() {
    let config = SolverConfig::default().with_time_limit_ms(5000).with_memory_limit_mb(1024).with_all_solutions(true);
    assert_eq!(config.time_limit_ms, Some(5000));
    assert_eq!(config.memory_limit_mb, Some(1024));
    assert!(config.all_solutions);
    assert_eq!(config.max_solutions, None);
}

#[test]
fn solver_config_zero_means_no_limit() {
    let config = SolverConfig::default()
        .with_time_limit_ms(10)
        .with_max_solutions(3)
        .with_time_limit_ms(0)
        .with_memory_limit_mb(0);
    assert_eq!(config.time_limit_ms, None);
    assert_eq!(config.memory_limit_mb, None);
    assert_eq!(config.max_solutions, Some(3));
    assert!(!config.all_solutions);
    assert_eq!(config.with_max_solutions(0).max_solutions, None);
}

#[test]
fn sanitize_replaces_separators_and_lowercases() {
    assert_eq!(sanitize_name("a::b.c-d[1]"), "a_b_c_d_1_");
    assert_eq!(sanitize_name("Queens.Row"), "queens_row");
    assert_eq!(sanitize_name("a:b"), "a:b");
    assert_eq!(sanitize_name(""), "");
}

#[test]
fn var_names_skip_introduced_and_qualified() {
    assert_eq!(get_var_name("X_INTRODUCED_5_"), None);
    assert_eq!(get_var_name("m::x"), None);
    assert_eq!(get_var_name("Foo.Bar"), Some("foo_bar".to_string()));
    assert_eq!(get_var_name("x_introduced"), Some("x_introduced".to_string()));
}

#[test]
fn translate_uses_array_position_when_known() {
    let map = vec![
        ("q_1".to_string(), ("q".to_string(), 0usize)),
        ("q_2".to_string(), ("q".to_string(), 1usize)),
    ];
    assert_eq!(translate_var_name("q_2", &map), "q[1]");
    assert_eq!(translate_var_name("q_1", &map), "q[0]");
    assert_eq!(translate_var_name("Other.V", &map), "other_v");
}
