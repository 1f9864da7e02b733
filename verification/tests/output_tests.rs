use zelen::output::{
    format_no_solution, format_solution, format_unknown, solution_report, OutValue, OutputFormatter, SearchType, SolveStatistics,
};

fn entry(name: &str, v: Option<OutValue>) -> (String, Option<OutValue>) {
    (name.to_string(), v)
}

#[test]
fn solution_is_sorted_by_name_and_skips_missing_values() {
    let vars = vec![
        entry("y", Some(OutValue::Int(2))),
        entry("x", Some(OutValue::Int(-1))),
        entry("z", None),
        entry("w", Some(OutValue::Float("0.5".to_string()))),
    ];
    assert_eq!(format_solution(&vars), "w = 0.5;\nx = -1;\ny = 2;\n----------\n");
}

#[test]
fn solution_sort_is_by_character_order() {
    let vars = vec![
        entry("b", Some(OutValue::Int(1))),
        entry("B", Some(OutValue::Int(2))),
        entry("ab", Some(OutValue::Int(3))),
        entry("a", Some(OutValue::Int(4))),
    ];
    assert_eq!(format_solution(&vars), "B = 2;\na = 4;\nab = 3;\nb = 1;\n----------\n");
}

#[test]
fn empty_solution_is_just_the_separator() {
    assert_eq!(format_solution(&Vec::new()), "----------\n");
}

#[test]
fn arrays_one_and_two_dimensional() {
    let f = OutputFormatter::new(SearchType::Satisfy);
    let values = vec![OutValue::Int(1), OutValue::Int(2), OutValue::Int(3)];
    assert_eq!(f.format_array("q", (1, 3), &values), "q = array1d(1..3, [1, 2, 3]);\n");
    let grid = vec![OutValue::Int(1), OutValue::Int(2), OutValue::Int(3), OutValue::Int(4)];
    assert_eq!(f.format_array_2d("m", (1, 2), (-1, 0), &grid), "m = array2d(1..2, -1..0, [1, 2, 3, 4]);\n");
    assert_eq!(f.format_array("e", (1, 0), &Vec::new()), "e = array1d(1..0, []);\n");
}

#[test]
fn status_lines_without_statistics() {
    let f = OutputFormatter::new(SearchType::Minimize);
    assert_eq!(f.format_search_complete(), "==========\n");
    assert_eq!(f.format_unsatisfiable(), "=====UNSATISFIABLE=====\n");
    assert_eq!(f.format_unknown(), "=====UNKNOWN=====\n");
    assert_eq!(f.format_unbounded(), "=====UNBOUNDED=====\n");
    assert_eq!(format_no_solution(), "=====UNSATISFIABLE=====\n");
    assert_eq!(format_unknown(), "=====UNKNOWN=====\n");
}

#[test]
fn statistics_block_with_all_fields() {
    let stats = SolveStatistics {
        solutions: 1,
        nodes: 10,
        failures: 3,
        propagations: Some(42),
        solve_time: Some(format!("{:.3}", std::time::Duration::from_nanos(1_234_567_890).as_secs_f64())),
        peak_memory_mb: Some(5),
        variables: Some(7),
        propagators: Some(2),
    };
    let f = OutputFormatter::new(SearchType::Satisfy).with_statistics(stats);
    assert_eq!(
        f.format_search_complete(),
        "==========\n%%%mzn-stat: solutions=1\n%%%mzn-stat: nodes=10\n%%%mzn-stat: failures=3\n\
%%%mzn-stat: propagations=42\n%%%mzn-stat: variables=7\n%%%mzn-stat: propagators=2\n\
%%%mzn-stat: solveTime=1.235\n%%%mzn-stat: peakMem=5.00\n%%%mzn-stat-end\n"
    );
}

#[test]
fn statistics_block_with_defaults() {
    let f = OutputFormatter::new(SearchType::Maximize).with_statistics(SolveStatistics::default());
    assert_eq!(
        f.format_unsatisfiable(),
        "=====UNSATISFIABLE=====\n%%%mzn-stat: solutions=0\n%%%mzn-stat: nodes=0\n%%%mzn-stat: failures=0\n%%%mzn-stat-end\n"
    );
}

#[test]
fn peak_memory_is_printed_as_an_f64() {
    let cases: Vec<(usize, &str)> = vec![
        (0, "0.00"),
        (2048, "2048.00"),
        (9_007_199_254_740_992, "9007199254740992.00"),
        (9_007_199_254_740_993, "9007199254740992.00"),
        (9_007_199_254_740_995, "9007199254740996.00"),
        (usize::MAX, "18446744073709551616.00"),
    ];
    for (mb, text) in cases {
        assert_eq!(format!("{:.2}", mb as f64), text);
        let mut stats = SolveStatistics::default();
        stats.peak_memory_mb = Some(mb);
        let f = OutputFormatter::new(SearchType::Satisfy).with_statistics(stats);
        assert!(f.format_unknown().contains(&format!("%%%mzn-stat: peakMem={}\n", text)));
    }
}

#[test]
fn solve_time_text_is_printed_as_given() {
    let mut stats = SolveStatistics::default();
    let t = format!("{:.3}", std::time::Duration::from_nanos(4_500_000).as_secs_f64());
    stats.solve_time = Some(t.clone());
    let f = OutputFormatter::new(SearchType::Satisfy).with_statistics(stats);
    assert!(f.format_unbounded().contains(&format!("%%%mzn-stat: solveTime={}\n", t)));
}

#[test]
fn solution_report_lists_variables_then_arrays() {
    let scalars = vec![
        ("x".to_string(), OutValue::Int(3)),
        ("b".to_string(), OutValue::Int(1)),
        ("f".to_string(), OutValue::Float("2.5".to_string())),
    ];
    let arrays = vec![("q".to_string(), vec![OutValue::Int(1), OutValue::Int(2)])];
    assert_eq!(
        solution_report(&scalars, &arrays, Some("0.002")),
        "x = 3;\nb = 1;\nf = 2.5;\nq = [1, 2];\n----------\n%%%mzn-stat: solveTime=0.002\n"
    );
    assert_eq!(solution_report(&Vec::new(), &Vec::new(), None), "----------\n");
}
