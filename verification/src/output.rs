//! FlatZinc output: solutions as `name = value;` lines closed by
//! `----------`, `==========` when the search is complete,
//! `=====UNSATISFIABLE=====`, `=====UNKNOWN=====` or `=====UNBOUNDED=====`,
//! and statistics as `%%%mzn-stat: name=value` comments.

use vstd::prelude::*;
use crate::compiler::{join, join_codes};
use crate::ast::view_strings;
use crate::text::{i64_text, int_decimal, nat_decimal, push_str, u128_decimal, u64_decimal, usize_text};

verus! {

/// The type of search performed.
#[derive(Debug, Clone, Copy, PartialEq, Eq, Structural)]
pub enum SearchType {
    /// Satisfaction problem (find any solution).
    Satisfy,
    /// Optimization problem (minimize).
    Minimize,
    /// Optimization problem (maximize).
    Maximize,
}

/// Statistics about the solving process (the FlatZinc standard statistics
/// solutions, nodes, failures, solveTime, peakMem, and extended ones).
#[derive(Debug, Clone)]
pub struct SolveStatistics {
    /// Number of solutions found.
    pub solutions: usize,
    /// Number of search nodes.
    pub nodes: usize,
    /// Number of failures (backtracks).
    pub failures: usize,
    /// Number of propagation steps performed.
    pub propagations: Option<usize>,
    /// Solving time in seconds with three decimals, as `{:.3}` writes the
    /// seconds of the solving `Duration` taken as an `f64`.
    pub solve_time: Option<String>,
    /// Peak memory usage in megabytes.
    pub peak_memory_mb: Option<usize>,
    /// Number of variables in the problem.
    pub variables: Option<usize>,
    /// Number of constraints (propagators) in the problem.
    pub propagators: Option<usize>,
}

impl Default for SolveStatistics {
    /// All counts zero, no optional statistic.
    fn default() -> (s: Self)
        ensures
            s.solutions == 0 && s.nodes == 0 && s.failures == 0,
            s.propagations is None && s.solve_time is None && s.peak_memory_mb is None,
            s.variables is None && s.propagators is None,
    {
        SolveStatistics {
            solutions: 0,
            nodes: 0,
            failures: 0,
            propagations: None,
            solve_time: None,
            peak_memory_mb: None,
            variables: None,
            propagators: None,
        }
    }
}

/// A value of a solution: an integer, or a float already written as text.
#[derive(Debug, Clone, PartialEq)]
pub enum OutValue {
    Int(i32),
    Float(String),
}

pub open spec fn value_text(v: OutValue) -> Seq<char> {
    match v {
        OutValue::Int(i) => int_decimal(i as int),
        OutValue::Float(t) => t@,
    }
}

/// `s` comes strictly before `t` in the order of `str`: by characters,
/// a proper prefix first.
pub open spec fn text_lt(s: Seq<char>, t: Seq<char>) -> bool
    decreases s.len(),
{
    if t.len() == 0 {
        false
    } else if s.len() == 0 {
        true
    } else if s[0] != t[0] {
        s[0] < t[0]
    } else {
        text_lt(s.drop_first(), t.drop_first())
    }
}

/// Inserts `x` after the entries whose name is not greater than its own.
pub open spec fn insert_by_name(s: Seq<(Seq<char>, Option<OutValue>)>, x: (Seq<char>, Option<OutValue>)) -> Seq<
    (Seq<char>, Option<OutValue>),
>
    decreases s.len(),
{
    if s.len() == 0 {
        seq![x]
    } else if text_lt(x.0, s.last().0) {
        insert_by_name(s.drop_last(), x).push(s.last())
    } else {
        s.push(x)
    }
}

/// The entries sorted by name, equal names in their given order.
pub open spec fn sort_by_name(s: Seq<(Seq<char>, Option<OutValue>)>) -> Seq<(Seq<char>, Option<OutValue>)>
    decreases s.len(),
{
    if s.len() == 0 {
        s
    } else {
        insert_by_name(sort_by_name(s.drop_last()), s.last())
    }
}

/// `name = value;` lines of the entries that have a value.
pub open spec fn assignments_text(s: Seq<(Seq<char>, Option<OutValue>)>) -> Seq<char>
    decreases s.len(),
{
    if s.len() == 0 {
        Seq::empty()
    } else {
        assignments_text(s.drop_last()) + match s.last().1 {
            Some(v) => s.last().0 + " = "@ + value_text(v) + ";\n"@,
            None => Seq::empty(),
        }
    }
}

/// A solution: the assignments sorted by name, then `----------`.
pub open spec fn solution_text(s: Seq<(Seq<char>, Option<OutValue>)>) -> Seq<char> {
    assignments_text(sort_by_name(s)) + "----------\n"@
}

/// The values of an array, written and separated by `, `.
pub open spec fn values_text(values: Seq<OutValue>) -> Seq<char> {
    join(Seq::new(values.len(), |i: int| value_text(values[i])), ", "@)
}

/// The integer nearest to `n` among the multiples of `p` whose quotient
/// is below 2^53, found by doubling `p` from where it starts; ties go to
/// the even quotient.
pub open spec fn f64_round_at(n: nat, p: nat) -> nat
    decreases n + 1 - p,
{
    if p == 0 || n / p < 0x20_0000_0000_0000 {
        if p == 0 {
            n
        } else {
            let q = n / p;
            let r = n % p;
            if 2 * r > p || (2 * r == p && q % 2 == 1) {
                (q + 1) * p
            } else {
                q * p
            }
        }
    } else {
        proof {
            vstd::arithmetic::div_mod::lemma_fundamental_div_mod(n as int, p as int);
            assert(p * (n / p) >= p * 2) by (nonlinear_arith)
                requires
                    p > 0,
                    n / p >= 0x20_0000_0000_0000,
            ;
        }
        f64_round_at(n, 2 * p)
    }
}

/// The value of `n as f64`: `n` rounded to the nearest integer that an
/// `f64` holds (53 significant bits), ties to an even significand.
pub open spec fn f64_of_nat(n: nat) -> nat {
    f64_round_at(n, 1)
}

pub open spec fn stat_line(name: Seq<char>, value: Seq<char>) -> Seq<char> {
    "%%%mzn-stat: "@ + name + "="@ + value + "\n"@
}

pub open spec fn opt_stat(name: Seq<char>, v: Option<usize>) -> Seq<char> {
    match v {
        Some(n) => stat_line(name, nat_decimal(n as nat)),
        None => Seq::empty(),
    }
}

/// The statistics block: solutions, nodes, failures, then propagations,
/// variables, propagators, solveTime and peakMem when known, then
/// `%%%mzn-stat-end`.
pub open spec fn statistics_text(st: SolveStatistics) -> Seq<char> {
    stat_line("solutions"@, nat_decimal(st.solutions as nat)) + stat_line("nodes"@, nat_decimal(st.nodes as nat))
        + stat_line("failures"@, nat_decimal(st.failures as nat)) + opt_stat("propagations"@, st.propagations)
        + opt_stat("variables"@, st.variables) + opt_stat("propagators"@, st.propagators) + (match st.solve_time {
        Some(t) => stat_line("solveTime"@, t@),
        None => Seq::empty(),
    }) + (match st.peak_memory_mb {
        Some(m) => stat_line("peakMem"@, nat_decimal(f64_of_nat(m as nat)) + ".00"@),
        None => Seq::empty(),
    }) + "%%%mzn-stat-end\n"@
}

/// FlatZinc output formatter.
pub struct OutputFormatter {
    search_type: SearchType,
    include_stats: bool,
    stats: SolveStatistics,
}

impl OutputFormatter {
    /// Whether statistics follow the status lines.
    pub closed spec fn includes_stats(&self) -> bool {
        self.include_stats
    }

    /// The statistics printed.
    pub closed spec fn statistics(&self) -> SolveStatistics {
        self.stats
    }

    pub closed spec fn search(&self) -> SearchType {
        self.search_type
    }

    /// What follows a status line: the statistics block when enabled.
    pub open spec fn tail(&self) -> Seq<char> {
        if self.includes_stats() {
            statistics_text(self.statistics())
        } else {
            Seq::empty()
        }
    }

    /// A formatter without statistics.
    pub fn new(search_type: SearchType) -> (f: Self)
        ensures
            !f.includes_stats(),
            f.search() == search_type,
    {
        OutputFormatter { search_type, include_stats: false, stats: SolveStatistics::default() }
    }

    /// The formatter with statistics enabled.
    pub fn with_statistics(self, stats: SolveStatistics) -> (f: Self)
        ensures
            f.includes_stats(),
            f.statistics() == stats,
            f.search() == self.search(),
    {
        OutputFormatter { include_stats: true, stats, ..self }
    }

    /// One solution: for each variable with a value, `name = value;`, in
    /// order of name, then `----------`.
    pub fn format_solution(&self, vars: &Vec<(String, Option<OutValue>)>) -> (s: String)
        ensures
            s@ == solution_text(view_entries(vars@)),
    {
        let sorted = sort_entries(vars);
        let mut output = String::new();
        let ghost es = view_entries(sorted@);
        let mut i: usize = 0;
        assert(es.subrange(0, 0) =~= Seq::<(Seq<char>, Option<OutValue>)>::empty());
        while i < sorted.len()
            invariant
                i <= sorted.len(),
                es == view_entries(sorted@),
                es == sort_by_name(view_entries(vars@)),
                output@ == assignments_text(es.subrange(0, i as int)),
            decreases sorted.len() - i,
        {
            let ghost before = output@;
            match &sorted[i].1 {
                Some(v) => {
                    output.append(sorted[i].0.as_str());
                    output.append(" = ");
                    let t = value_string(v);
                    output.append(t.as_str());
                    output.append(";\n");
                },
                None => {},
            }
            proof {
                let t = es.subrange(0, i + 1);
                assert(t.drop_last() =~= es.subrange(0, i as int));
                assert(output@ =~= assignments_text(t));
            }
            i = i + 1;
        }
        assert(es.subrange(0, sorted.len() as int) =~= es);
        output.append("----------\n");
        output
    }

    /// `name = array1d(lo..hi, [values]);`
    pub fn format_array(&self, name: &str, index_range: (i32, i32), values: &Vec<OutValue>) -> (s: String)
        ensures
            s@ == name@ + " = array1d("@ + int_decimal(index_range.0 as int) + ".."@ + int_decimal(
                index_range.1 as int,
            ) + ", ["@ + values_text(values@) + "]);\n"@,
    {
        let mut output = String::from_str(name);
        output.append(" = array1d(");
        output.append(i64_text(index_range.0 as i64).as_str());
        output.append("..");
        output.append(i64_text(index_range.1 as i64).as_str());
        output.append(", [");
        output.append(values_string(values).as_str());
        output.append("]);\n");
        output
    }

    /// `name = array2d(lo1..hi1, lo2..hi2, [values]);`
    pub fn format_array_2d(
        &self,
        name: &str,
        index1_range: (i32, i32),
        index2_range: (i32, i32),
        values: &Vec<OutValue>,
    ) -> (s: String)
        ensures
            s@ == name@ + " = array2d("@ + int_decimal(index1_range.0 as int) + ".."@ + int_decimal(
                index1_range.1 as int,
            ) + ", "@ + int_decimal(index2_range.0 as int) + ".."@ + int_decimal(index2_range.1 as int) + ", ["@
                + values_text(values@) + "]);\n"@,
    {
        let mut output = String::from_str(name);
        output.append(" = array2d(");
        output.append(i64_text(index1_range.0 as i64).as_str());
        output.append("..");
        output.append(i64_text(index1_range.1 as i64).as_str());
        output.append(", ");
        output.append(i64_text(index2_range.0 as i64).as_str());
        output.append("..");
        output.append(i64_text(index2_range.1 as i64).as_str());
        output.append(", [");
        output.append(values_string(values).as_str());
        output.append("]);\n");
        output
    }

    /// `==========`, then the statistics when enabled.
    pub fn format_search_complete(&self) -> (s: String)
        ensures
            s@ == "==========\n"@ + self.tail(),
    {
        self.status("==========\n")
    }

    /// The statistics block.
    fn format_statistics(&self) -> (s: String)
        ensures
            s@ == statistics_text(self.stats),
    {
        let mut output = String::new();
        output.append(stat(usize_text(self.stats.solutions).as_str(), "solutions").as_str());
        output.append(stat(usize_text(self.stats.nodes).as_str(), "nodes").as_str());
        output.append(stat(usize_text(self.stats.failures).as_str(), "failures").as_str());
        output.append(opt_stat_string("propagations", self.stats.propagations).as_str());
        output.append(opt_stat_string("variables", self.stats.variables).as_str());
        output.append(opt_stat_string("propagators", self.stats.propagators).as_str());
        match &self.stats.solve_time {
            Some(t) => output.append(stat(t.as_str(), "solveTime").as_str()),
            None => {},
        }
        match self.stats.peak_memory_mb {
            Some(m) => {
                let mut v = crate::text::string_from_chars(&u128_decimal(f64_rounded(m)));
                v.append(".00");
                output.append(stat(v.as_str(), "peakMem").as_str());
            },
            None => {},
        }
        output.append("%%%mzn-stat-end\n");
        output
    }

    fn status(&self, line: &str) -> (s: String)
        ensures
            s@ == line@ + self.tail(),
    {
        let mut output = String::from_str(line);
        if self.include_stats {
            output.append(self.format_statistics().as_str());
        }
        output
    }

    /// `=====UNSATISFIABLE=====`, then the statistics when enabled.
    pub fn format_unsatisfiable(&self) -> (s: String)
        ensures
            s@ == "=====UNSATISFIABLE=====\n"@ + self.tail(),
    {
        self.status("=====UNSATISFIABLE=====\n")
    }

    /// `=====UNKNOWN=====`, then the statistics when enabled.
    pub fn format_unknown(&self) -> (s: String)
        ensures
            s@ == "=====UNKNOWN=====\n"@ + self.tail(),
    {
        self.status("=====UNKNOWN=====\n")
    }

    /// `=====UNBOUNDED=====`, then the statistics when enabled.
    pub fn format_unbounded(&self) -> (s: String)
        ensures
            s@ == "=====UNBOUNDED=====\n"@ + self.tail(),
    {
        self.status("=====UNBOUNDED=====\n")
    }
}

/// A solution formatted by a formatter without statistics.
pub fn format_solution(vars: &Vec<(String, Option<OutValue>)>) -> (s: String)
    ensures
        s@ == solution_text(view_entries(vars@)),
{
    let formatter = OutputFormatter::new(SearchType::Satisfy);
    formatter.format_solution(vars)
}

/// `=====UNSATISFIABLE=====`.
pub fn format_no_solution() -> (s: String)
    ensures
        s@ == "=====UNSATISFIABLE=====\n"@,
{
    let formatter = OutputFormatter::new(SearchType::Satisfy);
    formatter.format_unsatisfiable()
}

/// `=====UNKNOWN=====`.
pub fn format_unknown() -> (s: String)
    ensures
        s@ == "=====UNKNOWN=====\n"@,
{
    let formatter = OutputFormatter::new(SearchType::Satisfy);
    formatter.format_unknown()
}

/// `name = value;` for each variable, in the given order.
pub open spec fn scalar_lines(s: Seq<(Seq<char>, OutValue)>) -> Seq<char>
    decreases s.len(),
{
    if s.len() == 0 {
        Seq::empty()
    } else {
        scalar_lines(s.drop_last()) + s.last().0 + " = "@ + value_text(s.last().1) + ";\n"@
    }
}

/// `name = [v1, v2, ...];` for each array, in the given order.
pub open spec fn array_lines(s: Seq<(Seq<char>, Seq<OutValue>)>) -> Seq<char>
    decreases s.len(),
{
    if s.len() == 0 {
        Seq::empty()
    } else {
        array_lines(s.drop_last()) + s.last().0 + " = ["@ + values_text(s.last().1) + "];\n"@
    }
}

/// A solution as the command line reports it: the variables, the arrays,
/// `----------`, then the solving time when one is given.
pub open spec fn solution_report_text(
    scalars: Seq<(Seq<char>, OutValue)>,
    arrays: Seq<(Seq<char>, Seq<OutValue>)>,
    solve_time: Option<Seq<char>>,
) -> Seq<char> {
    scalar_lines(scalars) + array_lines(arrays) + "----------\n"@ + match solve_time {
        Some(t) => stat_line("solveTime"@, t),
        None => Seq::empty(),
    }
}

pub open spec fn view_scalars(v: Seq<(String, OutValue)>) -> Seq<(Seq<char>, OutValue)> {
    Seq::new(v.len(), |i: int| (v[i].0@, v[i].1))
}

pub open spec fn view_arrays(v: Seq<(String, Vec<OutValue>)>) -> Seq<(Seq<char>, Seq<OutValue>)> {
    Seq::new(v.len(), |i: int| (v[i].0@, v[i].1@))
}

/// The report of a solution: `scalars` are the integer, boolean and float
/// variables with their values, `arrays` the variable arrays, and
/// `solve_time` the solving time in seconds, written with three decimals,
/// when statistics are wanted.
pub fn solution_report(
    scalars: &Vec<(String, OutValue)>,
    arrays: &Vec<(String, Vec<OutValue>)>,
    solve_time: Option<&str>,
) -> (s: String)
    ensures
        s@ == solution_report_text(
            view_scalars(scalars@),
            view_arrays(arrays@),
            match solve_time {
                Some(t) => Some(t@),
                None => None,
            },
        ),
{
    let ghost vs = view_scalars(scalars@);
    let ghost va = view_arrays(arrays@);
    let mut out = String::new();
    let mut i: usize = 0;
    while i < scalars.len()
        invariant
            i <= scalars.len(),
            vs == view_scalars(scalars@),
            out@ == scalar_lines(vs.subrange(0, i as int)),
        decreases scalars.len() - i,
    {
        out.append(scalars[i].0.as_str());
        out.append(" = ");
        out.append(value_string(&scalars[i].1).as_str());
        out.append(";\n");
        proof {
            let t = vs.subrange(0, i + 1);
            assert(t.drop_last() =~= vs.subrange(0, i as int));
        }
        i = i + 1;
    }
    assert(vs.subrange(0, scalars.len() as int) =~= vs);
    let ghost head = out@;
    let mut j: usize = 0;
    while j < arrays.len()
        invariant
            j <= arrays.len(),
            va == view_arrays(arrays@),
            out@ == head + array_lines(va.subrange(0, j as int)),
        decreases arrays.len() - j,
    {
        out.append(arrays[j].0.as_str());
        out.append(" = [");
        out.append(values_string(&arrays[j].1).as_str());
        out.append("];\n");
        proof {
            let t = va.subrange(0, j + 1);
            assert(t.drop_last() =~= va.subrange(0, j as int));
        }
        j = j + 1;
    }
    assert(va.subrange(0, arrays.len() as int) =~= va);
    out.append("----------\n");
    match solve_time {
        Some(t) => out.append(stat(t, "solveTime").as_str()),
        None => {},
    }
    out
}

// ---------------------------------------------------------------------------
// Helpers.

pub open spec fn view_entries(v: Seq<(String, Option<OutValue>)>) -> Seq<(Seq<char>, Option<OutValue>)> {
    Seq::new(v.len(), |i: int| (v[i].0@, v[i].1))
}

fn value_string(v: &OutValue) -> (s: String)
    ensures
        s@ == value_text(*v),
{
    match v {
        OutValue::Int(i) => i64_text(*i as i64),
        OutValue::Float(t) => t.clone(),
    }
}

fn values_string(values: &Vec<OutValue>) -> (s: String)
    ensures
        s@ == values_text(values@),
{
    let mut parts: Vec<String> = Vec::new();
    let mut i: usize = 0;
    while i < values.len()
        invariant
            i <= values.len(),
            view_strings(parts@) == Seq::new(i as nat, |k: int| value_text(values@[k])),
        decreases values.len() - i,
    {
        let t = value_string(&values[i]);
        proof {
            crate::ast::lemma_view_strings_push(parts@, t);
        }
        parts.push(t);
        assert(view_strings(parts@) =~= Seq::new((i + 1) as nat, |k: int| value_text(values@[k])));
        i = i + 1;
    }
    join_codes(&parts, ", ")
}

fn stat(value: &str, name: &str) -> (s: String)
    ensures
        s@ == stat_line(name@, value@),
{
    let mut s = String::from_str("%%%mzn-stat: ");
    s.append(name);
    s.append("=");
    s.append(value);
    s.append("\n");
    s
}

fn opt_stat_string(name: &str, v: Option<usize>) -> (s: String)
    ensures
        s@ == opt_stat(name@, v),
{
    match v {
        Some(n) => stat(usize_text(n).as_str(), name),
        None => String::new(),
    }
}

/// `n as f64`, as an integer.
fn f64_rounded(n: usize) -> (r: u128)
    ensures
        r as nat == f64_of_nat(n as nat),
{
    let nn: u128 = n as u128;
    let mut p: u128 = 1;
    while nn / p >= 0x20_0000_0000_0000
        invariant
            1 <= p <= nn + 1,
            nn == n,
            nn <= usize::MAX,
            f64_round_at(nn as nat, p as nat) == f64_of_nat(nn as nat),
        decreases nn + 1 - p,
    {
        proof {
            vstd::arithmetic::div_mod::lemma_fundamental_div_mod(nn as int, p as int);
            assert(p * (nn / p) >= p * 2) by (nonlinear_arith)
                requires
                    p > 0,
                    nn / p >= 0x20_0000_0000_0000,
            ;
        }
        p = p * 2;
    }
    let q = nn / p;
    let r = nn % p;
    proof {
        vstd::arithmetic::div_mod::lemma_fundamental_div_mod(nn as int, p as int);
        assert((q + 1) * p == q * p + p) by (nonlinear_arith);
    }
    if 2 * r > p || (2 * r == p && q % 2 == 1) {
        (q + 1) * p
    } else {
        q * p
    }
}

fn copy_opt_value(v: &Option<OutValue>) -> (r: Option<OutValue>)
    ensures
        r == *v,
{
    match v {
        Some(OutValue::Int(i)) => Some(OutValue::Int(*i)),
        Some(OutValue::Float(t)) => Some(OutValue::Float(t.clone())),
        None => None,
    }
}

/// Entries sorted by name, stably.
fn sort_entries(vars: &Vec<(String, Option<OutValue>)>) -> (r: Vec<(String, Option<OutValue>)>)
    ensures
        view_entries(r@) == sort_by_name(view_entries(vars@)),
{
    let ghost vs = view_entries(vars@);
    let mut out: Vec<(String, Option<OutValue>)> = Vec::new();
    let mut i: usize = 0;
    assert(vs.subrange(0, 0) =~= Seq::<(Seq<char>, Option<OutValue>)>::empty());
    assert(view_entries(out@) =~= Seq::<(Seq<char>, Option<OutValue>)>::empty());
    while i < vars.len()
        invariant
            i <= vars.len(),
            vs == view_entries(vars@),
            view_entries(out@) == sort_by_name(vs.subrange(0, i as int)),
        decreases vars.len() - i,
    {
        let x = (vars[i].0.clone(), copy_opt_value(&vars[i].1));
        insert_entry(&mut out, x);
        proof {
            let t = vs.subrange(0, i + 1);
            assert(t.drop_last() =~= vs.subrange(0, i as int));
        }
        i = i + 1;
    }
    assert(vs.subrange(0, vars.len() as int) =~= vs);
    out
}

/// Whether `a` comes strictly before `b`.
fn text_less(a: &str, b: &str) -> (r: bool)
    ensures
        r == text_lt(a@, b@),
{
    let n = a.unicode_len();
    let m = b.unicode_len();
    let mut i: usize = 0;
    assert(a@.subrange(0, n as int) =~= a@);
    assert(b@.subrange(0, m as int) =~= b@);
    while i < n && i < m && a.get_char(i) == b.get_char(i)
        invariant
            n == a@.len(),
            m == b@.len(),
            i <= n,
            i <= m,
            text_lt(a@.subrange(i as int, n as int), b@.subrange(i as int, m as int)) == text_lt(a@, b@),
        decreases n - i,
    {
        proof {
            assert(a@.subrange(i as int, n as int).drop_first() =~= a@.subrange(i + 1, n as int));
            assert(b@.subrange(i as int, m as int).drop_first() =~= b@.subrange(i + 1, m as int));
        }
        i = i + 1;
    }
    if i == m {
        false
    } else if i == n {
        true
    } else {
        a.get_char(i) < b.get_char(i)
    }
}

/// Inserts `x` after the entries whose name is not greater than its own.
fn insert_entry(v: &mut Vec<(String, Option<OutValue>)>, x: (String, Option<OutValue>))
    ensures
        view_entries(final(v)@) == insert_by_name(view_entries(old(v)@), (x.0@, x.1)),
{
    let ghost s = view_entries(v@);
    let ghost xv = (x.0@, x.1);
    let mut k: usize = v.len();
    assert(s.subrange(0, s.len() as int) =~= s);
    assert(s.subrange(s.len() as int, s.len() as int) =~= Seq::<(Seq<char>, Option<OutValue>)>::empty());
    while k > 0 && text_less(x.0.as_str(), v[k - 1].0.as_str())
        invariant
            k <= v.len(),
            v@ == old(v)@,
            s == view_entries(v@),
            xv == (x.0@, x.1),
            insert_by_name(s, xv) == insert_by_name(s.subrange(0, k as int), xv) + s.subrange(k as int, s.len() as int),
        decreases k,
    {
        proof {
            let t = s.subrange(0, k as int);
            assert(t.drop_last() =~= s.subrange(0, k - 1));
            assert(t.last() == s[k - 1]);
            assert(s[k - 1].0 == v@[k - 1].0@);
            assert(text_lt(xv.0, t.last().0));
            assert(insert_by_name(t, xv) == insert_by_name(s.subrange(0, k - 1), xv).push(t.last()));
            assert(insert_by_name(s.subrange(0, k - 1), xv).push(t.last()) + s.subrange(k as int, s.len() as int)
                =~= insert_by_name(s.subrange(0, k - 1), xv) + s.subrange(k - 1, s.len() as int));
        }
        k = k - 1;
    }
    proof {
        let t = s.subrange(0, k as int);
        if k > 0 {
            assert(insert_by_name(t, xv) == t.push(xv));
        } else {
            assert(t =~= Seq::<(Seq<char>, Option<OutValue>)>::empty());
        }
    }
    v.insert(k, x);
    assert(view_entries(v@) =~= s.subrange(0, k as int).push(xv) + s.subrange(k as int, s.len() as int));
}

// ---------------------------------------------------------------------------
// The order of names, and the order of a formatted solution.

proof fn lemma_text_lt_total(a: Seq<char>, b: Seq<char>)
    ensures
        text_lt(a, b) || text_lt(b, a) || a == b,
    decreases a.len(),
{
    if a.len() > 0 && b.len() > 0 && a[0] == b[0] {
        lemma_text_lt_total(a.drop_first(), b.drop_first());
        if a.drop_first() == b.drop_first() {
            assert(a =~= seq![a[0]] + a.drop_first());
            assert(b =~= seq![b[0]] + b.drop_first());
        }
    } else if a.len() == 0 && b.len() == 0 {
        assert(a =~= b);
    }
}

proof fn lemma_text_lt_asym(a: Seq<char>, b: Seq<char>)
    ensures
        !(text_lt(a, b) && text_lt(b, a)),
    decreases a.len(),
{
    if a.len() > 0 && b.len() > 0 && a[0] == b[0] {
        lemma_text_lt_asym(a.drop_first(), b.drop_first());
    }
}

proof fn lemma_text_lt_trans(a: Seq<char>, b: Seq<char>, c: Seq<char>)
    requires
        text_lt(a, b),
        text_lt(b, c),
    ensures
        text_lt(a, c),
    decreases a.len(),
{
    if a.len() > 0 && a[0] == b[0] && b[0] == c[0] {
        lemma_text_lt_trans(a.drop_first(), b.drop_first(), c.drop_first());
    }
}

/// `a < b` and `b <= c` give `a < c`.
proof fn lemma_text_lt_le(a: Seq<char>, b: Seq<char>, c: Seq<char>)
    requires
        text_lt(a, b),
        !text_lt(c, b),
    ensures
        text_lt(a, c),
{
    lemma_text_lt_total(b, c);
    if text_lt(b, c) {
        lemma_text_lt_trans(a, b, c);
    }
}

/// Names never decrease along the sequence.
pub open spec fn sorted_by_name(s: Seq<(Seq<char>, Option<OutValue>)>) -> bool {
    forall|i: int, j: int| 0 <= i < j < s.len() ==> !text_lt(#[trigger] s[j].0, #[trigger] s[i].0)
}

proof fn lemma_insert_multiset(s: Seq<(Seq<char>, Option<OutValue>)>, x: (Seq<char>, Option<OutValue>))
    ensures
        insert_by_name(s, x).to_multiset() == s.to_multiset().insert(x),
    decreases s.len(),
{
    broadcast use vstd::seq_lib::group_seq_properties;
    if s.len() == 0 {
        assert(seq![x] =~= Seq::<(Seq<char>, Option<OutValue>)>::empty().push(x));
    } else if text_lt(x.0, s.last().0) {
        lemma_insert_multiset(s.drop_last(), x);
        assert(s =~= s.drop_last().push(s.last()));
        assert(insert_by_name(s, x).to_multiset() =~= s.to_multiset().insert(x));
    }
}

proof fn lemma_insert_sorted(s: Seq<(Seq<char>, Option<OutValue>)>, x: (Seq<char>, Option<OutValue>))
    requires
        sorted_by_name(s),
    ensures
        sorted_by_name(insert_by_name(s, x)),
    decreases s.len(),
{
    broadcast use vstd::seq_lib::group_seq_properties;
    if s.len() == 0 {
    } else if text_lt(x.0, s.last().0) {
        let d = s.drop_last();
        let l = s.last();
        assert(sorted_by_name(d));
        lemma_insert_sorted(d, x);
        lemma_insert_multiset(d, x);
        let r = insert_by_name(d, x);
        assert forall|i: int| 0 <= i < r.len() implies !text_lt(l.0, #[trigger] r[i].0) by {
            assert(r.to_multiset().count(r[i]) > 0);
            if r[i] == x {
                lemma_text_lt_asym(x.0, l.0);
            } else {
                assert(d.to_multiset().count(r[i]) > 0);
                assert(d.contains(r[i]));
                let k = choose|k: int| 0 <= k < d.len() && d[k] == r[i];
                assert(s[k] == d[k]);
                assert(s[s.len() - 1] == l);
            }
        }
        assert forall|i: int, j: int| 0 <= i < j < r.push(l).len() implies !text_lt(
            #[trigger] r.push(l)[j].0,
            #[trigger] r.push(l)[i].0,
        ) by {
            if j == r.len() {
                assert(r.push(l)[i] == r[i]);
            } else {
                assert(r.push(l)[i] == r[i]);
                assert(r.push(l)[j] == r[j]);
            }
        }
    } else {
        let l = s.last();
        assert forall|i: int, j: int| 0 <= i < j < s.push(x).len() implies !text_lt(
            #[trigger] s.push(x)[j].0,
            #[trigger] s.push(x)[i].0,
        ) by {
            if j == s.len() {
                assert(s.push(x)[i] == s[i]);
                if i < s.len() - 1 {
                    assert(!text_lt(s[s.len() - 1].0, s[i].0));
                }
                if text_lt(x.0, s[i].0) {
                    lemma_text_lt_le(x.0, s[i].0, l.0);
                }
            } else {
                assert(s.push(x)[i] == s[i]);
                assert(s.push(x)[j] == s[j]);
            }
        }
    }
}

/// The entries of a solution are listed in order of name, and each
/// entry is listed as often as it was given.
pub proof fn lemma_sort_by_name(s: Seq<(Seq<char>, Option<OutValue>)>)
    ensures
        sorted_by_name(sort_by_name(s)),
        sort_by_name(s).to_multiset() == s.to_multiset(),
    decreases s.len(),
{
    broadcast use vstd::seq_lib::group_seq_properties;
    if s.len() > 0 {
        lemma_sort_by_name(s.drop_last());
        lemma_insert_sorted(sort_by_name(s.drop_last()), s.last());
        lemma_insert_multiset(sort_by_name(s.drop_last()), s.last());
        assert(s =~= s.drop_last().push(s.last()));
    }
}

} // verus!
