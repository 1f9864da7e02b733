//! Zelen: a MiniZinc front end. The lexer, the recursive descent parser and
//! error reporting are verified against the spec functions of `lexer`,
//! `grammar` and `error`; `compiler` turns a model into code for the Selen
//! solver, `tokenizer` reads FlatZinc, `output` formats solver results.

pub mod text;
pub mod ast;
pub mod ast_clone;
pub mod error;
pub mod lexer;
pub mod grammar;
pub mod parser;
pub mod debug_text;
pub mod compiler;
pub mod tokenizer;
pub mod output;
pub mod exporter;

pub use ast::{
    BaseType, BinOp, Constraint, EnumDef, Expr, ExprKind, Generator, Item, Model, Output,
    SearchOption, Solve, Span, TypeInst, UnOp, VarDecl,
};
pub use error::{Error, ErrorKind, Result};
pub use lexer::{Lexer, Token, TokenKind};
pub use parser::Parser;

use vstd::prelude::*;
use crate::grammar::parse_spec;
use crate::parser::lift;

verus! {

/// Settings for the solver: time and memory limits and how many solutions
/// to look for.
#[derive(Debug, Clone)]
pub struct SolverConfig {
    /// Time limit in milliseconds (`None`: the solver's default).
    pub time_limit_ms: Option<u64>,
    /// Memory limit in MB (`None`: the solver's default).
    pub memory_limit_mb: Option<u64>,
    /// Whether to find all solutions (for satisfaction problems).
    pub all_solutions: bool,
    /// Maximum number of solutions to find (`None`: unlimited).
    pub max_solutions: Option<usize>,
}

impl Default for SolverConfig {
    /// No limits, one solution.
    fn default() -> (c: Self)
        ensures
            c.time_limit_ms is None,
            c.memory_limit_mb is None,
            !c.all_solutions,
            c.max_solutions is None,
    {
        SolverConfig { time_limit_ms: None, memory_limit_mb: None, all_solutions: false, max_solutions: None }
    }
}

impl SolverConfig {
    /// Sets the time limit in milliseconds; 0 means none.
    pub fn with_time_limit_ms(self, ms: u64) -> (c: Self)
        ensures
            c.time_limit_ms == (if ms > 0 { Some(ms) } else { None::<u64> }),
            c.memory_limit_mb == self.memory_limit_mb,
            c.all_solutions == self.all_solutions,
            c.max_solutions == self.max_solutions,
    {
        SolverConfig { time_limit_ms: if ms > 0 { Some(ms) } else { None }, ..self }
    }

    /// Sets the memory limit in MB; 0 means none.
    pub fn with_memory_limit_mb(self, mb: u64) -> (c: Self)
        ensures
            c.memory_limit_mb == (if mb > 0 { Some(mb) } else { None::<u64> }),
            c.time_limit_ms == self.time_limit_ms,
            c.all_solutions == self.all_solutions,
            c.max_solutions == self.max_solutions,
    {
        SolverConfig { memory_limit_mb: if mb > 0 { Some(mb) } else { None }, ..self }
    }

    /// Sets whether all solutions are wanted.
    pub fn with_all_solutions(self, all: bool) -> (c: Self)
        ensures
            c.all_solutions == all,
            c.time_limit_ms == self.time_limit_ms,
            c.memory_limit_mb == self.memory_limit_mb,
            c.max_solutions == self.max_solutions,
    {
        SolverConfig { all_solutions: all, ..self }
    }

    /// Sets the maximum number of solutions; 0 means unlimited.
    pub fn with_max_solutions(self, n: usize) -> (c: Self)
        ensures
            c.max_solutions == (if n > 0 { Some(n) } else { None::<usize> }),
            c.time_limit_ms == self.time_limit_ms,
            c.memory_limit_mb == self.memory_limit_mb,
            c.all_solutions == self.all_solutions,
    {
        SolverConfig { max_solutions: if n > 0 { Some(n) } else { None }, ..self }
    }
}

/// Parses MiniZinc source text into a model. The result is `parse_spec`
/// of the text: the items of the model, or the first error, which carries
/// the source text for its location and context line.
pub fn parse(source: &str) -> (r: Result<Model>)
    ensures
        lift(r, |m: Model| m@) === parse_spec(source@),
        r matches Err(e) ==> source@.len() > 0 ==> e@.source == Some(source@),
{
    let lexer = Lexer::new(source);
    let parser = Parser::new(lexer);
    let mut parser = parser.with_source(String::from_str(source));
    parser.parse_model()
}

} // verus!
