//! Code generation: a MiniZinc model as the text of a Rust program that
//! builds the model with the Selen solver's API.
//!
//! The spec functions below say what text every construct becomes and which
//! error stops the translation; `Compiler` is proved to produce exactly that.

use vstd::prelude::*;
use crate::ast::{
    binop_debug, lemma_view_strings_push, lemma_views_empty, view_exprs, view_strings, BaseType, BaseTypeV, BinOp, Expr,
    ExprKind, ExprKindV, ExprV, Item, ItemV, Model, Solve, SolveV, Span, TypeInst, TypeInstV, UnOp,
    VarDecl, VarDeclV, view_kind, view_opt_expr, view_var_decl, view_type_inst, view_solve, view_item,
    Constraint,
};
use crate::debug_text::{kind_debug, write_kind_debug};
use crate::error::{Error, ErrorKindV, ErrorV, Result};
use crate::lexer::{float_display, float_display_text};
use crate::parser::lift;
use crate::text::{i64_text, int_decimal, nat_decimal, push_str, str_eq, string_from_chars, usize_text};

verus! {

// ---------------------------------------------------------------------------
// Specification.

/// Type of a compiled variable.
#[derive(Debug, Clone, Copy, PartialEq, Eq, Structural)]
pub enum VarType {
    Bool,
    Int,
    Float,
    IntArray,
    BoolArray,
}

/// What the generator records of a declared name.
pub struct VarInfoV {
    pub rust_name: Seq<char>,
    pub is_var: bool,
    pub var_type: VarType,
}

/// Declared names in order; a later declaration hides an earlier one.
pub type Env = Seq<(Seq<char>, VarInfoV)>;

/// The latest declaration of `name`.
pub open spec fn env_lookup(env: Env, name: Seq<char>) -> Option<VarInfoV>
    decreases env.len(),
{
    if env.len() == 0 {
        None
    } else if env.last().0 == name {
        Some(env.last().1)
    } else {
        env_lookup(env.drop_last(), name)
    }
}

/// A declaration hides earlier ones of its name and leaves other names
/// as they were: looking a name up after declaring it gives the new
/// declaration.
pub proof fn lemma_env_lookup_declare(env: Env, name: Seq<char>, info: VarInfoV, other: Seq<char>)
    ensures
        env_lookup(env.push((name, info)), name) == Some(info),
        other != name ==> env_lookup(env.push((name, info)), other) == env_lookup(env, other),
{
    assert(env.push((name, info)).drop_last() =~= env);
}

pub open spec fn unsupported(feature: Seq<char>, phase: Seq<char>, span: Span) -> ErrorV {
    ErrorV { kind: ErrorKindV::UnsupportedFeature { feature, phase, workaround: None }, span, source: None }
}

pub open spec fn type_error_v(expected: Seq<char>, found: Seq<char>, span: Span) -> ErrorV {
    ErrorV { kind: ErrorKindV::TypeError { expected, found }, span, source: None }
}

pub open spec fn message_error(msg: Seq<char>, span: Span) -> ErrorV {
    ErrorV { kind: ErrorKindV::Message(msg), span, source: None }
}

pub open spec fn no_span() -> Span {
    Span { start: 0, end: 0 }
}

/// The parts separated by `sep`.
pub open spec fn join(parts: Seq<Seq<char>>, sep: Seq<char>) -> Seq<char>
    decreases parts.len(),
{
    if parts.len() == 0 {
        Seq::empty()
    } else if parts.len() == 1 {
        parts[0]
    } else {
        join(parts.drop_last(), sep) + sep + parts.last()
    }
}

/// Rust operator for a MiniZinc binary operator, where there is one.
pub open spec fn binop_code(op: BinOp) -> Option<Seq<char>> {
    match op {
        BinOp::Add => Some("+"@),
        BinOp::Sub => Some("-"@),
        BinOp::Mul => Some("*"@),
        BinOp::Div | BinOp::FDiv => Some("/"@),
        BinOp::Mod => Some("%"@),
        BinOp::Lt => Some("<"@),
        BinOp::Le => Some("<="@),
        BinOp::Gt => Some(">"@),
        BinOp::Ge => Some(">="@),
        BinOp::Eq => Some("=="@),
        BinOp::Ne => Some("!="@),
        BinOp::And => Some("&&"@),
        BinOp::Or => Some("||"@),
        _ => None,
    }
}

pub open spec fn unop_code(op: UnOp) -> Seq<char> {
    match op {
        UnOp::Neg => "-"@,
        UnOp::Not => "!"@,
    }
}

/// Model method posting a comparison constraint.
pub open spec fn constraint_method(op: BinOp) -> Option<Seq<char>> {
    match op {
        BinOp::Lt => Some("less_than"@),
        BinOp::Le => Some("less_or_equal"@),
        BinOp::Gt => Some("greater_than"@),
        BinOp::Ge => Some("greater_or_equal"@),
        BinOp::Eq => Some("equals"@),
        BinOp::Ne => Some("not_equals"@),
        _ => None,
    }
}

/// Rust code of an expression, or the first construct that has none.
pub open spec fn expr_code(env: Env, e: ExprV) -> core::result::Result<Seq<char>, ErrorV>
    decreases e, 1nat,
{
    match e.kind {
        ExprKindV::Ident(name) => match env_lookup(env, name) {
            Some(info) => Ok(info.rust_name),
            None => Err(message_error("Undefined variable: "@ + name, e.span)),
        },
        ExprKindV::IntLit(i) => Ok(int_decimal(i as int)),
        ExprKindV::BoolLit(b) => Ok(if b { "true"@ } else { "false"@ }),
        ExprKindV::FloatLit(t) => Ok(float_display_text(t)),
        ExprKindV::StringLit(s) => Ok("\""@ + s + "\""@),
        ExprKindV::ArrayLit(es) => match codes_of(env, es) {
            Err(x) => Err(x),
            Ok(cs) => Ok("vec!["@ + join(cs, ", "@) + "]"@),
        },
        ExprKindV::BinOp { op, left, right } => match expr_code(env, *left) {
            Err(x) => Err(x),
            Ok(l) => match expr_code(env, *right) {
                Err(x) => Err(x),
                Ok(r) => match binop_code(op) {
                    Some(o) => Ok("("@ + l + " "@ + o + " "@ + r + ")"@),
                    None => Err(unsupported("Binary operator "@ + binop_debug(op), "Phase 1"@, e.span)),
                },
            },
        },
        ExprKindV::UnOp { op, expr } => match expr_code(env, *expr) {
            Err(x) => Err(x),
            Ok(c) => Ok("("@ + unop_code(op) + c + ")"@),
        },
        ExprKindV::ArrayAccess { array, indices } => match expr_code(env, *array) {
            Err(x) => Err(x),
            Ok(a) => if indices.len() != 1 {
                Err(unsupported("Multi-dimensional array access in code generation"@, "Phase 2"@, no_span()))
            } else {
                match expr_code(env, indices[0]) {
                    Err(x) => Err(x),
                    Ok(i) => Ok(a + "["@ + i + " as usize - 1]"@),
                }
            },
        },
        ExprKindV::Call { name, args } => match codes_of(env, args) {
            Err(x) => Err(x),
            Ok(cs) => Ok(name + "("@ + join(cs, ", "@) + ")"@),
        },
        ExprKindV::Range(a, b) => match expr_code(env, *a) {
            Err(x) => Err(x),
            Ok(ca) => match expr_code(env, *b) {
                Err(x) => Err(x),
                Ok(cb) => Ok(ca + "..="@ + cb),
            },
        },
        _ => Err(unsupported("Expression type: "@ + kind_debug(e.kind), "Phase 1"@, e.span)),
    }
}

/// Codes of expressions in order, or the first error.
pub open spec fn codes_of(env: Env, es: Seq<ExprV>) -> core::result::Result<Seq<Seq<char>>, ErrorV>
    decreases es, 0nat,
{
    if es.len() == 0 {
        Ok(Seq::empty())
    } else {
        proof {
            assert(decreases_to!(es => es.subrange(0, es.len() - 1)));
        }
        match codes_of(env, es.subrange(0, es.len() - 1)) {
            Err(x) => Err(x),
            Ok(cs) => match expr_code(env, es[es.len() - 1]) {
                Err(x) => Err(x),
                Ok(c) => Ok(cs.push(c)),
            },
        }
    }
}

/// Domain of a decision variable: `lo..=hi` or `&[values]`.
pub open spec fn domain_code(env: Env, d: ExprV) -> core::result::Result<Seq<char>, ErrorV> {
    match d.kind {
        ExprKindV::BinOp { op: BinOp::Range, left, right } => match expr_code(env, *left) {
            Err(x) => Err(x),
            Ok(l) => match expr_code(env, *right) {
                Err(x) => Err(x),
                Ok(r) => Ok(l + "..="@ + r),
            },
        },
        ExprKindV::SetLit(es) => match codes_of(env, es) {
            Err(x) => Err(x),
            Ok(cs) => Ok("&["@ + join(cs, ", "@) + "]"@),
        },
        _ => Err(type_error_v("range or set literal"@, "other expression"@, d.span)),
    }
}

/// Number of elements of an index set `lo..hi`.
pub open spec fn index_size_code(env: Env, e: ExprV) -> core::result::Result<Seq<char>, ErrorV> {
    match e.kind {
        ExprKindV::Range(a, b) => match expr_code(env, *a) {
            Err(x) => Err(x),
            Ok(s) => match expr_code(env, *b) {
                Err(x) => Err(x),
                Ok(t) => Ok("("@ + t + " - "@ + s + " + 1) as usize"@),
            },
        },
        ExprKindV::ImplicitIndexSet(_) => Err(unsupported("Implicit index sets"@, "Phase 1"@, e.span)),
        _ => Err(type_error_v("range expression"@, "other expression"@, e.span)),
    }
}

/// Total size of an array: the product of its index sets' sizes.
pub open spec fn sizes_code(env: Env, sets: Seq<ExprV>) -> core::result::Result<Seq<char>, ErrorV>
    decreases sets.len(),
{
    if sets.len() == 0 {
        Ok(Seq::empty())
    } else {
        match sizes_code(env, sets.drop_last()) {
            Err(x) => Err(x),
            Ok(prev) => match index_size_code(env, sets.last()) {
                Err(x) => Err(x),
                Ok(d) => Ok(if sets.len() == 1 { d } else { "("@ + prev + ") * ("@ + d + ")"@ }),
            },
        }
    }
}

/// A constraint given by a call: only `alldifferent` of one array.
pub open spec fn constraint_call_code(env: Env, name: Seq<char>, args: Seq<ExprV>) -> core::result::Result<
    Seq<char>,
    ErrorV,
> {
    if name == "alldifferent"@ {
        if args.len() != 1 {
            Err(type_error_v("1 argument"@, nat_decimal(args.len()) + " arguments"@, no_span()))
        } else {
            match expr_code(env, args[0]) {
                Err(x) => Err(x),
                Ok(a) => Ok("model.all_different(&"@ + a + ");"@),
            }
        }
    } else {
        Err(unsupported("Constraint '"@ + name + "'"@, "Phase 1"@, no_span()))
    }
}

/// A comparison constraint.
pub open spec fn constraint_binop_code(env: Env, op: BinOp, left: ExprV, right: ExprV) -> core::result::Result<
    Seq<char>,
    ErrorV,
> {
    match expr_code(env, left) {
        Err(x) => Err(x),
        Ok(l) => match expr_code(env, right) {
            Err(x) => Err(x),
            Ok(r) => match constraint_method(op) {
                Some(m) => Ok("model."@ + m + "("@ + l + ", "@ + r + ");"@),
                None => Err(unsupported("Binary operator "@ + binop_debug(op) + " in constraints"@, "Phase 1"@, no_span())),
            },
        },
    }
}

/// The statement posting a constraint.
pub open spec fn constraint_code(env: Env, e: ExprV) -> core::result::Result<Seq<char>, ErrorV> {
    match e.kind {
        ExprKindV::Call { name, args } => constraint_call_code(env, name, args),
        ExprKindV::BinOp { op, left, right } => constraint_binop_code(env, op, *left, *right),
        _ => Err(type_error_v("constraint expression"@, "other expression"@, e.span)),
    }
}

// ---------------------------------------------------------------------------
// What generated operators and constraint methods mean.

/// `a / b` rounded toward zero, as Rust's `/` and MiniZinc's `div`
/// compute it.
pub open spec fn trunc_div(a: int, b: int) -> int {
    if a >= 0 {
        if b > 0 { a / b } else { -(a / (-b)) }
    } else {
        if b > 0 { -((-a) / b) } else { (-a) / (-b) }
    }
}

/// The remainder that goes with `trunc_div` (sign of the dividend), as
/// Rust's `%` and MiniZinc's `mod` compute it.
pub open spec fn trunc_rem(a: int, b: int) -> int {
    a - b * trunc_div(a, b)
}

/// A truth value as an integer.
pub open spec fn truth(p: bool) -> int {
    if p { 1 } else { 0 }
}

/// What a MiniZinc binary operator computes on integers (truth values as
/// 0 and 1, any nonzero value true), for the operators that Rust has an
/// operator for; `None` for the others (`->`, `<->`, `xor`, `in`, `..`).
pub open spec fn minizinc_value(op: BinOp, a: int, b: int) -> Option<int> {
    match op {
        BinOp::Add => Some(a + b),
        BinOp::Sub => Some(a - b),
        BinOp::Mul => Some(a * b),
        BinOp::Div => Some(trunc_div(a, b)),
        BinOp::FDiv => Some(trunc_div(a, b)),
        BinOp::Mod => Some(trunc_rem(a, b)),
        BinOp::Lt => Some(truth(a < b)),
        BinOp::Le => Some(truth(a <= b)),
        BinOp::Gt => Some(truth(a > b)),
        BinOp::Ge => Some(truth(a >= b)),
        BinOp::Eq => Some(truth(a == b)),
        BinOp::Ne => Some(truth(a != b)),
        BinOp::And => Some(truth(a != 0 && b != 0)),
        BinOp::Or => Some(truth(a != 0 || b != 0)),
        _ => None,
    }
}

/// What a Rust binary operator, given by its text, computes on integers
/// (truth values as 0 and 1); `None` for text that is no such operator.
pub open spec fn rust_value(o: Seq<char>, a: int, b: int) -> Option<int> {
    if o == seq!['+'] {
        Some(a + b)
    } else if o == seq!['-'] {
        Some(a - b)
    } else if o == seq!['*'] {
        Some(a * b)
    } else if o == seq!['/'] {
        Some(trunc_div(a, b))
    } else if o == seq!['%'] {
        Some(trunc_rem(a, b))
    } else if o == seq!['<'] {
        Some(truth(a < b))
    } else if o == seq!['<', '='] {
        Some(truth(a <= b))
    } else if o == seq!['>'] {
        Some(truth(a > b))
    } else if o == seq!['>', '='] {
        Some(truth(a >= b))
    } else if o == seq!['=', '='] {
        Some(truth(a == b))
    } else if o == seq!['!', '='] {
        Some(truth(a != b))
    } else if o == seq!['&', '&'] {
        Some(truth(a != 0 && b != 0))
    } else if o == seq!['|', '|'] {
        Some(truth(a != 0 || b != 0))
    } else {
        None
    }
}

/// The comparison that a MiniZinc relational operator makes; `None` for
/// the operators that are no comparison.
pub open spec fn comparison(op: BinOp, a: int, b: int) -> Option<bool> {
    match op {
        BinOp::Lt => Some(a < b),
        BinOp::Le => Some(a <= b),
        BinOp::Gt => Some(a > b),
        BinOp::Ge => Some(a >= b),
        BinOp::Eq => Some(a == b),
        BinOp::Ne => Some(a != b),
        _ => None,
    }
}

/// The relation that a Selen model method posts between its two
/// arguments; `None` for a name that is no such method.
pub open spec fn selen_relation(m: Seq<char>, a: int, b: int) -> Option<bool> {
    if m == "less_than"@ {
        Some(a < b)
    } else if m == "less_or_equal"@ {
        Some(a <= b)
    } else if m == "greater_than"@ {
        Some(a > b)
    } else if m == "greater_or_equal"@ {
        Some(a >= b)
    } else if m == "equals"@ {
        Some(a == b)
    } else if m == "not_equals"@ {
        Some(a != b)
    } else {
        None
    }
}

/// Generated code computes what the MiniZinc expression computes: a
/// binary operation whose operands have code becomes `(l o r)`, where `o`
/// is a Rust operator that gives, on every pair of integers, what the
/// MiniZinc operator gives; it fails only for an operator that Rust has
/// none for. An operand without code makes the whole fail.
pub proof fn lemma_binop_code_meaning(env: Env, op: BinOp, left: ExprV, right: ExprV, span: Span, a: int, b: int)
    ensures
        ({
            let e = ExprV { kind: ExprKindV::BinOp { op, left: Box::new(left), right: Box::new(right) }, span };
            match (expr_code(env, left), expr_code(env, right)) {
                (Ok(l), Ok(r)) => match expr_code(env, e) {
                    Ok(c) => exists|o: Seq<char>|
                        #![trigger rust_value(o, a, b)]
                        c == "("@ + l + " "@ + o + " "@ + r + ")"@ && rust_value(o, a, b) is Some && rust_value(o, a, b)
                            == minizinc_value(op, a, b),
                    Err(_) => minizinc_value(op, a, b) is None,
                },
                _ => expr_code(env, e) is Err,
            }
        }),
{
    reveal_strlit("+");
    reveal_strlit("-");
    reveal_strlit("*");
    reveal_strlit("/");
    reveal_strlit("%");
    reveal_strlit("<");
    reveal_strlit("<=");
    reveal_strlit(">");
    reveal_strlit(">=");
    reveal_strlit("==");
    reveal_strlit("!=");
    reveal_strlit("&&");
    reveal_strlit("||");
    let e = ExprV { kind: ExprKindV::BinOp { op, left: Box::new(left), right: Box::new(right) }, span };
    match (expr_code(env, left), expr_code(env, right)) {
        (Ok(l), Ok(r)) => {
            match binop_code(op) {
                Some(o) => {
                    assert(expr_code(env, e) == Ok::<Seq<char>, ErrorV>("("@ + l + " "@ + o + " "@ + r + ")"@));
                    match op {
                        BinOp::Add => { assert(o =~= seq!['+']); assert(o.len() == 1 && o[0] == '+'); assert(rust_value(o, a, b) == minizinc_value(op, a, b)); },
                        BinOp::Sub => { assert(o =~= seq!['-']); assert(o.len() == 1 && o[0] == '-'); assert(rust_value(o, a, b) == minizinc_value(op, a, b)); },
                        BinOp::Mul => { assert(o =~= seq!['*']); assert(o.len() == 1 && o[0] == '*'); assert(rust_value(o, a, b) == minizinc_value(op, a, b)); },
                        BinOp::Div => { assert(o =~= seq!['/']); assert(o.len() == 1 && o[0] == '/'); assert(rust_value(o, a, b) == minizinc_value(op, a, b)); },
                        BinOp::FDiv => { assert(o =~= seq!['/']); assert(o.len() == 1 && o[0] == '/'); assert(rust_value(o, a, b) == minizinc_value(op, a, b)); },
                        BinOp::Mod => { assert(o =~= seq!['%']); assert(o.len() == 1 && o[0] == '%'); assert(rust_value(o, a, b) == minizinc_value(op, a, b)); },
                        BinOp::Lt => { assert(o =~= seq!['<']); assert(o.len() == 1 && o[0] == '<'); assert(rust_value(o, a, b) == minizinc_value(op, a, b)); },
                        BinOp::Le => { assert(o =~= seq!['<', '=']); assert(o.len() == 2 && o[0] == '<' && o[1] == '='); assert(rust_value(o, a, b) == minizinc_value(op, a, b)); },
                        BinOp::Gt => { assert(o =~= seq!['>']); assert(o.len() == 1 && o[0] == '>'); assert(rust_value(o, a, b) == minizinc_value(op, a, b)); },
                        BinOp::Ge => { assert(o =~= seq!['>', '=']); assert(o.len() == 2 && o[0] == '>' && o[1] == '='); assert(rust_value(o, a, b) == minizinc_value(op, a, b)); },
                        BinOp::Eq => { assert(o =~= seq!['=', '=']); assert(o.len() == 2 && o[0] == '=' && o[1] == '='); assert(rust_value(o, a, b) == minizinc_value(op, a, b)); },
                        BinOp::Ne => { assert(o =~= seq!['!', '=']); assert(o.len() == 2 && o[0] == '!' && o[1] == '='); assert(rust_value(o, a, b) == minizinc_value(op, a, b)); },
                        BinOp::And => { assert(o =~= seq!['&', '&']); assert(o.len() == 2 && o[0] == '&' && o[1] == '&'); assert(rust_value(o, a, b) == minizinc_value(op, a, b)); },
                        BinOp::Or => { assert(o =~= seq!['|', '|']); assert(o.len() == 2 && o[0] == '|' && o[1] == '|'); assert(rust_value(o, a, b) == minizinc_value(op, a, b)); },
                        _ => {},
                    }
                    assert(rust_value(o, a, b) == minizinc_value(op, a, b));
                },
                None => {},
            }
        },
        _ => {},
    }
}

/// Generated code computes what a MiniZinc unary operation computes: `-x`
/// and `not x` whose operand has code `c` become `(oc)`, where the Rust
/// operator `o` negates an integer for `-` and gives the truth of "`x` is
/// false" (0 or 1) for `not`.
pub proof fn lemma_unop_code_meaning(env: Env, op: UnOp, operand: ExprV, span: Span, a: int)
    ensures
        ({
            let e = ExprV { kind: ExprKindV::UnOp { op, expr: Box::new(operand) }, span };
            match expr_code(env, operand) {
                Ok(c) => exists|o: Seq<char>|
                    #![trigger rust_unary_value(o, a)]
                    expr_code(env, e) == Ok::<Seq<char>, ErrorV>("("@ + o + c + ")"@) && rust_unary_value(o, a)
                        == Some(
                        match op {
                            UnOp::Neg => -a,
                            UnOp::Not => truth(a == 0),
                        },
                    ),
                Err(_) => expr_code(env, e) is Err,
            }
        }),
{
    reveal_strlit("-");
    reveal_strlit("!");
    assert("-"@ =~= seq!['-']);
    assert("!"@ =~= seq!['!']);
    let e = ExprV { kind: ExprKindV::UnOp { op, expr: Box::new(operand) }, span };
    match expr_code(env, operand) {
        Ok(c) => {
            let o = unop_code(op);
            assert(expr_code(env, e) == Ok::<Seq<char>, ErrorV>("("@ + o + c + ")"@));
            match op {
                UnOp::Neg => assert(o =~= seq!['-']),
                UnOp::Not => {
                    assert(o =~= seq!['!']);
                    assert(o.len() == 1 && o[0] == '!');
                },
            }
            assert(rust_unary_value(o, a) == Some(
                match op {
                    UnOp::Neg => -a,
                    UnOp::Not => truth(a == 0),
                },
            ));
        },
        Err(_) => {},
    }
}

/// What a Rust prefix operator, given by its text, computes on an integer
/// (truth values as 0 and 1).
pub open spec fn rust_unary_value(o: Seq<char>, a: int) -> Option<int> {
    if o == seq!['-'] {
        Some(-a)
    } else if o == seq!['!'] {
        Some(truth(a == 0))
    } else {
        None
    }
}

/// A comparison constraint posts the relation it states: `l op r` whose
/// operands have code becomes `model.m(l, r);`, where the Selen method `m`
/// relates every pair of integers as `op` does; it fails only for an
/// operator that is no comparison. An operand without code makes the whole
/// fail.
pub proof fn lemma_constraint_method_meaning(env: Env, op: BinOp, left: ExprV, right: ExprV, span: Span, a: int, b: int)
    ensures
        ({
            let e = ExprV { kind: ExprKindV::BinOp { op, left: Box::new(left), right: Box::new(right) }, span };
            match (expr_code(env, left), expr_code(env, right)) {
                (Ok(l), Ok(r)) => match constraint_code(env, e) {
                    Ok(c) => exists|m: Seq<char>|
                        #![trigger selen_relation(m, a, b)]
                        c == "model."@ + m + "("@ + l + ", "@ + r + ");"@ && selen_relation(m, a, b) is Some
                            && selen_relation(m, a, b) == comparison(op, a, b),
                    Err(_) => comparison(op, a, b) is None,
                },
                _ => constraint_code(env, e) is Err,
            }
        }),
{
    reveal_strlit("less_than");
    reveal_strlit("less_or_equal");
    reveal_strlit("greater_than");
    reveal_strlit("greater_or_equal");
    reveal_strlit("equals");
    reveal_strlit("not_equals");
    match (expr_code(env, left), expr_code(env, right)) {
        (Ok(l), Ok(r)) => {
            match constraint_method(op) {
                Some(m) => {
                    assert(selen_relation(m, a, b) == comparison(op, a, b));
                },
                None => {},
            }
        },
        _ => {},
    }
}

/// The generator's state: the text so far, the indentation level and the
/// declared names.
pub struct CState {
    pub out: Seq<char>,
    pub indent: nat,
    pub env: Env,
}

pub open spec fn spaces(n: nat) -> Seq<char> {
    Seq::new(n, |i: int| ' ')
}

/// One line at the current indentation (four spaces a level).
pub open spec fn emit(s: CState, line: Seq<char>) -> CState {
    CState { out: s.out + spaces(4 * s.indent) + line + seq!['\n'], ..s }
}

pub open spec fn indent_in(s: CState) -> CState {
    CState { indent: s.indent + 1, ..s }
}

pub open spec fn indent_out(s: CState) -> CState {
    CState { indent: (s.indent - 1) as nat, ..s }
}

pub open spec fn declare(s: CState, name: Seq<char>, info: VarInfoV) -> CState {
    CState { env: s.env.push((name, info)), ..s }
}

/// `use zelen::*;`, then `fn main() {` opening the model.
pub open spec fn preamble(s: CState) -> CState {
    let s = emit(s, "use zelen::*;"@);
    let s = emit(s, ""@);
    let s = emit(s, "fn main() {"@);
    let s = indent_in(s);
    let s = emit(s, "let mut model = Model::new();"@);
    emit(s, ""@)
}

/// Solving the model and closing `main`.
pub open spec fn epilogue(s: CState) -> CState {
    let s = emit(s, ""@);
    let s = emit(s, "// Solve the model"@);
    let s = emit(s, "let solver = model.solve();"@);
    let s = emit(s, "match solver.next_solution() {"@);
    let s = indent_in(s);
    let s = emit(s, "Some(solution) => {"@);
    let s = indent_in(s);
    let s = emit(s, "println!(\"Solution found:\");"@);
    let s = emit(s, "// TODO: Print solution values"@);
    let s = indent_out(s);
    let s = emit(s, "}"@);
    let s = emit(s, "None => {"@);
    let s = indent_in(s);
    let s = emit(s, "println!(\"No solution found\");"@);
    let s = indent_out(s);
    let s = emit(s, "}"@);
    let s = indent_out(s);
    let s = emit(s, "}"@);
    let s = indent_out(s);
    emit(s, "}"@)
}

/// Variable type recorded for a parameter of a base type (an enum is an
/// integer).
pub open spec fn base_var_type(b: BaseTypeV) -> VarType {
    match b {
        BaseTypeV::Bool => VarType::Bool,
        BaseTypeV::Int => VarType::Int,
        BaseTypeV::Float => VarType::Float,
        BaseTypeV::Enum(_) => VarType::Int,
    }
}

/// Domain of the elements of a decision variable array.
pub open spec fn array_domain_code(env: Env, elem: TypeInstV) -> core::result::Result<Seq<char>, ErrorV> {
    match elem {
        TypeInstV::Constrained { domain, .. } => domain_code(env, domain),
        TypeInstV::Basic { base_type, .. } => match base_type {
            BaseTypeV::Int => Ok("i32::MIN..=i32::MAX"@),
            BaseTypeV::Bool => Err(unsupported("Bool arrays without domain"@, "Phase 1"@, no_span())),
            BaseTypeV::Float => Err(unsupported("Float decision variables"@, "Phase 1"@, no_span())),
            BaseTypeV::Enum(_) => Err(unsupported("Enum arrays without domain"@, "Phase 1"@, no_span())),
        },
        TypeInstV::Array { .. } => Err(unsupported("Multi-dimensional arrays"@, "Phase 2"@, no_span())),
    }
}

/// An array declaration: a decision variable array of the product of its
/// index set sizes, or a parameter array with its initializer.
pub open spec fn array_decl_step(
    s: CState,
    name: Seq<char>,
    index_sets: Seq<ExprV>,
    elem: TypeInstV,
    init: Option<ExprV>,
) -> (core::result::Result<(), ErrorV>, CState) {
    let is_var = match elem {
        TypeInstV::Basic { is_var, .. } => Some(is_var),
        TypeInstV::Constrained { is_var, .. } => Some(is_var),
        TypeInstV::Array { .. } => None,
    };
    match is_var {
        None => (Err(unsupported("Multi-dimensional arrays"@, "Phase 2"@, no_span())), s),
        Some(true) => match array_domain_code(s.env, elem) {
            Err(x) => (Err(x), s),
            Ok(dom) => match sizes_code(s.env, index_sets) {
                Err(x) => (Err(x), s),
                Ok(size) => (
                    Ok(()),
                    declare(
                        emit(s, "let "@ + name + " = model.new_int_var_array("@ + size + ", "@ + dom + ");"@),
                        name,
                        VarInfoV { rust_name: name, is_var: true, var_type: VarType::IntArray },
                    ),
                ),
            },
        },
        Some(false) => match init {
            Some(x) => match expr_code(s.env, x) {
                Err(e) => (Err(e), s),
                Ok(v) => (
                    Ok(()),
                    declare(
                        emit(s, "let "@ + name + " = "@ + v + ";"@),
                        name,
                        VarInfoV { rust_name: name, is_var: false, var_type: VarType::IntArray },
                    ),
                ),
            },
            None => (
                Err(type_error_v("parameter array with initializer"@, "parameter array without initializer"@, no_span())),
                s,
            ),
        },
    }
}

/// A variable or parameter declaration.
pub open spec fn var_decl_step(s: CState, d: VarDeclV) -> (core::result::Result<(), ErrorV>, CState) {
    match d.type_inst {
        TypeInstV::Basic { is_var, base_type } => if is_var {
            (Err(unsupported("Decision variables without domains"@, "Phase 1"@, d.span)), s)
        } else {
            match d.expr {
                Some(x) => match expr_code(s.env, x) {
                    Err(e) => (Err(e), s),
                    Ok(v) => (
                        Ok(()),
                        declare(
                            emit(s, "let "@ + d.name + " = "@ + v + ";"@),
                            d.name,
                            VarInfoV { rust_name: d.name, is_var: false, var_type: base_var_type(base_type) },
                        ),
                    ),
                },
                None => (
                    Err(type_error_v("parameter with initializer"@, "parameter without initializer"@, d.span)),
                    s,
                ),
            }
        },
        TypeInstV::Constrained { is_var, domain, .. } => if !is_var {
            (Err(unsupported("Constrained parameters"@, "Phase 1"@, d.span)), s)
        } else {
            match domain_code(s.env, domain) {
                Err(e) => (Err(e), s),
                Ok(dc) => (
                    Ok(()),
                    declare(
                        emit(s, "let "@ + d.name + " = model.new_int_var("@ + dc + ");"@),
                        d.name,
                        VarInfoV { rust_name: d.name, is_var: true, var_type: VarType::Int },
                    ),
                ),
            }
        },
        TypeInstV::Array { index_sets, element_type } => array_decl_step(s, d.name, index_sets, *element_type, d.expr),
    }
}

/// A solve item: a comment, and the objective when there is one.
pub open spec fn solve_step(s: CState, sv: SolveV) -> (core::result::Result<(), ErrorV>, CState) {
    let s1 = emit(emit(s, ""@), "// Solve configuration"@);
    match sv {
        SolveV::Satisfy { .. } => (Ok(()), emit(s1, "// solve satisfy (default)"@)),
        SolveV::Minimize { expr, .. } => match expr_code(s1.env, expr) {
            Err(e) => (Err(e), s1),
            Ok(o) => (Ok(()), emit(s1, "model.minimize("@ + o + ");"@)),
        },
        SolveV::Maximize { expr, .. } => match expr_code(s1.env, expr) {
            Err(e) => (Err(e), s1),
            Ok(o) => (Ok(()), emit(s1, "model.maximize("@ + o + ");"@)),
        },
    }
}

/// One item. Output items produce nothing; enum definitions are not
/// supported.
pub open spec fn item_step(s: CState, it: ItemV) -> (core::result::Result<(), ErrorV>, CState) {
    match it {
        ItemV::VarDecl(d) => var_decl_step(s, d),
        ItemV::Constraint { expr, .. } => match constraint_code(s.env, expr) {
            Err(e) => (Err(e), s),
            Ok(c) => (Ok(()), emit(s, c)),
        },
        ItemV::Solve(sv) => solve_step(s, sv),
        ItemV::Output { .. } => (Ok(()), s),
        ItemV::EnumDef { span, .. } => (Err(unsupported("Enumerated types"@, "Phase 1"@, span)), s),
    }
}

/// Items in order, up to the first error.
pub open spec fn items_step(s: CState, items: Seq<ItemV>) -> (core::result::Result<(), ErrorV>, CState)
    decreases items.len(),
{
    if items.len() == 0 {
        (Ok(()), s)
    } else {
        let (r, s1) = item_step(s, items[0]);
        match r {
            Err(e) => (Err(e), s1),
            Ok(_) => items_step(s1, items.drop_first()),
        }
    }
}

/// A whole model: the preamble, the items, the epilogue; the result is all
/// the text generated so far.
pub open spec fn compile_spec(s: CState, items: Seq<ItemV>) -> (core::result::Result<Seq<char>, ErrorV>, CState) {
    let (r, s1) = items_step(preamble(s), items);
    match r {
        Err(e) => (Err(e), s1),
        Ok(_) => {
            let s2 = epilogue(s1);
            (Ok(s2.out), s2)
        },
    }
}


// ---------------------------------------------------------------------------
// The generator.

/// What the generator records of a declared name.
#[derive(Debug, Clone)]
struct VarInfo {
    rust_name: String,
    is_var: bool,
    var_type: VarType,
}

spec fn view_info(i: VarInfo) -> VarInfoV {
    VarInfoV { rust_name: i.rust_name@, is_var: i.is_var, var_type: i.var_type }
}

spec fn view_env(v: Seq<(String, VarInfo)>) -> Env {
    Seq::new(v.len(), |i: int| (v[i].0@, view_info(v[i].1)))
}

/// Declared names (latest last) and a counter for temporary names.
#[derive(Debug)]
struct CompilerContext {
    variables: Vec<(String, VarInfo)>,
    temp_counter: usize,
}

impl CompilerContext {
    fn new() -> (c: Self)
        ensures
            view_env(c.variables@) == Seq::<(Seq<char>, VarInfoV)>::empty(),
            c.temp_counter == 0,
    {
        let c = CompilerContext { variables: Vec::new(), temp_counter: 0 };
        assert(view_env(c.variables@) =~= Seq::<(Seq<char>, VarInfoV)>::empty());
        c
    }

    /// Records `mzn_name`; it hides earlier declarations of the name.
    fn add_variable(&mut self, mzn_name: String, info: VarInfo)
        ensures
            view_env(final(self).variables@) == view_env(old(self).variables@).push((mzn_name@, view_info(info))),
            final(self).temp_counter == old(self).temp_counter,
    {
        self.variables.push((mzn_name, info));
        assert(view_env(self.variables@) =~= view_env(old(self).variables@).push((mzn_name@, view_info(info))));
    }

    /// The latest declaration of `name`.
    fn get_variable(&self, name: &str) -> (r: Option<&VarInfo>)
        ensures
            match r {
                Some(i) => env_lookup(view_env(self.variables@), name@) == Some(view_info(*i)),
                None => env_lookup(view_env(self.variables@), name@) is None,
            },
    {
        let ghost env = view_env(self.variables@);
        let mut i: usize = self.variables.len();
        assert(env.subrange(0, i as int) =~= env);
        while i > 0
            invariant
                i <= self.variables.len(),
                env == view_env(self.variables@),
                env_lookup(env.subrange(0, i as int), name@) == env_lookup(env, name@),
            decreases i,
        {
            let ghost sub = env.subrange(0, i as int);
            assert(sub.drop_last() =~= env.subrange(0, i - 1));
            if str_eq(self.variables[i - 1].0.as_str(), name) {
                return Some(&self.variables[i - 1].1);
            }
            i = i - 1;
        }
        None
    }

    /// A fresh temporary name `_tempN`.
    fn gen_temp(&mut self) -> (s: String)
        requires
            old(self).temp_counter < usize::MAX,
        ensures
            s@ == "_temp"@ + nat_decimal(old(self).temp_counter as nat),
            final(self).temp_counter == old(self).temp_counter + 1,
            final(self).variables@ == old(self).variables@,
    {
        let mut s = String::from_str("_temp");
        let n = usize_text(self.temp_counter);
        s.append(n.as_str());
        self.temp_counter = self.temp_counter + 1;
        s
    }
}

/// A MiniZinc name as a Rust identifier (kept as it is).
fn sanitize_identifier(name: &str) -> (s: String)
    ensures
        s@ == name@,
{
    String::from_str(name)
}

/// The parts separated by `sep`.
pub(crate) fn join_codes(parts: &Vec<String>, sep: &str) -> (s: String)
    ensures
        s@ == join(view_strings(parts@), sep@),
{
    let ghost ps = view_strings(parts@);
    let mut s = String::new();
    let mut i: usize = 0;
    while i < parts.len()
        invariant
            i <= parts.len(),
            ps == view_strings(parts@),
            s@ == join(ps.subrange(0, i as int), sep@),
        decreases parts.len() - i,
    {
        if i > 0 {
            s.append(sep);
        }
        s.append(parts[i].as_str());
        proof {
            let t = ps.subrange(0, i + 1);
            assert(t.drop_last() =~= ps.subrange(0, i as int));
            if i == 0 {
                assert(s@ =~= join(t, sep@));
            }
        }
        i = i + 1;
    }
    assert(ps.subrange(0, parts.len() as int) =~= ps);
    s
}

fn binop_code_exec(op: BinOp) -> (r: Option<&'static str>)
    ensures
        match r {
            Some(t) => binop_code(op) == Some(t@),
            None => binop_code(op) is None,
        },
{
    match op {
        BinOp::Add => Some("+"),
        BinOp::Sub => Some("-"),
        BinOp::Mul => Some("*"),
        BinOp::Div | BinOp::FDiv => Some("/"),
        BinOp::Mod => Some("%"),
        BinOp::Lt => Some("<"),
        BinOp::Le => Some("<="),
        BinOp::Gt => Some(">"),
        BinOp::Ge => Some(">="),
        BinOp::Eq => Some("=="),
        BinOp::Ne => Some("!="),
        BinOp::And => Some("&&"),
        BinOp::Or => Some("||"),
        _ => None,
    }
}

fn constraint_method_exec(op: BinOp) -> (r: Option<&'static str>)
    ensures
        match r {
            Some(t) => constraint_method(op) == Some(t@),
            None => constraint_method(op) is None,
        },
{
    match op {
        BinOp::Lt => Some("less_than"),
        BinOp::Le => Some("less_or_equal"),
        BinOp::Gt => Some("greater_than"),
        BinOp::Ge => Some("greater_or_equal"),
        BinOp::Eq => Some("equals"),
        BinOp::Ne => Some("not_equals"),
        _ => None,
    }
}

/// An error in the prefix of a list stops the whole list with it.
proof fn lemma_codes_err(env: Env, s: Seq<ExprV>, k: int)
    requires
        0 <= k <= s.len(),
        codes_of(env, s.subrange(0, k)) is Err,
    ensures
        codes_of(env, s) == codes_of(env, s.subrange(0, k)),
    decreases s.len(),
{
    if k < s.len() {
        let t = s.subrange(0, s.len() - 1);
        assert(t.subrange(0, k) =~= s.subrange(0, k));
        lemma_codes_err(env, t, k);
    } else {
        assert(s.subrange(0, k) =~= s);
    }
}

proof fn lemma_sizes_err(env: Env, s: Seq<ExprV>, k: int)
    requires
        0 <= k <= s.len(),
        sizes_code(env, s.subrange(0, k)) is Err,
    ensures
        sizes_code(env, s) == sizes_code(env, s.subrange(0, k)),
    decreases s.len(),
{
    if k < s.len() {
        let t = s.drop_last();
        assert(t.subrange(0, k) =~= s.subrange(0, k));
        lemma_sizes_err(env, t, k);
    } else {
        assert(s.subrange(0, k) =~= s);
    }
}

/// Generator of Rust code from a MiniZinc model.
pub struct Compiler {
    context: CompilerContext,
    output: String,
    indent: usize,
}

impl Default for Compiler {
    fn default() -> (c: Self)
        ensures
            c.state() == (CState { out: Seq::empty(), indent: 0, env: Seq::empty() }),
    {
        Self::new()
    }
}

impl Compiler {
    /// The text generated so far, the indentation and the declared names.
    pub closed spec fn state(&self) -> CState {
        CState { out: self.output@, indent: self.indent as nat, env: view_env(self.context.variables@) }
    }

    spec fn env(&self) -> Env {
        view_env(self.context.variables@)
    }

    pub fn new() -> (c: Self)
        ensures
            c.state() == (CState { out: Seq::empty(), indent: 0, env: Seq::empty() }),
    {
        Compiler { context: CompilerContext::new(), output: String::new(), indent: 0 }
    }

    fn emit_line(&mut self, line: &str)
        ensures
            final(self).state() == emit(old(self).state(), line@),
            final(self).indent == old(self).indent,
            final(self).context.temp_counter == old(self).context.temp_counter,
    {
        let mut k: usize = 0;
        proof {
            reveal_strlit("    ");
            assert(spaces(0) =~= Seq::<char>::empty());
        }
        while k < self.indent
            invariant
                k <= self.indent,
                self.indent == old(self).indent,
                self.context == old(self).context,
                self.output@ == old(self).output@ + spaces(4 * k as nat),
            decreases self.indent - k,
        {
            self.output.append("    ");
            proof {
                reveal_strlit("    ");
                assert(spaces(4 * k as nat) + "    "@ =~= spaces(4 * (k + 1) as nat));
            }
            k = k + 1;
        }
        self.output.append(line);
        self.output.append("\n");
        proof {
            reveal_strlit("\n");
            assert(self.output@ =~= old(self).output@ + spaces(4 * old(self).indent as nat) + line@ + seq!['\n']);
        }
    }
}


impl Compiler {
    /// Rust code of an expression.
    fn compile_expr(&self, expr: &Expr) -> (r: Result<String>)
        ensures
            lift(r, |c: String| c@) == expr_code(self.env(), expr@),
        decreases expr, 2nat,
    {
        match &expr.kind {
            ExprKind::Ident(_) | ExprKind::IntLit(_) | ExprKind::BoolLit(_) | ExprKind::FloatLit(_)
            | ExprKind::StringLit(_) => self.compile_leaf(expr),
            ExprKind::ArrayLit(_) | ExprKind::Call { .. } => self.compile_list_expr(expr),
            ExprKind::BinOp { .. } | ExprKind::UnOp { .. } | ExprKind::Range(..) | ExprKind::ArrayAccess { .. } => {
                self.compile_op_expr(expr)
            },
            _ => {
                let mut text: Vec<char> = Vec::new();
                push_str(&mut text, "Expression type: ");
                write_kind_debug(&mut text, &expr.kind);
                let feature = string_from_chars(&text);
                Err(Error::unsupported_feature(feature.as_str(), "Phase 1", expr.span))
            },
        }
    }

    fn compile_leaf(&self, expr: &Expr) -> (r: Result<String>)
        requires
            expr.kind is Ident || expr.kind is IntLit || expr.kind is BoolLit || expr.kind is FloatLit
                || expr.kind is StringLit,
        ensures
            lift(r, |c: String| c@) == expr_code(self.env(), expr@),
    {
        match &expr.kind {
            ExprKind::Ident(name) => match self.context.get_variable(name.as_str()) {
                Some(info) => Ok(info.rust_name.clone()),
                None => {
                    let mut msg = String::from_str("Undefined variable: ");
                    msg.append(name.as_str());
                    Err(Error::message(msg.as_str(), expr.span))
                },
            },
            ExprKind::IntLit(i) => Ok(i64_text(*i)),
            ExprKind::BoolLit(b) => Ok(String::from_str(if *b { "true" } else { "false" })),
            ExprKind::FloatLit(t) => Ok(float_display(t.as_str())),
            ExprKind::StringLit(t) => {
                let mut c = String::from_str("\"");
                c.append(t.as_str());
                c.append("\"");
                Ok(c)
            },
            _ => Ok(String::new()),
        }
    }

    /// Codes of a list of expressions, up to the first error.
    fn compile_exprs(&self, v: &Vec<Expr>) -> (r: Result<Vec<String>>)
        ensures
            lift(r, |c: Vec<String>| view_strings(c@)) == codes_of(self.env(), view_exprs(v@)),
        decreases v, 0nat,
    {
        let ghost vs = view_exprs(v@);
        let ghost env = self.env();
        let mut out: Vec<String> = Vec::new();
        let mut i: usize = 0;
        proof {
            lemma_views_empty();
            assert(vs.subrange(0, 0) =~= Seq::<ExprV>::empty());
        }
        while i < v.len()
            invariant
                i <= v.len(),
                vs == view_exprs(v@),
                env == self.env(),
                codes_of(env, vs.subrange(0, i as int)) == Ok::<Seq<Seq<char>>, ErrorV>(view_strings(out@)),
            decreases v.len() - i,
        {
            let ghost t = vs.subrange(0, i + 1);
            proof {
                assert(t.subrange(0, i as int) =~= vs.subrange(0, i as int));
                assert(t[i as int] == vs[i as int]);
            }
            assert(decreases_to!(v => v@[i as int]));
            match self.compile_expr(&v[i]) {
                Err(e) => {
                    proof {
                        lemma_codes_err(env, vs, i + 1);
                    }
                    return Err(e);
                },
                Ok(c) => {
                    proof {
                        lemma_view_strings_push(out@, c);
                    }
                    out.push(c);
                },
            }
            i = i + 1;
        }
        assert(vs.subrange(0, v.len() as int) =~= vs);
        Ok(out)
    }

    fn compile_list_expr(&self, expr: &Expr) -> (r: Result<String>)
        requires
            expr.kind is ArrayLit || expr.kind is Call,
        ensures
            lift(r, |c: String| c@) == expr_code(self.env(), expr@),
        decreases expr, 1nat,
    {
        match &expr.kind {
            ExprKind::ArrayLit(elements) => match self.compile_exprs(elements) {
                Err(e) => Err(e),
                Ok(codes) => {
                    let mut c = String::from_str("vec![");
                    let j = join_codes(&codes, ", ");
                    c.append(j.as_str());
                    c.append("]");
                    Ok(c)
                },
            },
            ExprKind::Call { name, args } => match self.compile_exprs(args) {
                Err(e) => Err(e),
                Ok(codes) => {
                    let mut c = name.clone();
                    c.append("(");
                    let j = join_codes(&codes, ", ");
                    c.append(j.as_str());
                    c.append(")");
                    Ok(c)
                },
            },
            _ => Ok(String::new()),
        }
    }

    fn compile_op_expr(&self, expr: &Expr) -> (r: Result<String>)
        requires
            expr.kind is BinOp || expr.kind is UnOp || expr.kind is Range || expr.kind is ArrayAccess,
        ensures
            lift(r, |c: String| c@) == expr_code(self.env(), expr@),
        decreases expr, 1nat,
    {
        proof {
            assert(expr@.kind == view_kind(expr.kind));
        }
        match &expr.kind {
            ExprKind::BinOp { op, left, right } => {
                let l = match self.compile_expr(left) {
                    Err(e) => return Err(e),
                    Ok(l) => l,
                };
                let r = match self.compile_expr(right) {
                    Err(e) => return Err(e),
                    Ok(r) => r,
                };
                match binop_code_exec(*op) {
                    Some(o) => {
                        let mut c = String::from_str("(");
                        c.append(l.as_str());
                        c.append(" ");
                        c.append(o);
                        c.append(" ");
                        c.append(r.as_str());
                        c.append(")");
                        Ok(c)
                    },
                    None => {
                        let mut f = String::from_str("Binary operator ");
                        f.append(op.debug_name());
                        Err(Error::unsupported_feature(f.as_str(), "Phase 1", expr.span))
                    },
                }
            },
            ExprKind::UnOp { op, expr: inner } => match self.compile_expr(inner) {
                Err(e) => Err(e),
                Ok(ic) => {
                    let mut c = String::from_str("(");
                    let o = match op {
                        UnOp::Neg => "-",
                        UnOp::Not => "!",
                    };
                    assert(o@ == unop_code(*op));
                    c.append(o);
                    c.append(ic.as_str());
                    c.append(")");
                    Ok(c)
                },
            },
            ExprKind::Range(a, b) => {
                let ca = match self.compile_expr(a) {
                    Err(e) => return Err(e),
                    Ok(x) => x,
                };
                match self.compile_expr(b) {
                    Err(e) => Err(e),
                    Ok(cb) => {
                        let mut c = ca;
                        c.append("..=");
                        c.append(cb.as_str());
                        Ok(c)
                    },
                }
            },
            ExprKind::ArrayAccess { array, indices } => {
                let a = match self.compile_expr(array) {
                    Err(e) => return Err(e),
                    Ok(x) => x,
                };
                if indices.len() != 1 {
                    return Err(
                        Error::unsupported_feature(
                            "Multi-dimensional array access in code generation",
                            "Phase 2",
                            Span::dummy(),
                        ),
                    );
                }
                assert(decreases_to!(indices => indices@[0]));
                match self.compile_expr(&indices[0]) {
                    Err(e) => Err(e),
                    Ok(i) => {
                        let mut c = a;
                        c.append("[");
                        c.append(i.as_str());
                        c.append(" as usize - 1]");
                        Ok(c)
                    },
                }
            },
            _ => Ok(String::new()),
        }
    }
}


impl Compiler {
    fn compile_domain(&self, domain: &Expr, _base_type: &BaseType) -> (r: Result<String>)
        ensures
            lift(r, |c: String| c@) == domain_code(self.env(), domain@),
    {
        proof {
            assert(domain@.kind == view_kind(domain.kind));
        }
        match &domain.kind {
            ExprKind::BinOp { op: BinOp::Range, left, right } => {
                let l = match self.compile_expr(left) {
                    Err(e) => return Err(e),
                    Ok(x) => x,
                };
                match self.compile_expr(right) {
                    Err(e) => Err(e),
                    Ok(r) => {
                        let mut c = l;
                        c.append("..=");
                        c.append(r.as_str());
                        Ok(c)
                    },
                }
            },
            ExprKind::SetLit(elements) => match self.compile_exprs(elements) {
                Err(e) => Err(e),
                Ok(codes) => {
                    let mut c = String::from_str("&[");
                    let j = join_codes(&codes, ", ");
                    c.append(j.as_str());
                    c.append("]");
                    Ok(c)
                },
            },
            _ => Err(Error::type_error("range or set literal", "other expression", domain.span)),
        }
    }

    fn compile_index_set_size(&self, index_set: &Expr) -> (r: Result<String>)
        ensures
            lift(r, |c: String| c@) == index_size_code(self.env(), index_set@),
    {
        proof {
            assert(index_set@.kind == view_kind(index_set.kind));
        }
        match &index_set.kind {
            ExprKind::Range(start, end) => {
                let s = match self.compile_expr(start) {
                    Err(e) => return Err(e),
                    Ok(x) => x,
                };
                match self.compile_expr(end) {
                    Err(e) => Err(e),
                    Ok(t) => {
                        let mut c = String::from_str("(");
                        c.append(t.as_str());
                        c.append(" - ");
                        c.append(s.as_str());
                        c.append(" + 1) as usize");
                        Ok(c)
                    },
                }
            },
            ExprKind::ImplicitIndexSet(_) => Err(
                Error::unsupported_feature("Implicit index sets", "Phase 1", index_set.span),
            ),
            _ => Err(Error::type_error("range expression", "other expression", index_set.span)),
        }
    }

    /// The total size of an array, the product of its index set sizes.
    fn compile_array_size(&self, index_sets: &Vec<Expr>) -> (r: Result<String>)
        ensures
            lift(r, |c: String| c@) == sizes_code(self.env(), view_exprs(index_sets@)),
    {
        let ghost vs = view_exprs(index_sets@);
        let ghost env = self.env();
        let mut size_code = String::new();
        let mut i: usize = 0;
        assert(vs.subrange(0, 0) =~= Seq::<ExprV>::empty());
        while i < index_sets.len()
            invariant
                i <= index_sets.len(),
                vs == view_exprs(index_sets@),
                env == self.env(),
                sizes_code(env, vs.subrange(0, i as int)) == Ok::<Seq<char>, ErrorV>(size_code@),
            decreases index_sets.len() - i,
        {
            let ghost t = vs.subrange(0, i + 1);
            proof {
                assert(t.drop_last() =~= vs.subrange(0, i as int));
                assert(t.last() == vs[i as int]);
            }
            let dim = match self.compile_index_set_size(&index_sets[i]) {
                Err(e) => {
                    proof {
                        lemma_sizes_err(env, vs, i + 1);
                    }
                    return Err(e);
                },
                Ok(d) => d,
            };
            if i == 0 {
                size_code = dim;
            } else {
                let mut c = String::from_str("(");
                c.append(size_code.as_str());
                c.append(") * (");
                c.append(dim.as_str());
                c.append(")");
                size_code = c;
            }
            i = i + 1;
        }
        assert(vs.subrange(0, index_sets.len() as int) =~= vs);
        Ok(size_code)
    }

    fn compile_constraint_call(&self, name: &String, args: &Vec<Expr>) -> (r: Result<String>)
        ensures
            lift(r, |c: String| c@) == constraint_call_code(self.env(), name@, view_exprs(args@)),
    {
        if str_eq(name.as_str(), "alldifferent") {
            if args.len() != 1 {
                let mut found = usize_text(args.len());
                found.append(" arguments");
                return Err(Error::type_error("1 argument", found.as_str(), Span::dummy()));
            }
            match self.compile_expr(&args[0]) {
                Err(e) => Err(e),
                Ok(a) => {
                    let mut c = String::from_str("model.all_different(&");
                    c.append(a.as_str());
                    c.append(");");
                    Ok(c)
                },
            }
        } else {
            let mut f = String::from_str("Constraint '");
            f.append(name.as_str());
            f.append("'");
            Err(Error::unsupported_feature(f.as_str(), "Phase 1", Span::dummy()))
        }
    }

    fn compile_constraint_binop(&self, op: BinOp, left: &Expr, right: &Expr) -> (r: Result<String>)
        ensures
            lift(r, |c: String| c@) == constraint_binop_code(self.env(), op, left@, right@),
    {
        let l = match self.compile_expr(left) {
            Err(e) => return Err(e),
            Ok(x) => x,
        };
        let r = match self.compile_expr(right) {
            Err(e) => return Err(e),
            Ok(x) => x,
        };
        match constraint_method_exec(op) {
            Some(m) => {
                let mut c = String::from_str("model.");
                c.append(m);
                c.append("(");
                c.append(l.as_str());
                c.append(", ");
                c.append(r.as_str());
                c.append(");");
                Ok(c)
            },
            None => {
                let mut f = String::from_str("Binary operator ");
                f.append(op.debug_name());
                f.append(" in constraints");
                Err(Error::unsupported_feature(f.as_str(), "Phase 1", Span::dummy()))
            },
        }
    }

    fn compile_constraint_expr(&self, expr: &Expr) -> (r: Result<String>)
        ensures
            lift(r, |c: String| c@) == constraint_code(self.env(), expr@),
    {
        proof {
            assert(expr@.kind == view_kind(expr.kind));
        }
        match &expr.kind {
            ExprKind::Call { name, args } => self.compile_constraint_call(name, args),
            ExprKind::BinOp { op, left, right } => self.compile_constraint_binop(*op, left, right),
            _ => Err(Error::type_error("constraint expression", "other expression", expr.span)),
        }
    }
}


impl Compiler {
    fn declare(&mut self, name: &String, info: VarInfo)
        ensures
            final(self).state() == declare(old(self).state(), name@, view_info(info)),
    {
        self.context.add_variable(name.clone(), info);
    }

    fn emit_preamble(&mut self)
        requires
            old(self).indent < usize::MAX,
        ensures
            final(self).state() == preamble(old(self).state()),
    {
        self.emit_line("use zelen::*;");
        self.emit_line("");
        self.emit_line("fn main() {");
        self.indent = self.indent + 1;
        self.emit_line("let mut model = Model::new();");
        self.emit_line("");
    }

    fn emit_epilogue(&mut self)
        requires
            1 <= old(self).indent,
            old(self).indent + 2 <= usize::MAX,
        ensures
            final(self).state() == epilogue(old(self).state()),
    {
        self.emit_line("");
        self.emit_line("// Solve the model");
        self.emit_line("let solver = model.solve();");
        self.emit_line("match solver.next_solution() {");
        self.indent = self.indent + 1;
        self.emit_line("Some(solution) => {");
        self.indent = self.indent + 1;
        self.emit_line("println!(\"Solution found:\");");
        self.emit_line("// TODO: Print solution values");
        self.indent = self.indent - 1;
        self.emit_line("}");
        self.emit_line("None => {");
        self.indent = self.indent + 1;
        self.emit_line("println!(\"No solution found\");");
        self.indent = self.indent - 1;
        self.emit_line("}");
        self.indent = self.indent - 1;
        self.emit_line("}");
        self.indent = self.indent - 1;
        self.emit_line("}");
    }

    fn compile_array_decl(
        &mut self,
        name: &String,
        index_sets: &Vec<Expr>,
        element_type: &TypeInst,
        init_expr: &Option<Expr>,
    ) -> (r: Result<()>)
        ensures
            (lift(r, |x: ()| x), final(self).state()) == array_decl_step(
                old(self).state(),
                name@,
                view_exprs(index_sets@),
                view_type_inst(*element_type),
                view_opt_expr(*init_expr),
            ),
    {
        let rust_name = sanitize_identifier(name.as_str());
        let is_var = match element_type {
            TypeInst::Basic { is_var, .. } => *is_var,
            TypeInst::Constrained { is_var, .. } => *is_var,
            TypeInst::Array { .. } => {
                return Err(Error::unsupported_feature("Multi-dimensional arrays", "Phase 2", Span::dummy()));
            },
        };
        if is_var {
            let domain_code = match element_type {
                TypeInst::Constrained { base_type, domain, .. } => match self.compile_domain(domain, base_type) {
                    Err(e) => return Err(e),
                    Ok(d) => d,
                },
                TypeInst::Basic { base_type, .. } => match base_type {
                    BaseType::Int => String::from_str("i32::MIN..=i32::MAX"),
                    BaseType::Bool => {
                        return Err(Error::unsupported_feature("Bool arrays without domain", "Phase 1", Span::dummy()));
                    },
                    BaseType::Float => {
                        return Err(Error::unsupported_feature("Float decision variables", "Phase 1", Span::dummy()));
                    },
                    BaseType::Enum(_) => {
                        return Err(Error::unsupported_feature("Enum arrays without domain", "Phase 1", Span::dummy()));
                    },
                },
                TypeInst::Array { .. } => {
                    return Err(Error::unsupported_feature("Multi-dimensional arrays", "Phase 2", Span::dummy()));
                },
            };
            let size_code = match self.compile_array_size(index_sets) {
                Err(e) => return Err(e),
                Ok(c) => c,
            };
            let mut line = String::from_str("let ");
            line.append(rust_name.as_str());
            line.append(" = model.new_int_var_array(");
            line.append(size_code.as_str());
            line.append(", ");
            line.append(domain_code.as_str());
            line.append(");");
            self.emit_line(line.as_str());
            self.declare(name, VarInfo { rust_name, is_var: true, var_type: VarType::IntArray });
            Ok(())
        } else {
            match init_expr {
                Some(expr) => {
                    let value = match self.compile_expr(expr) {
                        Err(e) => return Err(e),
                        Ok(v) => v,
                    };
                    let mut line = String::from_str("let ");
                    line.append(rust_name.as_str());
                    line.append(" = ");
                    line.append(value.as_str());
                    line.append(";");
                    self.emit_line(line.as_str());
                    self.declare(name, VarInfo { rust_name, is_var: false, var_type: VarType::IntArray });
                    Ok(())
                },
                None => Err(
                    Error::type_error(
                        "parameter array with initializer",
                        "parameter array without initializer",
                        Span::dummy(),
                    ),
                ),
            }
        }
    }

    fn compile_var_decl(&mut self, var_decl: &VarDecl) -> (r: Result<()>)
        ensures
            (lift(r, |x: ()| x), final(self).state()) == var_decl_step(old(self).state(), view_var_decl(*var_decl)),
    {
        let rust_name = sanitize_identifier(var_decl.name.as_str());
        match &var_decl.type_inst {
            TypeInst::Basic { is_var, base_type } => {
                if *is_var {
                    return Err(
                        Error::unsupported_feature("Decision variables without domains", "Phase 1", var_decl.span),
                    );
                }
                match &var_decl.expr {
                    Some(expr) => {
                        let value = match self.compile_expr(expr) {
                            Err(e) => return Err(e),
                            Ok(v) => v,
                        };
                        let mut line = String::from_str("let ");
                        line.append(rust_name.as_str());
                        line.append(" = ");
                        line.append(value.as_str());
                        line.append(";");
                        self.emit_line(line.as_str());
                        let var_type = match base_type {
                            BaseType::Bool => VarType::Bool,
                            BaseType::Int => VarType::Int,
                            BaseType::Float => VarType::Float,
                            BaseType::Enum(_) => VarType::Int,
                        };
                        self.declare(&var_decl.name, VarInfo { rust_name, is_var: false, var_type });
                        Ok(())
                    },
                    None => Err(
                        Error::type_error(
                            "parameter with initializer",
                            "parameter without initializer",
                            var_decl.span,
                        ),
                    ),
                }
            },
            TypeInst::Constrained { is_var, base_type, domain } => {
                if !*is_var {
                    return Err(Error::unsupported_feature("Constrained parameters", "Phase 1", var_decl.span));
                }
                let domain_code = match self.compile_domain(domain, base_type) {
                    Err(e) => return Err(e),
                    Ok(d) => d,
                };
                let mut line = String::from_str("let ");
                line.append(rust_name.as_str());
                line.append(" = model.new_int_var(");
                line.append(domain_code.as_str());
                line.append(");");
                self.emit_line(line.as_str());
                self.declare(&var_decl.name, VarInfo { rust_name, is_var: true, var_type: VarType::Int });
                Ok(())
            },
            TypeInst::Array { index_sets, element_type } => {
                self.compile_array_decl(&var_decl.name, index_sets, element_type, &var_decl.expr)
            },
        }
    }

    fn compile_solve(&mut self, solve: &Solve) -> (r: Result<()>)
        ensures
            (lift(r, |x: ()| x), final(self).state()) == solve_step(old(self).state(), view_solve(*solve)),
    {
        self.emit_line("");
        self.emit_line("// Solve configuration");
        match solve {
            Solve::Satisfy { .. } => {
                self.emit_line("// solve satisfy (default)");
                Ok(())
            },
            Solve::Minimize { expr, .. } => match self.compile_expr(expr) {
                Err(e) => Err(e),
                Ok(obj) => {
                    let mut line = String::from_str("model.minimize(");
                    line.append(obj.as_str());
                    line.append(");");
                    self.emit_line(line.as_str());
                    Ok(())
                },
            },
            Solve::Maximize { expr, .. } => match self.compile_expr(expr) {
                Err(e) => Err(e),
                Ok(obj) => {
                    let mut line = String::from_str("model.maximize(");
                    line.append(obj.as_str());
                    line.append(");");
                    self.emit_line(line.as_str());
                    Ok(())
                },
            },
        }
    }

    fn compile_constraint(&mut self, constraint: &Constraint) -> (r: Result<()>)
        ensures
            (lift(r, |x: ()| x), final(self).state()) == (match constraint_code(old(self).state().env, constraint.expr@) {
                Err(e) => (Err(e), old(self).state()),
                Ok(c) => (Ok(()), emit(old(self).state(), c)),
            }),
    {
        match self.compile_constraint_expr(&constraint.expr) {
            Err(e) => Err(e),
            Ok(code) => {
                self.emit_line(code.as_str());
                Ok(())
            },
        }
    }

    fn compile_item(&mut self, item: &Item) -> (r: Result<()>)
        ensures
            (lift(r, |x: ()| x), final(self).state()) == item_step(old(self).state(), view_item(*item)),
    {
        match item {
            Item::VarDecl(var_decl) => self.compile_var_decl(var_decl),
            Item::Constraint(constraint) => self.compile_constraint(constraint),
            Item::Solve(solve) => self.compile_solve(solve),
            Item::Output(_output) => Ok(()),
            Item::EnumDef(def) => Err(Error::unsupported_feature("Enumerated types", "Phase 1", def.span)),
        }
    }

    /// Translates a model: the preamble, every item, the epilogue. The
    /// result, and the state left (also after an error), are those of
    /// `compile_spec`.
    pub fn compile(&mut self, model: &Model) -> (r: Result<String>)
        requires
            old(self).state().indent + 3 <= usize::MAX,
        ensures
            (lift(r, |c: String| c@), final(self).state()) == compile_spec(old(self).state(), model@),
    {
        self.emit_preamble();
        let ghost s0 = self.state();
        let ghost items = model@;
        let mut i: usize = 0;
        assert(items.subrange(0, items.len() as int) =~= items);
        while i < model.items.len()
            invariant
                i <= model.items.len(),
                items == model@,
                items.len() == model.items.len(),
                self.indent == s0.indent,
                s0 == preamble(old(self).state()),
                s0.indent >= 1,
                s0.indent + 2 <= usize::MAX,
                items_step(self.state(), items.subrange(i as int, items.len() as int)) == items_step(s0, items),
            decreases model.items.len() - i,
        {
            let ghost rest = items.subrange(i as int, items.len() as int);
            let ghost cur = self.state();
            proof {
                assert(rest[0] == view_item(model.items@[i as int]));
                assert(rest.drop_first() =~= items.subrange(i + 1, items.len() as int));
            }
            match self.compile_item(&model.items[i]) {
                Err(e) => {
                    assert(items_step(cur, rest) == (Err::<(), ErrorV>(e@), self.state()));
                    assert(compile_spec(old(self).state(), items) == (Err::<Seq<char>, ErrorV>(e@), self.state()));
                    return Err(e);
                },
                Ok(()) => {},
            }
            i = i + 1;
        }
        self.emit_epilogue();
        Ok(self.output.clone())
    }
}

} // verus!
