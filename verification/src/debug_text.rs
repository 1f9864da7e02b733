//! The text that `{:?}` prints for expressions (the derived `Debug` of the
//! tree), used in the code generator's error messages.

use vstd::prelude::*;
use crate::ast::{
    base_type_debug, binop_debug, unop_debug, view_base, view_expr, view_exprs, view_gen, view_gens,
    view_kind, view_strings, BaseType, BinOp, Expr, ExprKind, ExprKindV, ExprV, Generator,
    GeneratorV, UnOp,
};
use crate::lexer::{float_debug, float_debug_text};
use crate::text::{debug_quote, debug_quoted, int_decimal, nat_decimal, push_i64, push_str, push_usize};

verus! {

/// `Expr { kind: .., span: Span { start: .., end: .. } }`
pub open spec fn expr_debug(e: ExprV) -> Seq<char>
    decreases e, 2nat,
{
    "Expr { kind: "@ + kind_debug(e.kind) + ", span: Span { start: "@ + nat_decimal(e.span.start as nat)
        + ", end: "@ + nat_decimal(e.span.end as nat) + " } }"@
}

/// `[e1, e2, ...]` without the brackets.
pub open spec fn exprs_debug(s: Seq<ExprV>) -> Seq<char>
    decreases s, 0nat,
{
    if s.len() == 0 {
        Seq::empty()
    } else if s.len() == 1 {
        expr_debug(s[0])
    } else {
        proof {
            assert(decreases_to!(s => s.subrange(0, s.len() - 1)));
        }
        exprs_debug(s.subrange(0, s.len() - 1)) + ", "@ + expr_debug(s[s.len() - 1])
    }
}

/// `[g1, g2, ...]` without the brackets.
pub open spec fn gens_debug(s: Seq<GeneratorV>) -> Seq<char>
    decreases s, 0nat,
{
    if s.len() == 0 {
        Seq::empty()
    } else if s.len() == 1 {
        gen_debug(s[0])
    } else {
        proof {
            assert(decreases_to!(s => s.subrange(0, s.len() - 1)));
        }
        gens_debug(s.subrange(0, s.len() - 1)) + ", "@ + gen_debug(s[s.len() - 1])
    }
}

/// Quoted strings separated by `, `.
pub open spec fn strings_debug(s: Seq<Seq<char>>) -> Seq<char>
    decreases s.len(),
{
    if s.len() == 0 {
        Seq::empty()
    } else if s.len() == 1 {
        debug_quoted(s[0])
    } else {
        strings_debug(s.subrange(0, s.len() - 1)) + ", "@ + debug_quoted(s[s.len() - 1])
    }
}

pub open spec fn opt_expr_debug(o: Option<ExprV>) -> Seq<char>
    decreases o, 1nat,
{
    match o {
        Some(e) => "Some("@ + expr_debug(e) + ")"@,
        None => "None"@,
    }
}

/// `Generator { names: [..], expr: .., where_clause: .. }`
pub open spec fn gen_debug(g: GeneratorV) -> Seq<char>
    decreases g, 2nat,
{
    "Generator { names: ["@ + strings_debug(g.names) + "], expr: "@ + expr_debug(g.expr) + ", where_clause: "@
        + opt_expr_debug(g.where_clause) + " }"@
}

/// What `{:?}` prints for an expression kind.
pub open spec fn kind_debug(k: ExprKindV) -> Seq<char>
    decreases k, 1nat,
{
    match k {
        ExprKindV::Ident(s) => "Ident("@ + debug_quoted(s) + ")"@,
        ExprKindV::BoolLit(b) => "BoolLit("@ + (if b { "true"@ } else { "false"@ }) + ")"@,
        ExprKindV::IntLit(i) => "IntLit("@ + int_decimal(i as int) + ")"@,
        ExprKindV::FloatLit(t) => "FloatLit("@ + float_debug_text(t) + ")"@,
        ExprKindV::StringLit(s) => "StringLit("@ + debug_quoted(s) + ")"@,
        ExprKindV::ArrayLit(v) => "ArrayLit(["@ + exprs_debug(v) + "])"@,
        ExprKindV::SetLit(v) => "SetLit(["@ + exprs_debug(v) + "])"@,
        ExprKindV::Range(a, b) => "Range("@ + expr_debug(*a) + ", "@ + expr_debug(*b) + ")"@,
        ExprKindV::ArrayAccess { array, indices } => "ArrayAccess { array: "@ + expr_debug(*array) + ", indices: ["@
            + exprs_debug(indices) + "] }"@,
        ExprKindV::BinOp { op, left, right } => "BinOp { op: "@ + binop_debug(op) + ", left: "@ + expr_debug(*left)
            + ", right: "@ + expr_debug(*right) + " }"@,
        ExprKindV::UnOp { op, expr } => "UnOp { op: "@ + unop_debug(op) + ", expr: "@ + expr_debug(*expr) + " }"@,
        ExprKindV::Call { name, args } => "Call { name: "@ + debug_quoted(name) + ", args: ["@ + exprs_debug(args)
            + "] }"@,
        ExprKindV::IfThenElse { cond, then_expr, else_expr } => "IfThenElse { cond: "@ + expr_debug(*cond)
            + ", then_expr: "@ + expr_debug(*then_expr) + ", else_expr: "@ + (match else_expr {
            Some(e) => "Some("@ + expr_debug(*e) + ")"@,
            None => "None"@,
        }) + " }"@,
        ExprKindV::ArrayComp { expr, generators } => "ArrayComp { expr: "@ + expr_debug(*expr) + ", generators: ["@
            + gens_debug(generators) + "] }"@,
        ExprKindV::GenCall { name, generators, body } => "GenCall { name: "@ + debug_quoted(name)
            + ", generators: ["@ + gens_debug(generators) + "], body: "@ + expr_debug(*body) + " }"@,
        ExprKindV::Array2D { row_range, col_range, values } => "Array2D { row_range: "@ + expr_debug(*row_range)
            + ", col_range: "@ + expr_debug(*col_range) + ", values: "@ + expr_debug(*values) + " }"@,
        ExprKindV::Array3D { r1_range, r2_range, r3_range, values } => "Array3D { r1_range: "@ + expr_debug(
            *r1_range,
        ) + ", r2_range: "@ + expr_debug(*r2_range) + ", r3_range: "@ + expr_debug(*r3_range) + ", values: "@
            + expr_debug(*values) + " }"@,
        ExprKindV::ImplicitIndexSet(b) => "ImplicitIndexSet("@ + base_type_debug(b) + ")"@,
    }
}

/// Appends `expr_debug(e@)`.
pub fn write_expr_debug(out: &mut Vec<char>, e: &Expr)
    ensures
        final(out)@ == old(out)@ + expr_debug(e@),
    decreases e, 3nat,
{
    push_str(out, "Expr { kind: ");
    write_kind_debug(out, &e.kind);
    push_str(out, ", span: Span { start: ");
    push_usize(out, e.span.start);
    push_str(out, ", end: ");
    push_usize(out, e.span.end);
    push_str(out, " } }");
    assert(final(out)@ =~= old(out)@ + expr_debug(e@));
}

fn write_exprs_debug(out: &mut Vec<char>, v: &Vec<Expr>)
    ensures
        final(out)@ == old(out)@ + exprs_debug(view_exprs(v@)),
    decreases v, 0nat,
{
    let ghost vs = view_exprs(v@);
    let mut i: usize = 0;
    assert(vs.subrange(0, 0) =~= Seq::<ExprV>::empty());
    while i < v.len()
        invariant
            i <= v.len(),
            vs == view_exprs(v@),
            out@ == old(out)@ + exprs_debug(vs.subrange(0, i as int)),
        decreases v.len() - i,
    {
        let ghost before = out@;
        if i > 0 {
            push_str(out, ", ");
        }
        assert(decreases_to!(v => v@[i as int]));
        write_expr_debug(out, &v[i]);
        proof {
            let t = vs.subrange(0, i + 1);
            assert(t.subrange(0, i as int) =~= vs.subrange(0, i as int));
            assert(t[i as int] == view_expr(v@[i as int]));
            if i == 0 {
                assert(out@ =~= old(out)@ + exprs_debug(t));
            } else {
                assert(out@ =~= old(out)@ + exprs_debug(t));
            }
        }
        i = i + 1;
    }
    assert(vs.subrange(0, v.len() as int) =~= vs);
}

fn write_gens_debug(out: &mut Vec<char>, v: &Vec<Generator>)
    ensures
        final(out)@ == old(out)@ + gens_debug(view_gens(v@)),
    decreases v, 0nat,
{
    let ghost vs = view_gens(v@);
    let mut i: usize = 0;
    assert(vs.subrange(0, 0) =~= Seq::<GeneratorV>::empty());
    while i < v.len()
        invariant
            i <= v.len(),
            vs == view_gens(v@),
            out@ == old(out)@ + gens_debug(vs.subrange(0, i as int)),
        decreases v.len() - i,
    {
        if i > 0 {
            push_str(out, ", ");
        }
        assert(decreases_to!(v => v@[i as int]));
        write_gen_debug(out, &v[i]);
        proof {
            let t = vs.subrange(0, i + 1);
            assert(t.subrange(0, i as int) =~= vs.subrange(0, i as int));
            assert(t[i as int] == view_gen(v@[i as int]));
            assert(out@ =~= old(out)@ + gens_debug(t));
        }
        i = i + 1;
    }
    assert(vs.subrange(0, v.len() as int) =~= vs);
}

fn write_strings_debug(out: &mut Vec<char>, v: &Vec<String>)
    ensures
        final(out)@ == old(out)@ + strings_debug(view_strings(v@)),
{
    let ghost vs = view_strings(v@);
    let mut i: usize = 0;
    assert(vs.subrange(0, 0) =~= Seq::<Seq<char>>::empty());
    while i < v.len()
        invariant
            i <= v.len(),
            vs == view_strings(v@),
            out@ == old(out)@ + strings_debug(vs.subrange(0, i as int)),
        decreases v.len() - i,
    {
        if i > 0 {
            push_str(out, ", ");
        }
        let q = debug_quote(v[i].as_str());
        push_str(out, q.as_str());
        proof {
            let t = vs.subrange(0, i + 1);
            assert(t.subrange(0, i as int) =~= vs.subrange(0, i as int));
            assert(out@ =~= old(out)@ + strings_debug(t));
        }
        i = i + 1;
    }
    assert(vs.subrange(0, v.len() as int) =~= vs);
}

fn write_gen_debug(out: &mut Vec<char>, g: &Generator)
    ensures
        final(out)@ == old(out)@ + gen_debug(view_gen(*g)),
    decreases g, 3nat,
{
    push_str(out, "Generator { names: [");
    write_strings_debug(out, &g.names);
    push_str(out, "], expr: ");
    write_expr_debug(out, &g.expr);
    push_str(out, ", where_clause: ");
    match &g.where_clause {
        Some(w) => {
            push_str(out, "Some(");
            write_expr_debug(out, w);
            push_str(out, ")");
        },
        None => push_str(out, "None"),
    }
    push_str(out, " }");
    assert(final(out)@ =~= old(out)@ + gen_debug(view_gen(*g)));
}

fn write_quoted(out: &mut Vec<char>, s: &String)
    ensures
        final(out)@ == old(out)@ + debug_quoted(s@),
{
    let q = debug_quote(s.as_str());
    push_str(out, q.as_str());
}

/// Appends `kind_debug(k@)`.
/// Appends `kind_debug(k@)`.
pub fn write_kind_debug(out: &mut Vec<char>, k: &ExprKind)
    ensures
        final(out)@ == old(out)@ + kind_debug(view_kind(*k)),
    decreases k, 2nat,
{
    match k {
        ExprKind::Ident(_) | ExprKind::BoolLit(_) | ExprKind::IntLit(_) | ExprKind::FloatLit(_)
        | ExprKind::StringLit(_) | ExprKind::ImplicitIndexSet(_) => write_kind_leaf(out, k),
        ExprKind::ArrayLit(_) | ExprKind::SetLit(_) | ExprKind::Range(..) | ExprKind::ArrayAccess { .. }
        | ExprKind::Call { .. } => write_kind_lists(out, k),
        ExprKind::BinOp { .. } | ExprKind::UnOp { .. } | ExprKind::IfThenElse { .. } => write_kind_ops(out, k),
        _ => write_kind_comp(out, k),
    }
}

fn write_kind_leaf(out: &mut Vec<char>, k: &ExprKind)
    requires
        k is Ident || k is BoolLit || k is IntLit || k is FloatLit || k is StringLit || k is ImplicitIndexSet,
    ensures
        final(out)@ == old(out)@ + kind_debug(view_kind(*k)),
{
    let ghost o = out@;
    match k {
        ExprKind::Ident(s) => {
            push_str(out, "Ident(");
            write_quoted(out, s);
            push_str(out, ")");
            assert(out@ =~= o + kind_debug(view_kind(*k)));
        },
        ExprKind::BoolLit(b) => {
            push_str(out, "BoolLit(");
            push_str(out, if *b { "true" } else { "false" });
            push_str(out, ")");
            assert(out@ =~= o + kind_debug(view_kind(*k)));
        },
        ExprKind::IntLit(i) => {
            push_str(out, "IntLit(");
            push_i64(out, *i);
            push_str(out, ")");
            assert(out@ =~= o + kind_debug(view_kind(*k)));
        },
        ExprKind::FloatLit(t) => {
            push_str(out, "FloatLit(");
            let f = float_debug(t.as_str());
            push_str(out, f.as_str());
            push_str(out, ")");
            assert(out@ =~= o + kind_debug(view_kind(*k)));
        },
        ExprKind::StringLit(s) => {
            push_str(out, "StringLit(");
            write_quoted(out, s);
            push_str(out, ")");
            assert(out@ =~= o + kind_debug(view_kind(*k)));
        },
        ExprKind::ImplicitIndexSet(b) => {
            push_str(out, "ImplicitIndexSet(");
            let t = b.debug_text();
            push_str(out, t.as_str());
            push_str(out, ")");
            assert(out@ =~= o + kind_debug(view_kind(*k)));
        },
        _ => {},
    }
}

fn write_kind_lists(out: &mut Vec<char>, k: &ExprKind)
    requires
        k is ArrayLit || k is SetLit || k is Range || k is ArrayAccess || k is Call,
    ensures
        final(out)@ == old(out)@ + kind_debug(view_kind(*k)),
    decreases k, 1nat,
{
    let ghost o = out@;
    match k {
        ExprKind::ArrayLit(v) => {
            push_str(out, "ArrayLit([");
            write_exprs_debug(out, v);
            push_str(out, "])");
            assert(out@ =~= o + kind_debug(view_kind(*k)));
        },
        ExprKind::SetLit(v) => {
            push_str(out, "SetLit([");
            write_exprs_debug(out, v);
            push_str(out, "])");
            assert(out@ =~= o + kind_debug(view_kind(*k)));
        },
        ExprKind::Range(a, b) => {
            push_str(out, "Range(");
            write_expr_debug(out, a);
            push_str(out, ", ");
            write_expr_debug(out, b);
            push_str(out, ")");
            assert(out@ =~= o + kind_debug(view_kind(*k)));
        },
        ExprKind::ArrayAccess { array, indices } => {
            push_str(out, "ArrayAccess { array: ");
            write_expr_debug(out, array);
            push_str(out, ", indices: [");
            write_exprs_debug(out, indices);
            push_str(out, "] }");
            assert(out@ =~= o + kind_debug(view_kind(*k)));
        },
        ExprKind::Call { name, args } => {
            push_str(out, "Call { name: ");
            write_quoted(out, name);
            push_str(out, ", args: [");
            write_exprs_debug(out, args);
            push_str(out, "] }");
            assert(out@ =~= o + kind_debug(view_kind(*k)));
        },
        _ => {},
    }
}

#[verifier::spinoff_prover]
#[verifier::rlimit(30)]
fn write_kind_ops(out: &mut Vec<char>, k: &ExprKind)
    requires
        k is BinOp || k is UnOp || k is IfThenElse,
    ensures
        final(out)@ == old(out)@ + kind_debug(view_kind(*k)),
    decreases k, 1nat,
{
    let ghost o = out@;
    match k {
        ExprKind::BinOp { op, left, right } => {
            push_str(out, "BinOp { op: ");
            push_str(out, op.debug_name());
            push_str(out, ", left: ");
            write_expr_debug(out, left);
            push_str(out, ", right: ");
            write_expr_debug(out, right);
            push_str(out, " }");
            assert(out@ =~= o + kind_debug(view_kind(*k)));
        },
        ExprKind::UnOp { op, expr } => {
            push_str(out, "UnOp { op: ");
            push_str(out, op.debug_name());
            push_str(out, ", expr: ");
            write_expr_debug(out, expr);
            push_str(out, " }");
            assert(out@ =~= o + kind_debug(view_kind(*k)));
        },
        ExprKind::IfThenElse { cond, then_expr, else_expr } => {
            push_str(out, "IfThenElse { cond: ");
            write_expr_debug(out, cond);
            push_str(out, ", then_expr: ");
            write_expr_debug(out, then_expr);
            push_str(out, ", else_expr: ");
            match else_expr {
                Some(e) => {
                    push_str(out, "Some(");
                    write_expr_debug(out, e);
                    push_str(out, ")");
                },
                None => push_str(out, "None"),
            }
            push_str(out, " }");
            assert(out@ =~= o + kind_debug(view_kind(*k)));
        },
        _ => {},
    }
}

fn write_kind_comp(out: &mut Vec<char>, k: &ExprKind)
    requires
        k is ArrayComp || k is GenCall || k is Array2D || k is Array3D,
    ensures
        final(out)@ == old(out)@ + kind_debug(view_kind(*k)),
    decreases k, 1nat,
{
    let ghost o = out@;
    match k {
        ExprKind::ArrayComp { expr, generators } => {
            push_str(out, "ArrayComp { expr: ");
            write_expr_debug(out, expr);
            push_str(out, ", generators: [");
            write_gens_debug(out, generators);
            push_str(out, "] }");
            assert(out@ =~= o + kind_debug(view_kind(*k)));
        },
        ExprKind::GenCall { name, generators, body } => {
            push_str(out, "GenCall { name: ");
            write_quoted(out, name);
            push_str(out, ", generators: [");
            write_gens_debug(out, generators);
            push_str(out, "], body: ");
            write_expr_debug(out, body);
            push_str(out, " }");
            assert(out@ =~= o + kind_debug(view_kind(*k)));
        },
        ExprKind::Array2D { row_range, col_range, values } => {
            push_str(out, "Array2D { row_range: ");
            write_expr_debug(out, row_range);
            push_str(out, ", col_range: ");
            write_expr_debug(out, col_range);
            push_str(out, ", values: ");
            write_expr_debug(out, values);
            push_str(out, " }");
            assert(out@ =~= o + kind_debug(view_kind(*k)));
        },
        ExprKind::Array3D { r1_range, r2_range, r3_range, values } => {
            push_str(out, "Array3D { r1_range: ");
            write_expr_debug(out, r1_range);
            push_str(out, ", r2_range: ");
            write_expr_debug(out, r2_range);
            push_str(out, ", r3_range: ");
            write_expr_debug(out, r3_range);
            push_str(out, ", values: ");
            write_expr_debug(out, values);
            push_str(out, " }");
            assert(out@ =~= o + kind_debug(view_kind(*k)));
        },
        _ => {},
    }
}

} // verus!
