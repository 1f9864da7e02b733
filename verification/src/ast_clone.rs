//! Copies of syntax trees: `Clone` for every node, each copy having the
//! same view as the original.

use vstd::prelude::*;
use crate::ast::{
    view_base, view_exprs, view_expr, view_gen, view_gens, view_item, view_items, view_kind, view_opt_expr,
    view_solve, view_strings, view_type_inst, view_var_decl, lemma_view_exprs_push, lemma_view_gens_push,
    lemma_view_strings_push, lemma_view_items_push, BaseType, Constraint, Expr, ExprKind, Generator, Item, Model,
    Output, Solve, TypeInst, VarDecl,
};

verus! {

fn clone_strings(v: &Vec<String>) -> (r: Vec<String>)
    ensures
        view_strings(r@) == view_strings(v@),
{
    let mut r: Vec<String> = Vec::new();
    let mut i: usize = 0;
    assert(view_strings(r@) =~= view_strings(v@.subrange(0, 0)));
    while i < v.len()
        invariant
            i <= v.len(),
            view_strings(r@) == view_strings(v@.subrange(0, i as int)),
        decreases v.len() - i,
    {
        let s = v[i].clone();
        proof {
            lemma_view_strings_push(r@, s);
        }
        r.push(s);
        i = i + 1;
        assert(view_strings(r@) =~= view_strings(v@.subrange(0, i as int)));
    }
    assert(v@.subrange(0, v.len() as int) =~= v@);
    r
}

fn clone_base(b: &BaseType) -> (r: BaseType)
    ensures
        view_base(r) == view_base(*b),
{
    match b {
        BaseType::Bool => BaseType::Bool,
        BaseType::Int => BaseType::Int,
        BaseType::Float => BaseType::Float,
        BaseType::Enum(s) => BaseType::Enum(s.clone()),
    }
}

fn clone_expr(e: &Expr) -> (r: Expr)
    ensures
        view_expr(r) == view_expr(*e),
    decreases e, 3nat,
{
    Expr { kind: clone_kind(&e.kind), span: e.span }
}

fn clone_box(e: &Box<Expr>) -> (r: Box<Expr>)
    ensures
        view_expr(*r) == view_expr(**e),
    decreases e, 4nat,
{
    Box::new(clone_expr(&**e))
}

fn clone_exprs(v: &Vec<Expr>) -> (r: Vec<Expr>)
    ensures
        view_exprs(r@) == view_exprs(v@),
    decreases v, 0nat,
{
    let mut r: Vec<Expr> = Vec::new();
    let mut i: usize = 0;
    assert(view_exprs(r@) =~= view_exprs(v@.subrange(0, 0)));
    while i < v.len()
        invariant
            i <= v.len(),
            view_exprs(r@) == view_exprs(v@.subrange(0, i as int)),
        decreases v.len() - i,
    {
        assert(decreases_to!(v => v@[i as int]));
        let e = clone_expr(&v[i]);
        proof {
            lemma_view_exprs_push(r@, e);
            lemma_view_exprs_push(v@.subrange(0, i as int), v@[i as int]);
            assert(v@.subrange(0, i as int).push(v@[i as int]) =~= v@.subrange(0, i + 1));
        }
        r.push(e);
        i = i + 1;
    }
    assert(v@.subrange(0, v.len() as int) =~= v@);
    r
}

fn clone_gen(g: &Generator) -> (r: Generator)
    ensures
        view_gen(r) == view_gen(*g),
    decreases g, 3nat,
{
    let where_clause = match &g.where_clause {
        Some(w) => Some(clone_expr(w)),
        None => None,
    };
    Generator { names: clone_strings(&g.names), expr: clone_expr(&g.expr), where_clause }
}

fn clone_gens(v: &Vec<Generator>) -> (r: Vec<Generator>)
    ensures
        view_gens(r@) == view_gens(v@),
    decreases v, 0nat,
{
    let mut r: Vec<Generator> = Vec::new();
    let mut i: usize = 0;
    assert(view_gens(r@) =~= view_gens(v@.subrange(0, 0)));
    while i < v.len()
        invariant
            i <= v.len(),
            view_gens(r@) == view_gens(v@.subrange(0, i as int)),
        decreases v.len() - i,
    {
        assert(decreases_to!(v => v@[i as int]));
        let g = clone_gen(&v[i]);
        proof {
            lemma_view_gens_push(r@, g);
            lemma_view_gens_push(v@.subrange(0, i as int), v@[i as int]);
            assert(v@.subrange(0, i as int).push(v@[i as int]) =~= v@.subrange(0, i + 1));
        }
        r.push(g);
        i = i + 1;
    }
    assert(v@.subrange(0, v.len() as int) =~= v@);
    r
}

fn clone_kind(k: &ExprKind) -> (r: ExprKind)
    ensures
        view_kind(r) == view_kind(*k),
    decreases k, 2nat,
{
    match k {
        ExprKind::Ident(s) => ExprKind::Ident(s.clone()),
        ExprKind::BoolLit(b) => ExprKind::BoolLit(*b),
        ExprKind::IntLit(i) => ExprKind::IntLit(*i),
        ExprKind::FloatLit(s) => ExprKind::FloatLit(s.clone()),
        ExprKind::StringLit(s) => ExprKind::StringLit(s.clone()),
        ExprKind::ArrayLit(v) => ExprKind::ArrayLit(clone_exprs(v)),
        ExprKind::SetLit(v) => ExprKind::SetLit(clone_exprs(v)),
        ExprKind::Range(a, b) => ExprKind::Range(clone_box(a), clone_box(b)),
        ExprKind::ArrayAccess { array, indices } => ExprKind::ArrayAccess {
            array: clone_box(array),
            indices: clone_exprs(indices),
        },
        ExprKind::BinOp { op, left, right } => ExprKind::BinOp {
            op: *op,
            left: clone_box(left),
            right: clone_box(right),
        },
        ExprKind::UnOp { op, expr } => ExprKind::UnOp { op: *op, expr: clone_box(expr) },
        ExprKind::Call { name, args } => ExprKind::Call { name: name.clone(), args: clone_exprs(args) },
        ExprKind::IfThenElse { cond, then_expr, else_expr } => {
            let e = match else_expr {
                Some(x) => Some(clone_box(x)),
                None => None,
            };
            ExprKind::IfThenElse { cond: clone_box(cond), then_expr: clone_box(then_expr), else_expr: e }
        },
        ExprKind::ArrayComp { expr, generators } => ExprKind::ArrayComp {
            expr: clone_box(expr),
            generators: clone_gens(generators),
        },
        ExprKind::GenCall { name, generators, body } => ExprKind::GenCall {
            name: name.clone(),
            generators: clone_gens(generators),
            body: clone_box(body),
        },
        ExprKind::Array2D { row_range, col_range, values } => ExprKind::Array2D {
            row_range: clone_box(row_range),
            col_range: clone_box(col_range),
            values: clone_box(values),
        },
        ExprKind::Array3D { r1_range, r2_range, r3_range, values } => ExprKind::Array3D {
            r1_range: clone_box(r1_range),
            r2_range: clone_box(r2_range),
            r3_range: clone_box(r3_range),
            values: clone_box(values),
        },
        ExprKind::ImplicitIndexSet(b) => ExprKind::ImplicitIndexSet(clone_base(b)),
    }
}

fn clone_type_inst(t: &TypeInst) -> (r: TypeInst)
    ensures
        view_type_inst(r) == view_type_inst(*t),
    decreases t,
{
    match t {
        TypeInst::Basic { is_var, base_type } => TypeInst::Basic { is_var: *is_var, base_type: clone_base(base_type) },
        TypeInst::Constrained { is_var, base_type, domain } => TypeInst::Constrained {
            is_var: *is_var,
            base_type: clone_base(base_type),
            domain: clone_expr(domain),
        },
        TypeInst::Array { index_sets, element_type } => TypeInst::Array {
            index_sets: clone_exprs(index_sets),
            element_type: Box::new(clone_type_inst(&**element_type)),
        },
    }
}

fn clone_opt_expr(o: &Option<Expr>) -> (r: Option<Expr>)
    ensures
        view_opt_expr(r) == view_opt_expr(*o),
{
    match o {
        Some(e) => Some(clone_expr(e)),
        None => None,
    }
}

fn clone_var_decl(d: &VarDecl) -> (r: VarDecl)
    ensures
        view_var_decl(r) == view_var_decl(*d),
{
    VarDecl {
        type_inst: clone_type_inst(&d.type_inst),
        name: d.name.clone(),
        expr: clone_opt_expr(&d.expr),
        span: d.span,
    }
}

fn clone_solve(s: &Solve) -> (r: Solve)
    ensures
        view_solve(r) == view_solve(*s),
{
    match s {
        Solve::Satisfy { search_option, span } => Solve::Satisfy { search_option: *search_option, span: *span },
        Solve::Minimize { expr, search_option, span } => Solve::Minimize {
            expr: clone_expr(expr),
            search_option: *search_option,
            span: *span,
        },
        Solve::Maximize { expr, search_option, span } => Solve::Maximize {
            expr: clone_expr(expr),
            search_option: *search_option,
            span: *span,
        },
    }
}

fn clone_item(it: &Item) -> (r: Item)
    ensures
        view_item(r) == view_item(*it),
{
    match it {
        Item::EnumDef(d) => Item::EnumDef(
            crate::ast::EnumDef { name: d.name.clone(), values: clone_strings(&d.values), span: d.span },
        ),
        Item::VarDecl(d) => Item::VarDecl(clone_var_decl(d)),
        Item::Constraint(c) => Item::Constraint(Constraint { expr: clone_expr(&c.expr), span: c.span }),
        Item::Solve(s) => Item::Solve(clone_solve(s)),
        Item::Output(o) => Item::Output(Output { expr: clone_expr(&o.expr), span: o.span }),
    }
}

impl Clone for Expr {
    /// A copy with the same view.
    fn clone(&self) -> (r: Self)
        ensures
            r@ == self@,
    {
        clone_expr(self)
    }
}

impl Clone for ExprKind {
    /// A copy with the same view.
    fn clone(&self) -> (r: Self)
        ensures
            view_kind(r) == view_kind(*self),
    {
        clone_kind(self)
    }
}

impl Clone for Generator {
    /// A copy with the same view.
    fn clone(&self) -> (r: Self)
        ensures
            view_gen(r) == view_gen(*self),
    {
        clone_gen(self)
    }
}

impl Clone for TypeInst {
    /// A copy with the same view.
    fn clone(&self) -> (r: Self)
        ensures
            view_type_inst(r) == view_type_inst(*self),
    {
        clone_type_inst(self)
    }
}

impl Clone for VarDecl {
    /// A copy with the same view.
    fn clone(&self) -> (r: Self)
        ensures
            view_var_decl(r) == view_var_decl(*self),
    {
        clone_var_decl(self)
    }
}

impl Clone for Constraint {
    /// A copy with the same expression view and span.
    fn clone(&self) -> (r: Self)
        ensures
            view_expr(r.expr) == view_expr(self.expr),
            r.span == self.span,
    {
        Constraint { expr: clone_expr(&self.expr), span: self.span }
    }
}

impl Clone for Solve {
    /// A copy with the same view.
    fn clone(&self) -> (r: Self)
        ensures
            view_solve(r) == view_solve(*self),
    {
        clone_solve(self)
    }
}

impl Clone for Output {
    /// A copy with the same expression view and span.
    fn clone(&self) -> (r: Self)
        ensures
            view_expr(r.expr) == view_expr(self.expr),
            r.span == self.span,
    {
        Output { expr: clone_expr(&self.expr), span: self.span }
    }
}

impl Clone for Item {
    /// A copy with the same view.
    fn clone(&self) -> (r: Self)
        ensures
            view_item(r) == view_item(*self),
    {
        clone_item(self)
    }
}

impl Clone for Model {
    /// A copy with the same items.
    fn clone(&self) -> (r: Self)
        ensures
            r@ == self@,
    {
        let mut items: Vec<Item> = Vec::new();
        let mut i: usize = 0;
        assert(view_items(items@) =~= view_items(self.items@.subrange(0, 0)));
        while i < self.items.len()
            invariant
                i <= self.items.len(),
                view_items(items@) == view_items(self.items@.subrange(0, i as int)),
            decreases self.items.len() - i,
        {
            let it = clone_item(&self.items[i]);
            proof {
                lemma_view_items_push(items@, it);
                lemma_view_items_push(self.items@.subrange(0, i as int), self.items@[i as int]);
                assert(self.items@.subrange(0, i as int).push(self.items@[i as int]) =~= self.items@.subrange(
                    0,
                    i + 1,
                ));
            }
            items.push(it);
            i = i + 1;
        }
        assert(self.items@.subrange(0, self.items.len() as int) =~= self.items@);
        Model { items }
    }
}

} // verus!
