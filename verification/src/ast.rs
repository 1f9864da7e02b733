//! Abstract syntax tree of the supported MiniZinc subset, with a spec-level
//! view of every node (strings seen as character sequences).

use vstd::prelude::*;
use crate::text::{debug_quote, debug_quoted};

verus! {

/// Source location span (character offsets) for error reporting.
#[derive(Debug, Clone, Copy, PartialEq, Eq, Structural)]
pub struct Span {
    pub start: usize,
    pub end: usize,
}

impl Span {
    pub fn new(start: usize, end: usize) -> (s: Self)
        ensures
            s == (Span { start, end }),
    {
        Self { start, end }
    }

    pub fn dummy() -> (s: Self)
        ensures
            s == (Span { start: 0, end: 0 }),
    {
        Self { start: 0, end: 0 }
    }
}

/// A complete MiniZinc model.
#[derive(Debug, PartialEq)]
pub struct Model {
    pub items: Vec<Item>,
}

/// Top-level items of a model.
#[derive(Debug, PartialEq)]
pub enum Item {
    /// `enum Color = {Red, Green, Blue};`
    EnumDef(EnumDef),
    /// `int: n = 5;`
    VarDecl(VarDecl),
    /// `constraint x < y;`
    Constraint(Constraint),
    /// `solve satisfy;`, `solve minimize x;`
    Solve(Solve),
    /// `output [...];`
    Output(Output),
}

/// Enumerated type definition.
#[derive(Debug, Clone, PartialEq)]
pub struct EnumDef {
    pub name: String,
    pub values: Vec<String>,
    pub span: Span,
}

/// Variable or parameter declaration.
#[derive(Debug, PartialEq)]
pub struct VarDecl {
    pub type_inst: TypeInst,
    pub name: String,
    pub expr: Option<Expr>,
    pub span: Span,
}

/// Type-inst (type and instantiation).
#[derive(Debug, PartialEq)]
pub enum TypeInst {
    /// `bool`, `var int`, ...
    Basic { is_var: bool, base_type: BaseType },
    /// `var 1..10`, `var {1,3,5}`
    Constrained { is_var: bool, base_type: BaseType, domain: Expr },
    /// `array[1..n] of var int`, `array[1..n, 1..m] of var int`
    Array { index_sets: Vec<Expr>, element_type: Box<TypeInst> },
}

/// Base types.
#[derive(Debug, Clone, PartialEq, Eq)]
pub enum BaseType {
    Bool,
    Int,
    Float,
    /// Enumerated type, stored as an integer domain.
    Enum(String),
}

/// Constraint item.
#[derive(Debug, PartialEq)]
pub struct Constraint {
    pub expr: Expr,
    pub span: Span,
}

/// Search options of a solve item.
#[derive(Debug, Clone, Copy, PartialEq, Eq, Structural)]
pub enum SearchOption {
    /// Complete search.
    Complete,
    /// Incomplete search.
    Incomplete,
}

/// Solve item.
#[derive(Debug, PartialEq)]
pub enum Solve {
    Satisfy { search_option: Option<SearchOption>, span: Span },
    Minimize { expr: Expr, search_option: Option<SearchOption>, span: Span },
    Maximize { expr: Expr, search_option: Option<SearchOption>, span: Span },
}

/// Output item.
#[derive(Debug, PartialEq)]
pub struct Output {
    pub expr: Expr,
    pub span: Span,
}

/// Expressions.
#[derive(Debug, PartialEq)]
pub struct Expr {
    pub kind: ExprKind,
    pub span: Span,
}

/// Expression forms. A float literal keeps the digits it was written with.
#[allow(inconsistent_fields)]
#[derive(Debug, PartialEq)]
pub enum ExprKind {
    Ident(String),
    BoolLit(bool),
    IntLit(i64),
    FloatLit(String),
    StringLit(String),
    ArrayLit(Vec<Expr>),
    SetLit(Vec<Expr>),
    Range(Box<Expr>, Box<Expr>),
    ArrayAccess { array: Box<Expr>, indices: Vec<Expr> },
    BinOp { op: BinOp, left: Box<Expr>, right: Box<Expr> },
    UnOp { op: UnOp, expr: Box<Expr> },
    Call { name: String, args: Vec<Expr> },
    IfThenElse { cond: Box<Expr>, then_expr: Box<Expr>, else_expr: Option<Box<Expr>> },
    ArrayComp { expr: Box<Expr>, generators: Vec<Generator> },
    GenCall { name: String, generators: Vec<Generator>, body: Box<Expr> },
    Array2D { row_range: Box<Expr>, col_range: Box<Expr>, values: Box<Expr> },
    Array3D { r1_range: Box<Expr>, r2_range: Box<Expr>, r3_range: Box<Expr>, values: Box<Expr> },
    ImplicitIndexSet(BaseType),
}

/// Binary operators.
#[derive(Debug, Clone, Copy, PartialEq, Eq, Structural)]
pub enum BinOp {
    Add,
    Sub,
    Mul,
    Div,
    Mod,
    FDiv,
    Lt,
    Le,
    Gt,
    Ge,
    Eq,
    Ne,
    And,
    Or,
    Impl,
    Iff,
    Xor,
    In,
    Range,
}

/// Unary operators.
#[derive(Debug, Clone, Copy, PartialEq, Eq, Structural)]
pub enum UnOp {
    Neg,
    Not,
}

/// Generator of a comprehension: `i in 1..n where i > 0`.
#[derive(Debug, PartialEq)]
pub struct Generator {
    pub names: Vec<String>,
    pub expr: Expr,
    pub where_clause: Option<Expr>,
}

// ---------------------------------------------------------------------------
// Spec-level view of the tree.

pub enum BaseTypeV {
    Bool,
    Int,
    Float,
    Enum(Seq<char>),
}

pub struct ExprV {
    pub kind: ExprKindV,
    pub span: Span,
}

#[allow(inconsistent_fields)]
pub enum ExprKindV {
    Ident(Seq<char>),
    BoolLit(bool),
    IntLit(i64),
    FloatLit(Seq<char>),
    StringLit(Seq<char>),
    ArrayLit(Seq<ExprV>),
    SetLit(Seq<ExprV>),
    Range(Box<ExprV>, Box<ExprV>),
    ArrayAccess { array: Box<ExprV>, indices: Seq<ExprV> },
    BinOp { op: BinOp, left: Box<ExprV>, right: Box<ExprV> },
    UnOp { op: UnOp, expr: Box<ExprV> },
    Call { name: Seq<char>, args: Seq<ExprV> },
    IfThenElse { cond: Box<ExprV>, then_expr: Box<ExprV>, else_expr: Option<Box<ExprV>> },
    ArrayComp { expr: Box<ExprV>, generators: Seq<GeneratorV> },
    GenCall { name: Seq<char>, generators: Seq<GeneratorV>, body: Box<ExprV> },
    Array2D { row_range: Box<ExprV>, col_range: Box<ExprV>, values: Box<ExprV> },
    Array3D { r1_range: Box<ExprV>, r2_range: Box<ExprV>, r3_range: Box<ExprV>, values: Box<ExprV> },
    ImplicitIndexSet(BaseTypeV),
}

pub struct GeneratorV {
    pub names: Seq<Seq<char>>,
    pub expr: ExprV,
    pub where_clause: Option<ExprV>,
}

pub enum TypeInstV {
    Basic { is_var: bool, base_type: BaseTypeV },
    Constrained { is_var: bool, base_type: BaseTypeV, domain: ExprV },
    Array { index_sets: Seq<ExprV>, element_type: Box<TypeInstV> },
}

pub struct VarDeclV {
    pub type_inst: TypeInstV,
    pub name: Seq<char>,
    pub expr: Option<ExprV>,
    pub span: Span,
}

pub enum SolveV {
    Satisfy { search_option: Option<SearchOption>, span: Span },
    Minimize { expr: ExprV, search_option: Option<SearchOption>, span: Span },
    Maximize { expr: ExprV, search_option: Option<SearchOption>, span: Span },
}

pub enum ItemV {
    EnumDef { name: Seq<char>, values: Seq<Seq<char>>, span: Span },
    VarDecl(VarDeclV),
    Constraint { expr: ExprV, span: Span },
    Solve(SolveV),
    Output { expr: ExprV, span: Span },
}

pub open spec fn view_base(b: BaseType) -> BaseTypeV {
    match b {
        BaseType::Bool => BaseTypeV::Bool,
        BaseType::Int => BaseTypeV::Int,
        BaseType::Float => BaseTypeV::Float,
        BaseType::Enum(s) => BaseTypeV::Enum(s@),
    }
}

pub open spec fn view_strings(s: Seq<String>) -> Seq<Seq<char>> {
    Seq::new(s.len(), |i: int| s[i]@)
}

pub open spec fn view_exprs(s: Seq<Expr>) -> Seq<ExprV>
    decreases s,
{
    Seq::new(s.len(), |i: int| if 0 <= i < s.len() { view_expr(s[i]) } else { view_expr_default() })
}

pub open spec fn view_expr_default() -> ExprV {
    ExprV { kind: ExprKindV::BoolLit(false), span: Span { start: 0, end: 0 } }
}

pub open spec fn view_gens(s: Seq<Generator>) -> Seq<GeneratorV>
    decreases s,
{
    Seq::new(
        s.len(),
        |i: int|
            if 0 <= i < s.len() {
                view_gen(s[i])
            } else {
                GeneratorV { names: Seq::empty(), expr: view_expr_default(), where_clause: None }
            },
    )
}

pub open spec fn view_gen(g: Generator) -> GeneratorV
    decreases g,
{
    GeneratorV {
        names: view_strings(g.names@),
        expr: view_expr(g.expr),
        where_clause: match g.where_clause {
            Some(w) => Some(view_expr(w)),
            None => None,
        },
    }
}

pub open spec fn view_expr(e: Expr) -> ExprV
    decreases e,
{
    ExprV { kind: view_kind(e.kind), span: e.span }
}

pub open spec fn view_kind(k: ExprKind) -> ExprKindV
    decreases k,
{
    match k {
        ExprKind::Ident(s) => ExprKindV::Ident(s@),
        ExprKind::BoolLit(b) => ExprKindV::BoolLit(b),
        ExprKind::IntLit(i) => ExprKindV::IntLit(i),
        ExprKind::FloatLit(s) => ExprKindV::FloatLit(s@),
        ExprKind::StringLit(s) => ExprKindV::StringLit(s@),
        ExprKind::ArrayLit(v) => ExprKindV::ArrayLit(view_exprs(v@)),
        ExprKind::SetLit(v) => ExprKindV::SetLit(view_exprs(v@)),
        ExprKind::Range(a, b) => ExprKindV::Range(Box::new(view_expr(*a)), Box::new(view_expr(*b))),
        ExprKind::ArrayAccess { array, indices } => ExprKindV::ArrayAccess {
            array: Box::new(view_expr(*array)),
            indices: view_exprs(indices@),
        },
        ExprKind::BinOp { op, left, right } => ExprKindV::BinOp {
            op,
            left: Box::new(view_expr(*left)),
            right: Box::new(view_expr(*right)),
        },
        ExprKind::UnOp { op, expr } => ExprKindV::UnOp { op, expr: Box::new(view_expr(*expr)) },
        ExprKind::Call { name, args } => ExprKindV::Call { name: name@, args: view_exprs(args@) },
        ExprKind::IfThenElse { cond, then_expr, else_expr } => ExprKindV::IfThenElse {
            cond: Box::new(view_expr(*cond)),
            then_expr: Box::new(view_expr(*then_expr)),
            else_expr: match else_expr {
                Some(e) => Some(Box::new(view_expr(*e))),
                None => None,
            },
        },
        ExprKind::ArrayComp { expr, generators } => ExprKindV::ArrayComp {
            expr: Box::new(view_expr(*expr)),
            generators: view_gens(generators@),
        },
        ExprKind::GenCall { name, generators, body } => ExprKindV::GenCall {
            name: name@,
            generators: view_gens(generators@),
            body: Box::new(view_expr(*body)),
        },
        ExprKind::Array2D { row_range, col_range, values } => ExprKindV::Array2D {
            row_range: Box::new(view_expr(*row_range)),
            col_range: Box::new(view_expr(*col_range)),
            values: Box::new(view_expr(*values)),
        },
        ExprKind::Array3D { r1_range, r2_range, r3_range, values } => ExprKindV::Array3D {
            r1_range: Box::new(view_expr(*r1_range)),
            r2_range: Box::new(view_expr(*r2_range)),
            r3_range: Box::new(view_expr(*r3_range)),
            values: Box::new(view_expr(*values)),
        },
        ExprKind::ImplicitIndexSet(b) => ExprKindV::ImplicitIndexSet(view_base(b)),
    }
}

pub open spec fn view_type_inst(t: TypeInst) -> TypeInstV
    decreases t,
{
    match t {
        TypeInst::Basic { is_var, base_type } => TypeInstV::Basic { is_var, base_type: view_base(base_type) },
        TypeInst::Constrained { is_var, base_type, domain } => TypeInstV::Constrained {
            is_var,
            base_type: view_base(base_type),
            domain: view_expr(domain),
        },
        TypeInst::Array { index_sets, element_type } => TypeInstV::Array {
            index_sets: view_exprs(index_sets@),
            element_type: Box::new(view_type_inst(*element_type)),
        },
    }
}

pub open spec fn view_solve(s: Solve) -> SolveV {
    match s {
        Solve::Satisfy { search_option, span } => SolveV::Satisfy { search_option, span },
        Solve::Minimize { expr, search_option, span } => SolveV::Minimize { expr: view_expr(expr), search_option, span },
        Solve::Maximize { expr, search_option, span } => SolveV::Maximize { expr: view_expr(expr), search_option, span },
    }
}

pub open spec fn view_opt_expr(o: Option<Expr>) -> Option<ExprV> {
    match o {
        Some(e) => Some(view_expr(e)),
        None => None,
    }
}

pub open spec fn view_var_decl(d: VarDecl) -> VarDeclV {
    VarDeclV { type_inst: view_type_inst(d.type_inst), name: d.name@, expr: view_opt_expr(d.expr), span: d.span }
}

pub open spec fn view_item(it: Item) -> ItemV {
    match it {
        Item::EnumDef(d) => ItemV::EnumDef { name: d.name@, values: view_strings(d.values@), span: d.span },
        Item::VarDecl(d) => ItemV::VarDecl(view_var_decl(d)),
        Item::Constraint(c) => ItemV::Constraint { expr: view_expr(c.expr), span: c.span },
        Item::Solve(s) => ItemV::Solve(view_solve(s)),
        Item::Output(o) => ItemV::Output { expr: view_expr(o.expr), span: o.span },
    }
}

pub open spec fn view_items(s: Seq<Item>) -> Seq<ItemV> {
    Seq::new(s.len(), |i: int| view_item(s[i]))
}

impl View for Expr {
    type V = ExprV;

    open spec fn view(&self) -> ExprV {
        view_expr(*self)
    }
}

impl View for Model {
    type V = Seq<ItemV>;

    open spec fn view(&self) -> Seq<ItemV> {
        view_items(self.items@)
    }
}

/// The views of empty sequences are empty.
pub proof fn lemma_views_empty()
    ensures
        view_exprs(Seq::<Expr>::empty()) == Seq::<ExprV>::empty(),
        view_gens(Seq::<Generator>::empty()) == Seq::<GeneratorV>::empty(),
        view_strings(Seq::<String>::empty()) == Seq::<Seq<char>>::empty(),
        view_items(Seq::<Item>::empty()) == Seq::<ItemV>::empty(),
{
    assert(view_exprs(Seq::<Expr>::empty()) =~= Seq::<ExprV>::empty());
    assert(view_gens(Seq::<Generator>::empty()) =~= Seq::<GeneratorV>::empty());
    assert(view_strings(Seq::<String>::empty()) =~= Seq::<Seq<char>>::empty());
    assert(view_items(Seq::<Item>::empty()) =~= Seq::<ItemV>::empty());
}

pub proof fn lemma_view_exprs_push(s: Seq<Expr>, e: Expr)
    ensures
        view_exprs(s.push(e)) == view_exprs(s).push(view_expr(e)),
{
    assert(view_exprs(s.push(e)) =~= view_exprs(s).push(view_expr(e)));
}

pub proof fn lemma_view_gens_push(s: Seq<Generator>, g: Generator)
    ensures
        view_gens(s.push(g)) == view_gens(s).push(view_gen(g)),
{
    assert(view_gens(s.push(g)) =~= view_gens(s).push(view_gen(g)));
}

pub proof fn lemma_view_strings_push(s: Seq<String>, x: String)
    ensures
        view_strings(s.push(x)) == view_strings(s).push(x@),
{
    assert(view_strings(s.push(x)) =~= view_strings(s).push(x@));
}

pub proof fn lemma_view_items_push(s: Seq<Item>, x: Item)
    ensures
        view_items(s.push(x)) == view_items(s).push(view_item(x)),
{
    assert(view_items(s.push(x)) =~= view_items(s).push(view_item(x)));
}

/// Operator text as MiniZinc writes it.
pub open spec fn binop_text(op: BinOp) -> Seq<char> {
    match op {
        BinOp::Add => "+"@,
        BinOp::Sub => "-"@,
        BinOp::Mul => "*"@,
        BinOp::Div => "div"@,
        BinOp::Mod => "mod"@,
        BinOp::FDiv => "/"@,
        BinOp::Lt => "<"@,
        BinOp::Le => "<="@,
        BinOp::Gt => ">"@,
        BinOp::Ge => ">="@,
        BinOp::Eq => "=="@,
        BinOp::Ne => "!="@,
        BinOp::And => "/\\"@,
        BinOp::Or => "\\/"@,
        BinOp::Impl => "->"@,
        BinOp::Iff => "<->"@,
        BinOp::Xor => "xor"@,
        BinOp::In => "in"@,
        BinOp::Range => ".."@,
    }
}

impl BinOp {
    /// The operator as MiniZinc writes it.
    pub fn text(&self) -> (s: &'static str)
        ensures
            s@ == binop_text(*self),
    {
        match self {
            BinOp::Add => "+",
            BinOp::Sub => "-",
            BinOp::Mul => "*",
            BinOp::Div => "div",
            BinOp::Mod => "mod",
            BinOp::FDiv => "/",
            BinOp::Lt => "<",
            BinOp::Le => "<=",
            BinOp::Gt => ">",
            BinOp::Ge => ">=",
            BinOp::Eq => "==",
            BinOp::Ne => "!=",
            BinOp::And => "/\\",
            BinOp::Or => "\\/",
            BinOp::Impl => "->",
            BinOp::Iff => "<->",
            BinOp::Xor => "xor",
            BinOp::In => "in",
            BinOp::Range => "..",
        }
    }
}

pub open spec fn unop_text(op: UnOp) -> Seq<char> {
    match op {
        UnOp::Neg => "-"@,
        UnOp::Not => "not"@,
    }
}

impl UnOp {
    /// The operator as MiniZinc writes it.
    pub fn text(&self) -> (s: &'static str)
        ensures
            s@ == unop_text(*self),
    {
        match self {
            UnOp::Neg => "-",
            UnOp::Not => "not",
        }
    }
}

pub open spec fn base_type_text(b: BaseTypeV) -> Seq<char> {
    match b {
        BaseTypeV::Bool => "bool"@,
        BaseTypeV::Int => "int"@,
        BaseTypeV::Float => "float"@,
        BaseTypeV::Enum(n) => n,
    }
}

impl BaseType {
    /// The type's name as MiniZinc writes it.
    pub fn text(&self) -> (s: String)
        ensures
            s@ == base_type_text(view_base(*self)),
    {
        match self {
            BaseType::Bool => String::from_str("bool"),
            BaseType::Int => String::from_str("int"),
            BaseType::Float => String::from_str("float"),
            BaseType::Enum(name) => name.clone(),
        }
    }
}

/// Variant name of a binary operator (what `{:?}` prints).
pub open spec fn binop_debug(op: BinOp) -> Seq<char> {
    match op {
        BinOp::Add => "Add"@,
        BinOp::Sub => "Sub"@,
        BinOp::Mul => "Mul"@,
        BinOp::Div => "Div"@,
        BinOp::Mod => "Mod"@,
        BinOp::FDiv => "FDiv"@,
        BinOp::Lt => "Lt"@,
        BinOp::Le => "Le"@,
        BinOp::Gt => "Gt"@,
        BinOp::Ge => "Ge"@,
        BinOp::Eq => "Eq"@,
        BinOp::Ne => "Ne"@,
        BinOp::And => "And"@,
        BinOp::Or => "Or"@,
        BinOp::Impl => "Impl"@,
        BinOp::Iff => "Iff"@,
        BinOp::Xor => "Xor"@,
        BinOp::In => "In"@,
        BinOp::Range => "Range"@,
    }
}

impl BinOp {
    /// The variant's name, as `{:?}` prints it.
    pub fn debug_name(&self) -> (s: &'static str)
        ensures
            s@ == binop_debug(*self),
    {
        match self {
            BinOp::Add => "Add",
            BinOp::Sub => "Sub",
            BinOp::Mul => "Mul",
            BinOp::Div => "Div",
            BinOp::Mod => "Mod",
            BinOp::FDiv => "FDiv",
            BinOp::Lt => "Lt",
            BinOp::Le => "Le",
            BinOp::Gt => "Gt",
            BinOp::Ge => "Ge",
            BinOp::Eq => "Eq",
            BinOp::Ne => "Ne",
            BinOp::And => "And",
            BinOp::Or => "Or",
            BinOp::Impl => "Impl",
            BinOp::Iff => "Iff",
            BinOp::Xor => "Xor",
            BinOp::In => "In",
            BinOp::Range => "Range",
        }
    }
}

/// Variant name of a unary operator (what `{:?}` prints).
pub open spec fn unop_debug(op: UnOp) -> Seq<char> {
    match op {
        UnOp::Neg => "Neg"@,
        UnOp::Not => "Not"@,
    }
}

impl UnOp {
    /// The variant's name, as `{:?}` prints it.
    pub fn debug_name(&self) -> (s: &'static str)
        ensures
            s@ == unop_debug(*self),
    {
        match self {
            UnOp::Neg => "Neg",
            UnOp::Not => "Not",
        }
    }
}

/// What `{:?}` prints for a base type.
pub open spec fn base_type_debug(b: BaseTypeV) -> Seq<char> {
    match b {
        BaseTypeV::Bool => "Bool"@,
        BaseTypeV::Int => "Int"@,
        BaseTypeV::Float => "Float"@,
        BaseTypeV::Enum(n) => "Enum("@ + debug_quoted(n) + ")"@,
    }
}

impl BaseType {
    /// What `{:?}` prints for the base type.
    pub fn debug_text(&self) -> (s: String)
        ensures
            s@ == base_type_debug(view_base(*self)),
    {
        match self {
            BaseType::Bool => String::from_str("Bool"),
            BaseType::Int => String::from_str("Int"),
            BaseType::Float => String::from_str("Float"),
            BaseType::Enum(name) => {
                let q = debug_quote(name.as_str());
                let mut s = String::from_str("Enum(");
                s.append(q.as_str());
                s.append(")");
                s
            },
        }
    }
}

} // verus!
