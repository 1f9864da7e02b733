//! Recursive descent parser for the MiniZinc subset. Every parsing method
//! is proved to compute what the matching spec function of `grammar` says,
//! both its result and the state it leaves the parser in.

use vstd::prelude::*;
use crate::ast::{
    lemma_view_exprs_push, lemma_view_gens_push, lemma_views_empty, lemma_view_items_push, lemma_view_strings_push,
    view_exprs, view_gens, view_items, view_strings, view_type_inst, view_item, view_base, view_expr, view_kind, BaseType, BinOp,
    Constraint, Expr, ExprKind, Generator, Item, Model, Output, SearchOption, Solve, Span, TypeInst,
    UnOp, VarDecl,
};
use crate::error::{Error, ErrorV, Result};
use crate::grammar::{
    binding_power, binop_of, gen_scan, gen_start, initial_state, meas, p_advance, p_annotation_args,
    p_array2d, p_array3d, p_array_elems, p_array_lit, p_array_type_inst, p_call_args,
    p_close_annotation, p_expect, p_expect_ident, p_expr_bp, p_expr_list, p_gen_names,
    p_generators, p_index_sets, p_item, p_items, p_keyword_expr_item, p_postfix, p_postfix_loop,
    p_prefix, p_primary, p_search_annotation, p_set_lit, p_skip_to_goal, p_solve, p_type_inst,
    p_var_decl, p_binop_loop, p_call_suffix, p_expr_then, p_task, p_constraint, p_output, domain_base, search_option_of, with_text, CallArgs, PCtx, PState,
};
use crate::lexer::{lemma_next_token_progress, Lexer, Token, TokenKind};
use crate::text::str_eq;

verus! {

/// A parse result seen through `f`, the error through its view.
pub open spec fn lift<T, V>(r: Result<T>, f: spec_fn(T) -> V) -> core::result::Result<V, ErrorV> {
    match r {
        Ok(x) => Ok(f(x)),
        Err(e) => Err(e@),
    }
}

/// MiniZinc parser: a lexer, the current token, and the source text that
/// errors carry.
pub struct Parser {
    lexer: Lexer,
    current_token: Token,
    source: String,
}

/// Arguments of a call, or a finished generator call.
enum ParsedArgs {
    Args(Vec<Expr>),
    Gen(Expr),
}

spec fn view_args(a: ParsedArgs) -> CallArgs {
    match a {
        ParsedArgs::Args(v) => CallArgs::Args(view_exprs(v@)),
        ParsedArgs::Gen(g) => CallArgs::Gen(g@),
    }
}

impl Parser {
    /// The lexer's source and the text attached to errors.
    pub closed spec fn ctx(&self) -> PCtx {
        PCtx { src: self.lexer.text(), text: self.source@ }
    }

    /// The lexer's offset and the current token.
    pub closed spec fn state(&self) -> PState {
        PState { pos: self.lexer.position(), cur: self.current_token@ }
    }

    pub closed spec fn wf(&self) -> bool {
        self.lexer.wf()
    }

    /// A parser whose current token is the lexer's first token (end-of-file
    /// when that token is a lexical error).
    pub fn new(lexer: Lexer) -> (p: Self)
        ensures
            p.wf(),
            p.ctx() == (PCtx { src: lexer.text(), text: Seq::empty() }),
            p.state() == initial_state(lexer.text(), lexer.position()),
    {
        proof {
            use_type_invariant(&lexer);
        }
        let mut lexer = lexer;
        let current_token = match lexer.next_token() {
            Ok(t) => t,
            Err(_) => Token { kind: TokenKind::Eof, span: Span::dummy() },
        };
        Self { lexer, current_token, source: String::new() }
    }

    /// The same parser with `source` as the text attached to its errors.
    pub fn with_source(self, source: String) -> (p: Self)
        ensures
            p.wf() == self.wf(),
            p.ctx() == (PCtx { src: self.ctx().src, text: source@ }),
            p.state() == self.state(),
    {
        Self { source, ..self }
    }

    fn add_source_to_error(&self, error: Error) -> (e: Error)
        ensures
            e@ == with_text(self.ctx(), error@),
    {
        if !self.source.as_str().is_empty() {
            error.with_source(self.source.clone())
        } else {
            error
        }
    }

    fn is_eof(&self) -> (b: bool)
        ensures
            b == (self.state().cur.kind is Eof),
    {
        match self.current_token.kind {
            TokenKind::Eof => true,
            _ => false,
        }
    }

    fn at(&self, k: TokenKind) -> (b: bool)
        ensures
            b == (crate::lexer::token_tag(self.state().cur.kind) == crate::lexer::token_tag(k@)),
    {
        self.current_token.kind.tag() == k.tag()
    }

    fn advance(&mut self) -> (r: Result<()>)
        requires
            old(self).wf(),
        ensures
            kept(*old(self), *final(self)),
            r matches Err(e) ==> sourced(old(self).ctx(), e@),
            (lift(r, |x: ()| x), final(self).state()) === p_advance(old(self).ctx(), old(self).state()),
            r is Ok && !(old(self).state().cur.kind is Eof) ==> shrinks(*old(self), *final(self)),
    {
        proof {
            self.lexer.lemma_wf();
            lemma_next_token_progress(self.lexer.text(), self.lexer.position());
        }
        match self.lexer.next_token() {
            Ok(t) => {
                self.current_token = t;
                Ok(())
            },
            Err(e) => Err(self.add_source_to_error(e)),
        }
    }

    fn expect(&mut self, expected: TokenKind) -> (r: Result<()>)
        requires
            old(self).wf(),
            !(expected@ is Eof),
        ensures
            kept(*old(self), *final(self)),
            r matches Err(e) ==> sourced(old(self).ctx(), e@),
            (lift(r, |x: ()| x), final(self).state()) === p_expect(old(self).ctx(), old(self).state(), expected@),
            r is Ok ==> shrinks(*old(self), *final(self)),
    {
        if self.current_token.kind.tag() == expected.tag() {
            self.advance()
        } else {
            let span = if self.current_token.span.start > 0 {
                Span::new(self.current_token.span.start - 1, self.current_token.span.start)
            } else {
                self.current_token.span
            };
            let e = Error::unexpected_token(
                expected.debug_text().as_str(),
                self.current_token.kind.debug_text().as_str(),
                span,
            );
            Err(self.add_source_to_error(e))
        }
    }

    fn expect_ident(&mut self) -> (r: Result<String>)
        requires
            old(self).wf(),
        ensures
            kept(*old(self), *final(self)),
            r matches Err(e) ==> sourced(old(self).ctx(), e@),
            (lift(r, |x: String| x@), final(self).state()) === p_expect_ident(old(self).ctx(), old(self).state()),
            r is Ok ==> shrinks(*old(self), *final(self)),
    {
        match &self.current_token.kind {
            TokenKind::Ident(n) => {
                let name = n.clone();
                match self.advance() {
                    Ok(()) => Ok(name),
                    Err(e) => Err(e),
                }
            },
            _ => {
                let e = Error::unexpected_token(
                    "identifier",
                    self.current_token.kind.debug_text().as_str(),
                    self.current_token.span,
                );
                Err(self.add_source_to_error(e))
            },
        }
    }
}


fn binop_of_token(k: &TokenKind) -> (r: Option<BinOp>)
    ensures
        r == binop_of(k@),
{
    match k {
        TokenKind::Plus => Some(BinOp::Add),
        TokenKind::Minus => Some(BinOp::Sub),
        TokenKind::Star => Some(BinOp::Mul),
        TokenKind::Slash => Some(BinOp::FDiv),
        TokenKind::Div => Some(BinOp::Div),
        TokenKind::Mod => Some(BinOp::Mod),
        TokenKind::Lt => Some(BinOp::Lt),
        TokenKind::Le => Some(BinOp::Le),
        TokenKind::Gt => Some(BinOp::Gt),
        TokenKind::Ge => Some(BinOp::Ge),
        TokenKind::Eq => Some(BinOp::Eq),
        TokenKind::Ne => Some(BinOp::Ne),
        TokenKind::And => Some(BinOp::And),
        TokenKind::Or => Some(BinOp::Or),
        TokenKind::Impl => Some(BinOp::Impl),
        TokenKind::Iff => Some(BinOp::Iff),
        TokenKind::Xor => Some(BinOp::Xor),
        TokenKind::In => Some(BinOp::In),
        TokenKind::DotDot => Some(BinOp::Range),
        _ => None,
    }
}

fn binding_power_of(op: BinOp) -> (r: (u8, u8))
    ensures
        r == binding_power(op),
{
    match op {
        BinOp::Iff => (2, 1),
        BinOp::Impl => (4, 3),
        BinOp::Or => (6, 5),
        BinOp::Xor => (6, 5),
        BinOp::And => (8, 7),
        BinOp::Lt | BinOp::Le | BinOp::Gt | BinOp::Ge | BinOp::Eq | BinOp::Ne => (10, 9),
        BinOp::In => (10, 9),
        BinOp::Range => (12, 11),
        BinOp::Add | BinOp::Sub => (14, 13),
        BinOp::Mul | BinOp::Div | BinOp::Mod | BinOp::FDiv => (16, 15),
    }
}

impl Parser {
    /// An expression: operators bind by precedence, all of them left to right.
    fn parse_expr(&mut self) -> (r: Result<Expr>)
        requires
            old(self).wf(),
        ensures
            kept(*old(self), *final(self)),
            r matches Err(e) ==> sourced(old(self).ctx(), e@),
            (lift(r, |x: Expr| x@), final(self).state()) === p_expr_bp(old(self).ctx(), old(self).state(), 0),
            r is Ok ==> shrinks(*old(self), *final(self)),
        decreases meas(old(self).ctx(), old(self).state()), 7nat,
    {
        self.parse_expr_bp(0)
    }

    fn parse_expr_bp(&mut self, min_bp: u8) -> (r: Result<Expr>)
        requires
            old(self).wf(),
        ensures
            kept(*old(self), *final(self)),
            r matches Err(e) ==> sourced(old(self).ctx(), e@),
            (lift(r, |x: Expr| x@), final(self).state()) === p_expr_bp(old(self).ctx(), old(self).state(), min_bp),
            r is Ok ==> shrinks(*old(self), *final(self)),
        decreases meas(old(self).ctx(), old(self).state()), 6nat,
    {
        proof {
            reveal_with_fuel(p_task, 1);
        }
        let start = self.current_token.span.start;
        match self.parse_prefix_expr() {
            Err(e) => Err(e),
            Ok(lhs) => self.parse_binop_loop(min_bp, start, lhs),
        }
    }

    fn parse_binop_loop(&mut self, min_bp: u8, start: usize, lhs: Expr) -> (r: Result<Expr>)
        requires
            old(self).wf(),
        ensures
            kept(*old(self), *final(self)),
            r matches Err(e) ==> sourced(old(self).ctx(), e@),
            (lift(r, |x: Expr| x@), final(self).state()) === p_binop_loop(
                old(self).ctx(),
                old(self).state(),
                min_bp,
                start,
                lhs@,
            ),
        decreases meas(old(self).ctx(), old(self).state()), 6nat,
    {
        proof {
            reveal_with_fuel(p_task, 1);
        }
        match binop_of_token(&self.current_token.kind) {
            None => Ok(lhs),
            Some(op) => {
                let (l_bp, r_bp) = binding_power_of(op);
                if l_bp < min_bp {
                    Ok(lhs)
                } else {
                    match self.advance() {
                        Err(e) => Err(e),
                        Ok(()) => match self.parse_expr_bp(r_bp) {
                            Err(e) => Err(e),
                            Ok(rhs) => {
                                let end = rhs.span.end;
                                let e2 = Expr {
                                    kind: ExprKind::BinOp { op, left: Box::new(lhs), right: Box::new(rhs) },
                                    span: Span::new(start, end),
                                };
                                self.parse_binop_loop(min_bp, start, e2)
                            },
                        },
                    }
                }
            },
        }
    }

    fn parse_prefix_expr(&mut self) -> (r: Result<Expr>)
        requires
            old(self).wf(),
        ensures
            kept(*old(self), *final(self)),
            r matches Err(e) ==> sourced(old(self).ctx(), e@),
            (lift(r, |x: Expr| x@), final(self).state()) === p_prefix(old(self).ctx(), old(self).state()),
            r is Ok ==> shrinks(*old(self), *final(self)),
        decreases meas(old(self).ctx(), old(self).state()), 5nat,
    {
        proof {
            reveal_with_fuel(p_task, 1);
        }
        let start = self.current_token.span.start;
        let op = match self.current_token.kind {
            TokenKind::Minus => Some(UnOp::Neg),
            TokenKind::Not => Some(UnOp::Not),
            _ => None,
        };
        match op {
            None => self.parse_postfix_expr(),
            Some(op) => match self.advance() {
                Err(e) => Err(e),
                Ok(()) => match self.parse_prefix_expr() {
                    Err(e) => Err(e),
                    Ok(x) => {
                        let end = x.span.end;
                        Ok(Expr { kind: ExprKind::UnOp { op, expr: Box::new(x) }, span: Span::new(start, end) })
                    },
                },
            },
        }
    }

    fn parse_postfix_expr(&mut self) -> (r: Result<Expr>)
        requires
            old(self).wf(),
        ensures
            kept(*old(self), *final(self)),
            r matches Err(e) ==> sourced(old(self).ctx(), e@),
            (lift(r, |x: Expr| x@), final(self).state()) === p_postfix(old(self).ctx(), old(self).state()),
            r is Ok ==> shrinks(*old(self), *final(self)),
        decreases meas(old(self).ctx(), old(self).state()), 4nat,
    {
        proof {
            reveal_with_fuel(p_task, 1);
        }
        match self.parse_primary_expr() {
            Err(e) => Err(e),
            Ok(x) => self.parse_postfix_loop(x),
        }
    }

    #[verifier::spinoff_prover]
    #[verifier::rlimit(40)]
    fn parse_postfix_loop(&mut self, x: Expr) -> (r: Result<Expr>)
        requires
            old(self).wf(),
        ensures
            kept(*old(self), *final(self)),
            r matches Err(e) ==> sourced(old(self).ctx(), e@),
            (lift(r, |x: Expr| x@), final(self).state()) === p_postfix_loop(old(self).ctx(), old(self).state(), x@),
        decreases meas(old(self).ctx(), old(self).state()), 1nat,
    {
        proof {
            reveal_with_fuel(p_task, 1);
        }
        proof {
            lemma_views_empty();
        }
        match self.current_token.kind {
            TokenKind::LBracket => match self.advance() {
                Err(e) => Err(e),
                Ok(()) => match self.parse_expr_list(Vec::new()) {
                    Err(e) => Err(e),
                    Ok(indices) => match self.expect(TokenKind::RBracket) {
                        Err(e) => Err(e),
                        Ok(()) => {
                            let start = x.span.start;
                            let end = self.current_token.span.end;
                            let x2 = Expr {
                                kind: ExprKind::ArrayAccess { array: Box::new(x), indices },
                                span: Span::new(start, end),
                            };
                            self.parse_postfix_loop(x2)
                        },
                    },
                },
            },
            TokenKind::LParen => {
                let name = match &x.kind {
                    ExprKind::Ident(n) => n.clone(),
                    _ => {
                        return Ok(x);
                    },
                };
                let start = x.span.start;
                match self.advance() {
                    Err(e) => Err(e),
                    Ok(()) => match self.parse_call_suffix(&name, start) {
                        Err(e) => Err(e),
                        Ok((x2, more)) => if more {
                            self.parse_postfix_loop(x2)
                        } else {
                            Ok(x2)
                        },
                    },
                }
            },
            _ => Ok(x),
        }
    }

    /// `e, e, ..., e`, appended to `acc`.
    fn parse_expr_list(&mut self, acc: Vec<Expr>) -> (r: Result<Vec<Expr>>)
        requires
            old(self).wf(),
        ensures
            kept(*old(self), *final(self)),
            r matches Err(e) ==> sourced(old(self).ctx(), e@),
            (lift(r, |v: Vec<Expr>| view_exprs(v@)), final(self).state()) === p_expr_list(
                old(self).ctx(),
                old(self).state(),
                view_exprs(acc@),
            ),
        decreases meas(old(self).ctx(), old(self).state()), 8nat,
    {
        proof {
            reveal_with_fuel(p_task, 1);
        }
        match self.parse_expr() {
            Err(e) => Err(e),
            Ok(x) => {
                let mut acc = acc;
                proof {
                    lemma_view_exprs_push(acc@, x);
                }
                acc.push(x);
                if self.at(TokenKind::Comma) {
                    match self.advance() {
                        Err(e) => Err(e),
                        Ok(()) => self.parse_expr_list(acc),
                    }
                } else {
                    Ok(acc)
                }
            },
        }
    }

    /// What follows `name(`; the flag says whether postfix operators may
    /// follow.
    fn parse_call_suffix(&mut self, name: &String, start: usize) -> (r: Result<(Expr, bool)>)
        requires
            old(self).wf(),
        ensures
            kept(*old(self), *final(self)),
            r matches Err(e) ==> sourced(old(self).ctx(), e@),
            (lift(r, |p: (Expr, bool)| (p.0@, p.1)), final(self).state()) === p_call_suffix(
                old(self).ctx(),
                old(self).state(),
                name@,
                start,
            ),
        decreases meas(old(self).ctx(), old(self).state()), 10nat,
    {
        proof {
            reveal_with_fuel(p_task, 1);
        }
        proof {
            lemma_views_empty();
        }
        if str_eq(name.as_str(), "array2d") {
            match self.parse_array2d(start) {
                Err(e) => Err(e),
                Ok(x) => Ok((x, true)),
            }
        } else if str_eq(name.as_str(), "array3d") {
            match self.parse_array3d(start) {
                Err(e) => Err(e),
                Ok(x) => Ok((x, true)),
            }
        } else {
            let ra = if self.at(TokenKind::RParen) {
                Ok(ParsedArgs::Args(Vec::new()))
            } else {
                self.parse_call_args(name, start, Vec::new())
            };
            match ra {
                Err(e) => Err(e),
                Ok(ParsedArgs::Gen(g)) => Ok((g, false)),
                Ok(ParsedArgs::Args(args)) => match self.expect(TokenKind::RParen) {
                    Err(e) => Err(e),
                    Ok(()) => {
                        let end = self.current_token.span.end;
                        Ok((Expr { kind: ExprKind::Call { name: name.clone(), args }, span: Span::new(start, end) }, true))
                    },
                },
            }
        }
    }

    /// An expression, then a token of the variant of `k`.
    fn parse_expr_then(&mut self, k: TokenKind) -> (r: Result<Expr>)
        requires
            old(self).wf(),
            !(k@ is Eof),
        ensures
            kept(*old(self), *final(self)),
            r matches Err(e) ==> sourced(old(self).ctx(), e@),
            (lift(r, |x: Expr| x@), final(self).state()) === p_expr_then(old(self).ctx(), old(self).state(), k@),
            r is Ok ==> shrinks(*old(self), *final(self)),
        decreases meas(old(self).ctx(), old(self).state()), 8nat,
    {
        proof {
            reveal_with_fuel(p_task, 1);
        }
        match self.parse_expr() {
            Err(e) => Err(e),
            Ok(x) => match self.expect(k) {
                Err(e) => Err(e),
                Ok(()) => Ok(x),
            },
        }
    }

    fn parse_array2d(&mut self, start: usize) -> (r: Result<Expr>)
        requires
            old(self).wf(),
        ensures
            kept(*old(self), *final(self)),
            r matches Err(e) ==> sourced(old(self).ctx(), e@),
            (lift(r, |x: Expr| x@), final(self).state()) === p_array2d(old(self).ctx(), old(self).state(), start),
        decreases meas(old(self).ctx(), old(self).state()), 9nat,
    {
        proof {
            reveal_with_fuel(p_task, 1);
        }
        let a = match self.parse_expr_then(TokenKind::Comma) {
            Err(e) => return Err(e),
            Ok(a) => a,
        };
        let b = match self.parse_expr_then(TokenKind::Comma) {
            Err(e) => return Err(e),
            Ok(b) => b,
        };
        let v = match self.parse_expr_then(TokenKind::RParen) {
            Err(e) => return Err(e),
            Ok(v) => v,
        };
        let end = self.current_token.span.end;
        Ok(Expr {
            kind: ExprKind::Array2D { row_range: Box::new(a), col_range: Box::new(b), values: Box::new(v) },
            span: Span::new(start, end),
        })
    }

    fn parse_array3d(&mut self, start: usize) -> (r: Result<Expr>)
        requires
            old(self).wf(),
        ensures
            kept(*old(self), *final(self)),
            r matches Err(e) ==> sourced(old(self).ctx(), e@),
            (lift(r, |x: Expr| x@), final(self).state()) === p_array3d(old(self).ctx(), old(self).state(), start),
        decreases meas(old(self).ctx(), old(self).state()), 9nat,
    {
        proof {
            reveal_with_fuel(p_task, 1);
        }
        let a = match self.parse_expr_then(TokenKind::Comma) {
            Err(e) => return Err(e),
            Ok(a) => a,
        };
        let b = match self.parse_expr_then(TokenKind::Comma) {
            Err(e) => return Err(e),
            Ok(b) => b,
        };
        let d = match self.parse_expr_then(TokenKind::Comma) {
            Err(e) => return Err(e),
            Ok(d) => d,
        };
        let v = match self.parse_expr_then(TokenKind::RParen) {
            Err(e) => return Err(e),
            Ok(v) => v,
        };
        let end = self.current_token.span.end;
        Ok(Expr {
            kind: ExprKind::Array3D {
                r1_range: Box::new(a),
                r2_range: Box::new(b),
                r3_range: Box::new(d),
                values: Box::new(v),
            },
            span: Span::new(start, end),
        })
    }
}


impl Parser {
    /// Call arguments after `(` (the current token is not `)`): a generator
    /// call `name(generators)(body)`, or expressions separated by commas.
    fn parse_call_args(&mut self, name: &String, start: usize, acc: Vec<Expr>) -> (r: Result<ParsedArgs>)
        requires
            old(self).wf(),
        ensures
            kept(*old(self), *final(self)),
            r matches Err(e) ==> sourced(old(self).ctx(), e@),
            (lift(r, |a: ParsedArgs| view_args(a)), final(self).state()) === p_call_args(
                old(self).ctx(),
                old(self).state(),
                name@,
                start,
                view_exprs(acc@),
            ),
        decreases meas(old(self).ctx(), old(self).state()), 8nat,
    {
        proof {
            reveal_with_fuel(p_task, 1);
        }
        proof {
            lemma_views_empty();
        }
        if self.is_generator_start() {
            let gens = match self.parse_generators(Vec::new()) {
                Err(e) => return Err(e),
                Ok(g) => g,
            };
            match self.expect(TokenKind::RParen) {
                Err(e) => return Err(e),
                Ok(()) => {},
            }
            match self.expect(TokenKind::LParen) {
                Err(e) => return Err(e),
                Ok(()) => {},
            }
            let body = match self.parse_expr_then(TokenKind::RParen) {
                Err(e) => return Err(e),
                Ok(b) => b,
            };
            let end = self.current_token.span.end;
            Ok(ParsedArgs::Gen(Expr {
                kind: ExprKind::GenCall { name: name.clone(), generators: gens, body: Box::new(body) },
                span: Span::new(start, end),
            }))
        } else {
            match self.parse_expr() {
                Err(e) => Err(e),
                Ok(a) => {
                    let mut acc = acc;
                    proof {
                        lemma_view_exprs_push(acc@, a);
                    }
                    acc.push(a);
                    if self.at(TokenKind::Comma) {
                        match self.advance() {
                            Err(e) => Err(e),
                            Ok(()) => self.parse_call_args(name, start, acc),
                        }
                    } else {
                        Ok(ParsedArgs::Args(acc))
                    }
                },
            }
        }
    }

    /// Whether a generator starts at the current token: an identifier, and
    /// `in` ahead before a `)` or `,` at nesting depth zero. Looks ahead on a
    /// copy of the lexer.
    fn is_generator_start(&self) -> (b: bool)
        requires
            self.wf(),
        ensures
            b == gen_start(self.ctx(), self.state()),
    {
        match &self.current_token.kind {
            TokenKind::Ident(_) => {},
            _ => {
                return false;
            },
        }
        let ghost src = self.lexer.text();
        let ghost pos0 = self.lexer.position();
        let mut look = self.lexer.snapshot();
        let mut depth: usize = 0;
        proof {
            look.lemma_wf();
        }
        loop
            invariant
                look.wf(),
                look.text() == src,
                src == self.lexer.text(),
                pos0 == self.lexer.position(),
                depth <= look.position(),
                gen_scan(src, look.position(), depth as nat) == gen_scan(src, pos0, 0),
                gen_start(self.ctx(), self.state()) == gen_scan(src, pos0, 0),
            decreases src.len() - look.position(),
        {
            proof {
                look.lemma_wf();
                lemma_next_token_progress(src, look.position());
            }
            let ghost p = look.position();
            match look.next_token() {
                Err(_) => {
                    return false;
                },
                Ok(t) => match t.kind {
                    TokenKind::In => {
                        if depth == 0 {
                            return true;
                        }
                    },
                    TokenKind::LParen => {
                        depth = depth + 1;
                    },
                    TokenKind::RParen => {
                        if depth > 0 {
                            depth = depth - 1;
                        } else {
                            return false;
                        }
                    },
                    TokenKind::Comma => {
                        if depth == 0 {
                            return false;
                        }
                    },
                    TokenKind::Eof => {
                        return false;
                    },
                    _ => {},
                },
            }
        }
    }

    /// Further names of a generator: `, j, k`.
    fn parse_gen_names(&mut self, acc: Vec<String>) -> (r: Result<Vec<String>>)
        requires
            old(self).wf(),
        ensures
            kept(*old(self), *final(self)),
            r matches Err(e) ==> sourced(old(self).ctx(), e@),
            (lift(r, |v: Vec<String>| view_strings(v@)), final(self).state()) === p_gen_names(
                old(self).ctx(),
                old(self).state(),
                view_strings(acc@),
            ),
        decreases meas(old(self).ctx(), old(self).state()),
    {
        proof {
            reveal_with_fuel(p_task, 1);
        }
        if self.at(TokenKind::Comma) {
            match self.advance() {
                Err(e) => Err(e),
                Ok(()) => {
                    if self.at(TokenKind::In) {
                        Ok(acc)
                    } else {
                        match self.expect_ident() {
                            Err(e) => Err(e),
                            Ok(n) => {
                                let mut acc = acc;
                                proof {
                                    lemma_view_strings_push(acc@, n);
                                }
                                acc.push(n);
                                self.parse_gen_names(acc)
                            },
                        }
                    }
                },
            }
        } else {
            Ok(acc)
        }
    }

    /// Generators `i in e where w, j in f, ...`, appended to `acc`.
    #[verifier::spinoff_prover]
    fn parse_generators(&mut self, acc: Vec<Generator>) -> (r: Result<Vec<Generator>>)
        requires
            old(self).wf(),
        ensures
            kept(*old(self), *final(self)),
            r matches Err(e) ==> sourced(old(self).ctx(), e@),
            (lift(r, |v: Vec<Generator>| view_gens(v@)), final(self).state()) === p_generators(
                old(self).ctx(),
                old(self).state(),
                view_gens(acc@),
            ),
        decreases meas(old(self).ctx(), old(self).state()), 0nat,
    {
        proof {
            reveal_with_fuel(p_task, 1);
        }
        let n = match self.expect_ident() {
            Err(e) => return Err(e),
            Ok(n) => n,
        };
        let mut first: Vec<String> = Vec::new();
        proof {
            lemma_view_strings_push(first@, n);
            assert(view_strings(first@.push(n)) =~= seq![n@]);
        }
        first.push(n);
        let names = match self.parse_gen_names(first) {
            Err(e) => return Err(e),
            Ok(v) => v,
        };
        match self.expect(TokenKind::In) {
            Err(e) => return Err(e),
            Ok(()) => {},
        }
        let x = match self.parse_expr() {
            Err(e) => return Err(e),
            Ok(x) => x,
        };
        let w = if self.at(TokenKind::Where) {
            match self.advance() {
                Err(e) => return Err(e),
                Ok(()) => {},
            }
            match self.parse_expr() {
                Err(e) => return Err(e),
                Ok(w) => Some(w),
            }
        } else {
            None
        };
        let g = Generator { names, expr: x, where_clause: w };
        let mut acc = acc;
        proof {
            lemma_view_gens_push(acc@, g);
        }
        acc.push(g);
        if self.at(TokenKind::Comma) {
            match self.advance() {
                Err(e) => Err(e),
                Ok(()) => self.parse_generators(acc),
            }
        } else {
            Ok(acc)
        }
    }

    fn parse_primary_expr(&mut self) -> (r: Result<Expr>)
        requires
            old(self).wf(),
        ensures
            kept(*old(self), *final(self)),
            r matches Err(e) ==> sourced(old(self).ctx(), e@),
            (lift(r, |x: Expr| x@), final(self).state()) === p_primary(old(self).ctx(), old(self).state()),
            r is Ok ==> shrinks(*old(self), *final(self)),
        decreases meas(old(self).ctx(), old(self).state()), 3nat,
    {
        proof {
            reveal_with_fuel(p_task, 1);
        }
        let start = self.current_token.span.start;
        let lit = match &self.current_token.kind {
            TokenKind::BoolLit(b) => Some(ExprKind::BoolLit(*b)),
            TokenKind::IntLit(i) => Some(ExprKind::IntLit(*i)),
            TokenKind::FloatLit(t) => Some(ExprKind::FloatLit(t.clone())),
            TokenKind::StringLit(s) => Some(ExprKind::StringLit(s.clone())),
            TokenKind::Ident(n) => Some(ExprKind::Ident(n.clone())),
            _ => None,
        };
        match lit {
            Some(k) => match self.advance() {
                Err(e) => Err(e),
                Ok(()) => {
                    let end = self.current_token.span.end;
                    Ok(Expr { kind: k, span: Span::new(start, end) })
                },
            },
            None => match self.current_token.kind {
                TokenKind::LParen => match self.advance() {
                    Err(e) => Err(e),
                    Ok(()) => self.parse_expr_then(TokenKind::RParen),
                },
                TokenKind::LBracket => self.parse_array_literal_or_comp(),
                TokenKind::LBrace => self.parse_set_literal(),
                _ => {
                    let e = Error::unexpected_token(
                        "expression",
                        self.current_token.kind.debug_text().as_str(),
                        self.current_token.span,
                    );
                    Err(self.add_source_to_error(e))
                },
            },
        }
    }

    /// `, e` repeated after the first element of an array literal, appended
    /// to `acc`; a `,` directly before `]` is allowed.
    fn parse_array_elems(&mut self, acc: Vec<Expr>) -> (r: Result<Vec<Expr>>)
        requires
            old(self).wf(),
        ensures
            kept(*old(self), *final(self)),
            r matches Err(e) ==> sourced(old(self).ctx(), e@),
            (lift(r, |v: Vec<Expr>| view_exprs(v@)), final(self).state()) === p_array_elems(
                old(self).ctx(),
                old(self).state(),
                view_exprs(acc@),
            ),
        decreases meas(old(self).ctx(), old(self).state()), 0nat,
    {
        proof {
            reveal_with_fuel(p_task, 1);
        }
        if self.at(TokenKind::Comma) {
            match self.advance() {
                Err(e) => Err(e),
                Ok(()) => {
                    if self.at(TokenKind::RBracket) {
                        Ok(acc)
                    } else {
                        match self.parse_expr() {
                            Err(e) => Err(e),
                            Ok(x) => {
                                let mut acc = acc;
                                proof {
                                    lemma_view_exprs_push(acc@, x);
                                }
                                acc.push(x);
                                self.parse_array_elems(acc)
                            },
                        }
                    }
                },
            }
        } else {
            Ok(acc)
        }
    }

    /// `[]`, `[e, ...]` or `[e | generators]`.
    #[verifier::spinoff_prover]
    fn parse_array_literal_or_comp(&mut self) -> (r: Result<Expr>)
        requires
            old(self).wf(),
        ensures
            kept(*old(self), *final(self)),
            r matches Err(e) ==> sourced(old(self).ctx(), e@),
            (lift(r, |x: Expr| x@), final(self).state()) === p_array_lit(old(self).ctx(), old(self).state()),
            r is Ok ==> shrinks(*old(self), *final(self)),
        decreases meas(old(self).ctx(), old(self).state()), 2nat,
    {
        proof {
            reveal_with_fuel(p_task, 1);
        }
        proof {
            lemma_views_empty();
        }
        let start = self.current_token.span.start;
        match self.expect(TokenKind::LBracket) {
            Err(e) => return Err(e),
            Ok(()) => {},
        }
        if self.at(TokenKind::RBracket) {
            return match self.advance() {
                Err(e) => Err(e),
                Ok(()) => {
                    let end = self.current_token.span.end;
                    Ok(Expr { kind: ExprKind::ArrayLit(Vec::new()), span: Span::new(start, end) })
                },
            };
        }
        let first = match self.parse_expr() {
            Err(e) => return Err(e),
            Ok(x) => x,
        };
        if self.at(TokenKind::Pipe) {
            match self.advance() {
                Err(e) => return Err(e),
                Ok(()) => {},
            }
            let gens = match self.parse_generators(Vec::new()) {
                Err(e) => return Err(e),
                Ok(g) => g,
            };
            match self.expect(TokenKind::RBracket) {
                Err(e) => return Err(e),
                Ok(()) => {},
            }
            let end = self.current_token.span.end;
            Ok(Expr {
                kind: ExprKind::ArrayComp { expr: Box::new(first), generators: gens },
                span: Span::new(start, end),
            })
        } else {
            let mut one: Vec<Expr> = Vec::new();
            proof {
                lemma_view_exprs_push(one@, first);
                assert(view_exprs(one@.push(first)) =~= seq![first@]);
            }
            one.push(first);
            let elems = match self.parse_array_elems(one) {
                Err(e) => return Err(e),
                Ok(v) => v,
            };
            match self.expect(TokenKind::RBracket) {
                Err(e) => return Err(e),
                Ok(()) => {},
            }
            let end = self.current_token.span.end;
            Ok(Expr { kind: ExprKind::ArrayLit(elems), span: Span::new(start, end) })
        }
    }

    /// `{}` or `{e, ...}`.
    fn parse_set_literal(&mut self) -> (r: Result<Expr>)
        requires
            old(self).wf(),
        ensures
            kept(*old(self), *final(self)),
            r matches Err(e) ==> sourced(old(self).ctx(), e@),
            (lift(r, |x: Expr| x@), final(self).state()) === p_set_lit(old(self).ctx(), old(self).state()),
            r is Ok ==> shrinks(*old(self), *final(self)),
        decreases meas(old(self).ctx(), old(self).state()), 2nat,
    {
        proof {
            reveal_with_fuel(p_task, 1);
        }
        proof {
            lemma_views_empty();
        }
        let start = self.current_token.span.start;
        match self.expect(TokenKind::LBrace) {
            Err(e) => return Err(e),
            Ok(()) => {},
        }
        let elems = if self.at(TokenKind::RBrace) {
            Vec::new()
        } else {
            match self.parse_expr_list(Vec::new()) {
                Err(e) => return Err(e),
                Ok(v) => v,
            }
        };
        match self.expect(TokenKind::RBrace) {
            Err(e) => return Err(e),
            Ok(()) => {},
        }
        let end = self.current_token.span.end;
        Ok(Expr { kind: ExprKind::SetLit(elems), span: Span::new(start, end) })
    }
}

fn domain_base_of(d: &Expr) -> (b: BaseType)
    ensures
        view_base(b) == domain_base(d@),
{
    let left = match &d.kind {
        ExprKind::BinOp { op: BinOp::Range, left, .. } => left,
        ExprKind::Range(left, _) => left,
        _ => {
            return BaseType::Int;
        },
    };
    proof {
        assert(d@.kind == view_kind(d.kind));
        assert(view_expr(**left).kind == view_kind(left.kind));
    }
    match &left.kind {
        ExprKind::FloatLit(_) => BaseType::Float,
        _ => BaseType::Int,
    }
}

fn search_option_named(n: &String) -> (r: Option<SearchOption>)
    ensures
        r == search_option_of(n@),
{
    if str_eq(n.as_str(), "complete") {
        Some(SearchOption::Complete)
    } else if str_eq(n.as_str(), "incomplete") {
        Some(SearchOption::Incomplete)
    } else {
        None
    }
}

impl Parser {
    /// Index sets of an array type, appended to `acc`.
    fn parse_index_sets(&mut self, acc: Vec<Expr>) -> (r: Result<Vec<Expr>>)
        requires
            old(self).wf(),
        ensures
            kept(*old(self), *final(self)),
            r matches Err(e) ==> sourced(old(self).ctx(), e@),
            (lift(r, |v: Vec<Expr>| view_exprs(v@)), final(self).state()) === p_index_sets(
                old(self).ctx(),
                old(self).state(),
                view_exprs(acc@),
            ),
        decreases meas(old(self).ctx(), old(self).state()),
    {
        let implicit = match self.current_token.kind {
            TokenKind::Int => Some(BaseType::Int),
            TokenKind::Bool => Some(BaseType::Bool),
            TokenKind::Float => Some(BaseType::Float),
            _ => None,
        };
        let x = match implicit {
            Some(b) => {
                let span = self.current_token.span;
                match self.advance() {
                    Err(e) => return Err(e),
                    Ok(()) => Expr { kind: ExprKind::ImplicitIndexSet(b), span },
                }
            },
            None => match self.parse_expr() {
                Err(e) => return Err(e),
                Ok(x) => x,
            },
        };
        let mut acc = acc;
        proof {
            lemma_view_exprs_push(acc@, x);
        }
        acc.push(x);
        if self.at(TokenKind::Comma) {
            match self.advance() {
                Err(e) => Err(e),
                Ok(()) => self.parse_index_sets(acc),
            }
        } else {
            Ok(acc)
        }
    }

    /// `array[index sets] of type-inst`.
    fn parse_array_type_inst(&mut self) -> (r: Result<TypeInst>)
        requires
            old(self).wf(),
        ensures
            kept(*old(self), *final(self)),
            r matches Err(e) ==> sourced(old(self).ctx(), e@),
            (lift(r, |t: TypeInst| view_type_inst(t)), final(self).state()) === p_array_type_inst(
                old(self).ctx(),
                old(self).state(),
            ),
            r is Ok ==> shrinks(*old(self), *final(self)),
        decreases meas(old(self).ctx(), old(self).state()), 0nat,
    {
        proof {
            lemma_views_empty();
        }
        match self.expect(TokenKind::Array) {
            Err(e) => return Err(e),
            Ok(()) => {},
        }
        match self.expect(TokenKind::LBracket) {
            Err(e) => return Err(e),
            Ok(()) => {},
        }
        let index_sets = match self.parse_index_sets(Vec::new()) {
            Err(e) => return Err(e),
            Ok(v) => v,
        };
        match self.expect(TokenKind::RBracket) {
            Err(e) => return Err(e),
            Ok(()) => {},
        }
        match self.expect(TokenKind::Of) {
            Err(e) => return Err(e),
            Ok(()) => {},
        }
        match self.parse_type_inst() {
            Err(e) => Err(e),
            Ok(t) => Ok(TypeInst::Array { index_sets, element_type: Box::new(t) }),
        }
    }

    /// A set literal when the current token is `{`, else an expression.
    fn parse_range_or_set_expr(&mut self) -> (r: Result<Expr>)
        requires
            old(self).wf(),
        ensures
            kept(*old(self), *final(self)),
            r matches Err(e) ==> sourced(old(self).ctx(), e@),
            (lift(r, |x: Expr| x@), final(self).state()) === (if old(self).state().cur.kind is LBrace {
                p_set_lit(old(self).ctx(), old(self).state())
            } else {
                p_expr_bp(old(self).ctx(), old(self).state(), 0)
            }),
    {
        if self.at(TokenKind::LBrace) {
            self.parse_set_literal()
        } else {
            self.parse_expr()
        }
    }

    /// `var`/`par` then a base type or a constrained domain, or an array type.
    fn parse_type_inst(&mut self) -> (r: Result<TypeInst>)
        requires
            old(self).wf(),
        ensures
            kept(*old(self), *final(self)),
            r matches Err(e) ==> sourced(old(self).ctx(), e@),
            (lift(r, |t: TypeInst| view_type_inst(t)), final(self).state()) === p_type_inst(
                old(self).ctx(),
                old(self).state(),
            ),
        decreases meas(old(self).ctx(), old(self).state()), 1nat,
    {
        if self.at(TokenKind::Array) {
            return self.parse_array_type_inst();
        }
        let is_var = match self.current_token.kind {
            TokenKind::Var => match self.advance() {
                Err(e) => return Err(e),
                Ok(()) => true,
            },
            TokenKind::Par => match self.advance() {
                Err(e) => return Err(e),
                Ok(()) => false,
            },
            _ => false,
        };
        let basic = match self.current_token.kind {
            TokenKind::Bool => Some(BaseType::Bool),
            TokenKind::Int => Some(BaseType::Int),
            TokenKind::Float => Some(BaseType::Float),
            _ => None,
        };
        match basic {
            Some(b) => match self.advance() {
                Err(e) => Err(e),
                Ok(()) => Ok(TypeInst::Basic { is_var, base_type: b }),
            },
            None => {
                let constrained = match self.current_token.kind {
                    TokenKind::IntLit(_) | TokenKind::FloatLit(_) | TokenKind::LBrace => true,
                    _ => false,
                };
                if constrained {
                    match self.parse_range_or_set_expr() {
                        Err(e) => Err(e),
                        Ok(d) => {
                            let base_type = domain_base_of(&d);
                            Ok(TypeInst::Constrained { is_var, base_type, domain: d })
                        },
                    }
                } else {
                    let e = Error::unexpected_token(
                        "type (bool, int, float, or constrained type)",
                        self.current_token.kind.debug_text().as_str(),
                        self.current_token.span,
                    );
                    Err(self.add_source_to_error(e))
                }
            },
        }
    }

    /// `type-inst : name [= expr] ;`
    fn parse_var_decl(&mut self) -> (r: Result<Item>)
        requires
            old(self).wf(),
        ensures
            kept(*old(self), *final(self)),
            r matches Err(e) ==> sourced(old(self).ctx(), e@),
            (lift(r, |i: Item| view_item(i)), final(self).state()) === p_var_decl(old(self).ctx(), old(self).state()),
            r is Ok ==> shrinks(*old(self), *final(self)),
    {
        let start = self.current_token.span.start;
        let type_inst = match self.parse_type_inst() {
            Err(e) => return Err(e),
            Ok(t) => t,
        };
        match self.expect(TokenKind::Colon) {
            Err(e) => return Err(e),
            Ok(()) => {},
        }
        let name = match self.expect_ident() {
            Err(e) => return Err(e),
            Ok(n) => n,
        };
        let expr = if self.at(TokenKind::Eq) {
            match self.advance() {
                Err(e) => return Err(e),
                Ok(()) => {},
            }
            match self.parse_expr() {
                Err(e) => return Err(e),
                Ok(x) => Some(x),
            }
        } else {
            None
        };
        match self.expect(TokenKind::Semicolon) {
            Err(e) => return Err(e),
            Ok(()) => {},
        }
        let end = self.current_token.span.end;
        Ok(Item::VarDecl(VarDecl { type_inst, name, expr, span: Span::new(start, end) }))
    }

    /// `keyword expr ;`: the expression and the item's span.
    fn parse_keyword_item(&mut self, k: TokenKind) -> (r: Result<(Expr, Span)>)
        requires
            old(self).wf(),
            !(k@ is Eof),
        ensures
            kept(*old(self), *final(self)),
            r matches Err(e) ==> sourced(old(self).ctx(), e@),
            (lift(r, |p: (Expr, Span)| (p.0@, p.1)), final(self).state()) === p_keyword_expr_item(
                old(self).ctx(),
                old(self).state(),
                k@,
            ),
            r is Ok ==> shrinks(*old(self), *final(self)),
    {
        let start = self.current_token.span.start;
        match self.expect(k) {
            Err(e) => return Err(e),
            Ok(()) => {},
        }
        match self.parse_expr_then(TokenKind::Semicolon) {
            Err(e) => Err(e),
            Ok(x) => {
                let end = self.current_token.span.end;
                Ok((x, Span::new(start, end)))
            },
        }
    }

    /// `constraint expr ;`
    fn parse_constraint(&mut self) -> (r: Result<Item>)
        requires
            old(self).wf(),
        ensures
            kept(*old(self), *final(self)),
            r matches Err(e) ==> sourced(old(self).ctx(), e@),
            (lift(r, |i: Item| view_item(i)), final(self).state()) === p_constraint(old(self).ctx(), old(self).state()),
            r is Ok ==> shrinks(*old(self), *final(self)),
    {
        match self.parse_keyword_item(TokenKind::Constraint) {
            Err(e) => Err(e),
            Ok((expr, span)) => Ok(Item::Constraint(Constraint { expr, span })),
        }
    }

    /// `output expr ;`
    fn parse_output(&mut self) -> (r: Result<Item>)
        requires
            old(self).wf(),
        ensures
            kept(*old(self), *final(self)),
            r matches Err(e) ==> sourced(old(self).ctx(), e@),
            (lift(r, |i: Item| view_item(i)), final(self).state()) === p_output(old(self).ctx(), old(self).state()),
            r is Ok ==> shrinks(*old(self), *final(self)),
    {
        match self.parse_keyword_item(TokenKind::Output) {
            Err(e) => Err(e),
            Ok((expr, span)) => Ok(Item::Output(Output { expr, span })),
        }
    }

    /// Skips tokens up to `satisfy`, `minimize`, `maximize` or the end.
    fn parse_skip_to_goal(&mut self) -> (r: Result<SearchOption>)
        requires
            old(self).wf(),
        ensures
            kept(*old(self), *final(self)),
            r matches Err(e) ==> sourced(old(self).ctx(), e@),
            (lift(r, |o: SearchOption| o), final(self).state()) === p_skip_to_goal(old(self).ctx(), old(self).state()),
        decreases meas(old(self).ctx(), old(self).state()),
    {
        match self.current_token.kind {
            TokenKind::Satisfy | TokenKind::Minimize | TokenKind::Maximize | TokenKind::Eof => Ok(
                SearchOption::Complete,
            ),
            _ => match self.advance() {
                Err(e) => Err(e),
                Ok(()) => self.parse_skip_to_goal(),
            },
        }
    }

    /// Skips to the closing `)` of an annotation and past it.
    fn parse_close_annotation(&mut self) -> (r: Result<()>)
        requires
            old(self).wf(),
        ensures
            kept(*old(self), *final(self)),
            r matches Err(e) ==> sourced(old(self).ctx(), e@),
            (lift(r, |x: ()| x), final(self).state()) === p_close_annotation(old(self).ctx(), old(self).state()),
        decreases meas(old(self).ctx(), old(self).state()),
    {
        match self.current_token.kind {
            TokenKind::RParen => self.advance(),
            TokenKind::Eof => Ok(()),
            _ => match self.advance() {
                Err(e) => Err(e),
                Ok(()) => self.parse_close_annotation(),
            },
        }
    }

    /// Arguments of `int_search(...)` at parenthesis depth `depth` after
    /// `count` commas.
    fn parse_annotation_args(&mut self, depth: usize, count: usize) -> (r: Result<SearchOption>)
        requires
            old(self).wf(),
            depth + count + meas(old(self).ctx(), old(self).state()) <= old(self).ctx().src.len() + 1,
        ensures
            kept(*old(self), *final(self)),
            r matches Err(e) ==> sourced(old(self).ctx(), e@),
            (lift(r, |o: SearchOption| o), final(self).state()) === p_annotation_args(
                old(self).ctx(),
                old(self).state(),
                depth as nat,
                count as nat,
            ),
        decreases meas(old(self).ctx(), old(self).state()),
    {
        proof {
            self.lexer.lemma_wf();
        }
        if depth == 0 || self.is_eof() {
            return Ok(SearchOption::Complete);
        }
        let d2 = match self.current_token.kind {
            TokenKind::LParen => depth + 1,
            TokenKind::RParen => depth - 1,
            _ => depth,
        };
        let n2 = match self.current_token.kind {
            TokenKind::Comma => if depth == 1 {
                count + 1
            } else {
                count
            },
            _ => count,
        };
        let opt = match &self.current_token.kind {
            TokenKind::Ident(n) => if d2 == 1 && n2 == 3 {
                search_option_named(n)
            } else {
                None
            },
            _ => None,
        };
        match opt {
            Some(o) => match self.parse_close_annotation() {
                Err(e) => Err(e),
                Ok(()) => Ok(o),
            },
            None => match self.advance() {
                Err(e) => Err(e),
                Ok(()) => self.parse_annotation_args(d2, n2),
            },
        }
    }

    /// A search annotation after `::`: `complete`, `incomplete`, or
    /// `int_search(...)` and the like; anything else is skipped.
    fn parse_search_annotation(&mut self) -> (r: Result<SearchOption>)
        requires
            old(self).wf(),
        ensures
            kept(*old(self), *final(self)),
            r matches Err(e) ==> sourced(old(self).ctx(), e@),
            (lift(r, |o: SearchOption| o), final(self).state()) === p_search_annotation(
                old(self).ctx(),
                old(self).state(),
            ),
    {
        proof {
            self.lexer.lemma_wf();
        }
        let name = match &self.current_token.kind {
            TokenKind::Ident(n) => n.clone(),
            _ => {
                return self.parse_skip_to_goal();
            },
        };
        match search_option_named(&name) {
            Some(o) => match self.advance() {
                Err(e) => Err(e),
                Ok(()) => Ok(o),
            },
            None => {
                if str_eq(name.as_str(), "int_search") || str_eq(name.as_str(), "bool_search") || str_eq(
                    name.as_str(),
                    "float_search",
                ) {
                    match self.advance() {
                        Err(e) => return Err(e),
                        Ok(()) => {},
                    }
                    match self.expect(TokenKind::LParen) {
                        Err(e) => return Err(e),
                        Ok(()) => {},
                    }
                    proof {
                        self.lexer.lemma_wf();
                    }
                    self.parse_annotation_args(1, 0)
                } else {
                    self.parse_skip_to_goal()
                }
            },
        }
    }

    /// `solve [:: annotation] satisfy|minimize e|maximize e ;`
    #[verifier::spinoff_prover]
    fn parse_solve(&mut self) -> (r: Result<Item>)
        requires
            old(self).wf(),
        ensures
            kept(*old(self), *final(self)),
            r matches Err(e) ==> sourced(old(self).ctx(), e@),
            (lift(r, |i: Item| view_item(i)), final(self).state()) === p_solve(old(self).ctx(), old(self).state()),
            r is Ok ==> shrinks(*old(self), *final(self)),
    {
        let start = self.current_token.span.start;
        match self.expect(TokenKind::Solve) {
            Err(e) => return Err(e),
            Ok(()) => {},
        }
        let search_option = if self.at(TokenKind::ColonColon) {
            match self.advance() {
                Err(e) => return Err(e),
                Ok(()) => {},
            }
            match self.parse_search_annotation() {
                Err(e) => return Err(e),
                Ok(o) => Some(o),
            }
        } else {
            None
        };
        let solve = match self.current_token.kind {
            TokenKind::Satisfy => match self.advance() {
                Err(e) => return Err(e),
                Ok(()) => {
                    let end = self.current_token.span.end;
                    Solve::Satisfy { search_option, span: Span::new(start, end) }
                },
            },
            TokenKind::Minimize => {
                match self.advance() {
                    Err(e) => return Err(e),
                    Ok(()) => {},
                }
                match self.parse_expr() {
                    Err(e) => return Err(e),
                    Ok(expr) => {
                        let end = self.current_token.span.end;
                        Solve::Minimize { expr, search_option, span: Span::new(start, end) }
                    },
                }
            },
            TokenKind::Maximize => {
                match self.advance() {
                    Err(e) => return Err(e),
                    Ok(()) => {},
                }
                match self.parse_expr() {
                    Err(e) => return Err(e),
                    Ok(expr) => {
                        let end = self.current_token.span.end;
                        Solve::Maximize { expr, search_option, span: Span::new(start, end) }
                    },
                }
            },
            _ => {
                let e = Error::unexpected_token(
                    "satisfy, minimize, or maximize",
                    self.current_token.kind.debug_text().as_str(),
                    self.current_token.span,
                );
                return Err(self.add_source_to_error(e));
            },
        };
        match self.expect(TokenKind::Semicolon) {
            Err(e) => Err(e),
            Ok(()) => Ok(Item::Solve(solve)),
        }
    }

    /// One item, chosen by the current token.
    fn parse_item(&mut self) -> (r: Result<Item>)
        requires
            old(self).wf(),
        ensures
            kept(*old(self), *final(self)),
            r matches Err(e) ==> sourced(old(self).ctx(), e@),
            (lift(r, |i: Item| view_item(i)), final(self).state()) === p_item(old(self).ctx(), old(self).state()),
            r is Ok ==> shrinks(*old(self), *final(self)),
    {
        match self.current_token.kind {
            TokenKind::Constraint => self.parse_constraint(),
            TokenKind::Solve => self.parse_solve(),
            TokenKind::Output => self.parse_output(),
            _ => self.parse_var_decl(),
        }
    }

    /// Parses items up to the end of the input. The result and the state
    /// left are those of `p_items` from the current state.
    pub fn parse_model(&mut self) -> (r: Result<Model>)
        ensures
            final(self).wf(),
            final(self).ctx() == old(self).ctx(),
            (lift(r, |m: Model| m@), final(self).state()) === p_items(old(self).ctx(), old(self).state(), Seq::empty()),
            r is Ok ==> final(self).state().cur.kind is Eof,
            r matches Err(e) ==> sourced(old(self).ctx(), e@),
    {
        proof {
            use_type_invariant(&self.lexer);
            lemma_views_empty();
        }
        let mut items: Vec<Item> = Vec::new();
        while !self.is_eof()
            invariant
                self.wf(),
                self.ctx() == old(self).ctx(),
                p_items(self.ctx(), self.state(), view_items(items@)) === p_items(
                    old(self).ctx(),
                    old(self).state(),
                    Seq::empty(),
                ),
            decreases meas(self.ctx(), self.state()),
        {
            match self.parse_item() {
                Err(e) => {
                    return Err(e);
                },
                Ok(it) => {
                    proof {
                        lemma_view_items_push(items@, it);
                    }
                    items.push(it);
                },
            }
        }
        Ok(Model { items })
    }
}

/// The parser kept its source and invariant, and its measure did not grow.
spec fn kept(a: Parser, b: Parser) -> bool {
    &&& b.wf()
    &&& b.ctx() == a.ctx()
    &&& meas(b.ctx(), b.state()) <= meas(a.ctx(), a.state())
}

/// An error carries the parser's text when there is one.
pub open spec fn sourced(c: PCtx, e: ErrorV) -> bool {
    c.text.len() > 0 ==> e.source == Some(c.text)
}

/// The parser's measure dropped.
spec fn shrinks(a: Parser, b: Parser) -> bool {
    meas(b.ctx(), b.state()) < meas(a.ctx(), a.state())
}

} // verus!
