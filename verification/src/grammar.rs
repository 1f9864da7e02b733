//! Specification of the MiniZinc parser: recursive descent over the lazily
//! lexed token stream, as spec functions on the parser state (the lexer's
//! offset and the current token).
//!
//! Every function returns its result and the state the parser is left in,
//! also after an error. A recursive call is taken only when the state's
//! measure (`meas`) has dropped or the function's rank decreases; the parser
//! proves that these guards always hold where it makes the call.

use vstd::prelude::*;
use crate::ast::{BaseTypeV, BinOp, ExprKindV, ExprV, GeneratorV, ItemV, SearchOption, SolveV, Span, TypeInstV, UnOp, VarDeclV};
use crate::error::{error_with_source, ErrorKindV, ErrorV};
use crate::lexer::{next_token_spec, reserved_word, symbol_text, token_debug, token_tag, TokenKindV, TokenV};
use crate::ast::binop_text;

verus! {

/// The lexer's source and the text attached to errors.
pub struct PCtx {
    pub src: Seq<char>,
    pub text: Seq<char>,
}

/// The lexer's offset and the current token.
pub struct PState {
    pub pos: int,
    pub cur: TokenV,
}

pub type PR<T> = (core::result::Result<T, ErrorV>, PState);

/// Characters left to the lexer, plus one while the current token is not
/// end-of-file. Reading a token other than end-of-file lowers it.
pub open spec fn meas(c: PCtx, st: PState) -> nat {
    (if 0 <= st.pos <= c.src.len() { (c.src.len() - st.pos) as nat } else { 0nat }) + (if st.cur.kind is Eof {
        0nat
    } else {
        1nat
    })
}

/// An error with the parser's text attached when that text is not empty.
pub open spec fn with_text(c: PCtx, e: ErrorV) -> ErrorV {
    if c.text.len() > 0 {
        error_with_source(e, c.text)
    } else {
        e
    }
}

/// The parser's state after reading its first token; a lexical error there
/// leaves an end-of-file token.
pub open spec fn initial_state(src: Seq<char>, pos: int) -> PState {
    let (r, e) = next_token_spec(src, pos);
    match r {
        Ok(t) => PState { pos: e, cur: t },
        Err(_) => PState { pos: e, cur: TokenV { kind: TokenKindV::Eof, span: Span { start: 0, end: 0 } } },
    }
}

/// Moves to the next token.
pub open spec fn p_advance(c: PCtx, st: PState) -> PR<()> {
    let (r, e) = next_token_spec(c.src, st.pos);
    match r {
        Ok(t) => (Ok(()), PState { pos: e, cur: t }),
        Err(er) => (Err(with_text(c, er)), PState { pos: e, cur: st.cur }),
    }
}

/// "Expected ..., found <current token>" at `span`.
pub open spec fn unexpected(c: PCtx, expected: Seq<char>, st: PState, span: Span) -> ErrorV {
    with_text(
        c,
        ErrorV {
            kind: ErrorKindV::UnexpectedToken { expected, found: token_debug(st.cur.kind) },
            span,
            source: None,
        },
    )
}

/// Consumes a token of the variant of `k`, else reports it expected (at the
/// character before the current token, when there is one).
pub open spec fn p_expect(c: PCtx, st: PState, k: TokenKindV) -> PR<()> {
    if token_tag(st.cur.kind) == token_tag(k) {
        p_advance(c, st)
    } else {
        let sp = if st.cur.span.start > 0 {
            Span { start: (st.cur.span.start - 1) as usize, end: st.cur.span.start }
        } else {
            st.cur.span
        };
        (Err(unexpected(c, token_debug(k), st, sp)), st)
    }
}

/// Consumes an identifier.
pub open spec fn p_expect_ident(c: PCtx, st: PState) -> PR<Seq<char>> {
    match st.cur.kind {
        TokenKindV::Ident(n) => {
            let (a, s1) = p_advance(c, st);
            match a {
                Ok(_) => (Ok(n), s1),
                Err(e) => (Err(e), s1),
            }
        },
        _ => (Err(unexpected(c, "identifier"@, st, st.cur.span)), st),
    }
}

/// Binary operator of a token.
pub open spec fn binop_of(k: TokenKindV) -> Option<BinOp> {
    match k {
        TokenKindV::Plus => Some(BinOp::Add),
        TokenKindV::Minus => Some(BinOp::Sub),
        TokenKindV::Star => Some(BinOp::Mul),
        TokenKindV::Slash => Some(BinOp::FDiv),
        TokenKindV::Div => Some(BinOp::Div),
        TokenKindV::Mod => Some(BinOp::Mod),
        TokenKindV::Lt => Some(BinOp::Lt),
        TokenKindV::Le => Some(BinOp::Le),
        TokenKindV::Gt => Some(BinOp::Gt),
        TokenKindV::Ge => Some(BinOp::Ge),
        TokenKindV::Eq => Some(BinOp::Eq),
        TokenKindV::Ne => Some(BinOp::Ne),
        TokenKindV::And => Some(BinOp::And),
        TokenKindV::Or => Some(BinOp::Or),
        TokenKindV::Impl => Some(BinOp::Impl),
        TokenKindV::Iff => Some(BinOp::Iff),
        TokenKindV::Xor => Some(BinOp::Xor),
        TokenKindV::In => Some(BinOp::In),
        TokenKindV::DotDot => Some(BinOp::Range),
        _ => None,
    }
}

/// An operator token stands for the binary operator that MiniZinc spells
/// as the token is spelled.
pub proof fn lemma_binop_of_token(k: TokenKindV)
    ensures
        binop_of(k) matches Some(op) ==> (symbol_text(k) == Some(binop_text(op)) || reserved_word(k) == Some(
            binop_text(op),
        )),
{
    reveal_strlit("+");
    assert("+"@ =~= seq!['+']);
    reveal_strlit("-");
    assert("-"@ =~= seq!['-']);
    reveal_strlit("*");
    assert("*"@ =~= seq!['*']);
    reveal_strlit("div");
    assert("div"@ =~= seq!['d', 'i', 'v']);
    reveal_strlit("mod");
    assert("mod"@ =~= seq!['m', 'o', 'd']);
    reveal_strlit("/");
    assert("/"@ =~= seq!['/']);
    reveal_strlit("<");
    assert("<"@ =~= seq!['<']);
    reveal_strlit("<=");
    assert("<="@ =~= seq!['<', '=']);
    reveal_strlit(">");
    assert(">"@ =~= seq!['>']);
    reveal_strlit(">=");
    assert(">="@ =~= seq!['>', '=']);
    reveal_strlit("==");
    assert("=="@ =~= seq!['=', '=']);
    reveal_strlit("!=");
    assert("!="@ =~= seq!['!', '=']);
    reveal_strlit("/\\");
    assert("/\\"@ =~= seq!['/', '\\']);
    reveal_strlit("\\/");
    assert("\\/"@ =~= seq!['\\', '/']);
    reveal_strlit("->");
    assert("->"@ =~= seq!['-', '>']);
    reveal_strlit("<->");
    assert("<->"@ =~= seq!['<', '-', '>']);
    reveal_strlit("xor");
    assert("xor"@ =~= seq!['x', 'o', 'r']);
    reveal_strlit("in");
    assert("in"@ =~= seq!['i', 'n']);
    reveal_strlit("..");
    assert(".."@ =~= seq!['.', '.']);
}

/// Left and right binding power of a binary operator.
pub open spec fn binding_power(op: BinOp) -> (u8, u8) {
    match op {
        BinOp::Iff => (2, 1),
        BinOp::Impl => (4, 3),
        BinOp::Or => (6, 5),
        BinOp::Xor => (6, 5),
        BinOp::And => (8, 7),
        BinOp::Lt | BinOp::Le | BinOp::Gt | BinOp::Ge | BinOp::Eq | BinOp::Ne => (10, 9),
        BinOp::In => (10, 9),
        BinOp::Range => (12, 11),
        BinOp::Add | BinOp::Sub => (14, 13),
        BinOp::Mul | BinOp::Div | BinOp::Mod | BinOp::FDiv => (16, 15),
    }
}

/// MiniZinc's precedence groups of binary operators, loosest first:
/// `<->`; `->`; `\/` and `xor`; `/\`; the comparisons and `in`; `..`;
/// `+` and `-`; `*`, `/`, `div` and `mod`.
pub open spec fn precedence_group(op: BinOp) -> nat {
    match op {
        BinOp::Iff => 1,
        BinOp::Impl => 2,
        BinOp::Or | BinOp::Xor => 3,
        BinOp::And => 4,
        BinOp::Lt | BinOp::Le | BinOp::Gt | BinOp::Ge | BinOp::Eq | BinOp::Ne | BinOp::In => 5,
        BinOp::Range => 6,
        BinOp::Add | BinOp::Sub => 7,
        BinOp::Mul | BinOp::Div | BinOp::Mod | BinOp::FDiv => 8,
    }
}

/// Every binary operator groups to the left, operators of one precedence
/// group bind alike, and an operator of a later group binds tighter than
/// one of an earlier group.
pub proof fn lemma_binding_powers(a: BinOp, b: BinOp)
    ensures
        binding_power(a).0 == binding_power(a).1 + 1,
        precedence_group(a) == precedence_group(b) ==> binding_power(a) == binding_power(b),
        precedence_group(a) < precedence_group(b) ==> binding_power(a).0 < binding_power(b).1,
{
}

/// Whether the tokens after the current offset contain `in` before a `)`
/// or `,` at nesting depth zero (the look-ahead for a generator call).
pub open spec fn gen_scan(src: Seq<char>, pos: int, depth: nat) -> bool
    decreases src.len() - pos,
{
    let (r, e) = next_token_spec(src, pos);
    let go = 0 <= pos < e <= src.len();
    match r {
        Err(_) => false,
        Ok(t) => match t.kind {
            TokenKindV::In => if depth == 0 {
                true
            } else if go {
                gen_scan(src, e, depth)
            } else {
                false
            },
            TokenKindV::LParen => if go { gen_scan(src, e, depth + 1) } else { false },
            TokenKindV::RParen => if depth > 0 && go { gen_scan(src, e, (depth - 1) as nat) } else { false },
            TokenKindV::Comma => if depth > 0 && go { gen_scan(src, e, depth) } else { false },
            TokenKindV::Eof => false,
            _ => if go { gen_scan(src, e, depth) } else { false },
        },
    }
}

/// A generator starts here: an identifier followed (eventually) by `in`.
pub open spec fn gen_start(c: PCtx, st: PState) -> bool {
    match st.cur.kind {
        TokenKindV::Ident(_) => gen_scan(c.src, st.pos, 0),
        _ => false,
    }
}

/// Arguments of a call, or a finished generator call.
pub enum CallArgs {
    Args(Seq<ExprV>),
    Gen(ExprV),
}

pub open spec fn mk_expr(kind: ExprKindV, start: usize, end: usize) -> ExprV {
    ExprV { kind, span: Span { start, end } }
}

/// The parsing tasks of the expression grammar, which call each other.
pub enum ETask {
    /// `parse_expr_bp`: a prefix expression, then binary operators binding
    /// at least as tightly as the given power.
    ExprBp(u8),
    /// Binary operators after a left operand that started at the offset.
    BinopLoop(u8, usize, ExprV),
    /// `-` and `not` applied to a prefix expression.
    Prefix,
    /// A primary expression followed by indexing and calls.
    Postfix,
    /// Indexing and calls after an expression.
    PostfixLoop(ExprV),
    /// What follows `name(`: `array2d`/`array3d` arguments, a generator
    /// call, or call arguments and `)`; the flag says whether postfix
    /// operators may follow (not after a generator call).
    CallSuffix(Seq<char>, usize),
    /// An expression followed by a token of the variant given.
    ExprThen(TokenKindV),
    /// `e, e, ..., e` (at least one expression), appended to the list.
    ExprList(Seq<ExprV>),
    /// `array2d(rows, cols, values)` after the `(`.
    Array2d(usize),
    /// `array3d(r1, r2, r3, values)` after the `(`.
    Array3d(usize),
    /// Call arguments after the `(` (the next token is not `)`): a generator
    /// call `name(gens)(body)`, or expressions separated by commas.
    Args(Seq<char>, usize, Seq<ExprV>),
    /// Generators `i in e where w, j in f, ...`, appended to the list.
    Generators(Seq<GeneratorV>),
    /// A literal, identifier, parenthesized expression, array or set.
    Primary,
    /// Remaining elements of an array literal: `, e` repeated; a `,`
    /// directly before `]` is allowed.
    ArrayElems(Seq<ExprV>),
    /// `[]`, `[e, ...]` or `[e | generators]`.
    ArrayLit,
    /// `{}` or `{e, ...}`.
    SetLit,
}

/// What a task produces.
pub enum EOut {
    Expr(ExprV),
    List(Seq<ExprV>),
    Args(CallArgs),
    Gens(Seq<GeneratorV>),
    Suffix(ExprV, bool),
}

/// Order of the tasks that may call each other without consuming input.
pub open spec fn task_rank(t: ETask) -> nat {
    match t {
        ETask::ExprBp(..) => 6nat,
        ETask::BinopLoop(..) => 6nat,
        ETask::Prefix => 5nat,
        ETask::Postfix => 4nat,
        ETask::PostfixLoop(..) => 1nat,
        ETask::CallSuffix(..) => 9nat,
        ETask::ExprThen(..) => 7nat,
        ETask::ExprList(..) => 8nat,
        ETask::Array2d(..) => 8nat,
        ETask::Array3d(..) => 8nat,
        ETask::Args(..) => 8nat,
        ETask::Generators(..) => 0nat,
        ETask::Primary => 3nat,
        ETask::ArrayElems(..) => 0nat,
        ETask::ArrayLit => 2nat,
        ETask::SetLit => 2nat,
    }
}

/// Any error for outputs of the wrong kind, which no task produces.
pub open spec fn kind_mismatch() -> ErrorV {
    ErrorV { kind: ErrorKindV::UnexpectedEof, span: Span { start: 0, end: 0 }, source: None }
}

pub open spec fn as_expr(x: PR<EOut>) -> PR<ExprV> {
    (match x.0 {
        Ok(EOut::Expr(e)) => Ok(e),
        Ok(_) => Err(kind_mismatch()),
        Err(e) => Err(e),
    }, x.1)
}

pub open spec fn as_list(x: PR<EOut>) -> PR<Seq<ExprV>> {
    (match x.0 {
        Ok(EOut::List(l)) => Ok(l),
        Ok(_) => Err(kind_mismatch()),
        Err(e) => Err(e),
    }, x.1)
}

pub open spec fn as_args(x: PR<EOut>) -> PR<CallArgs> {
    (match x.0 {
        Ok(EOut::Args(a)) => Ok(a),
        Ok(_) => Err(kind_mismatch()),
        Err(e) => Err(e),
    }, x.1)
}

pub open spec fn as_gens(x: PR<EOut>) -> PR<Seq<GeneratorV>> {
    (match x.0 {
        Ok(EOut::Gens(g)) => Ok(g),
        Ok(_) => Err(kind_mismatch()),
        Err(e) => Err(e),
    }, x.1)
}

pub open spec fn as_suffix(x: PR<EOut>) -> PR<(ExprV, bool)> {
    (match x.0 {
        Ok(EOut::Suffix(e, more)) => Ok((e, more)),
        Ok(_) => Err(kind_mismatch()),
        Err(e) => Err(e),
    }, x.1)
}

pub open spec fn out_expr(x: PR<ExprV>) -> PR<EOut> {
    (match x.0 {
        Ok(e) => Ok(EOut::Expr(e)),
        Err(e) => Err(e),
    }, x.1)
}

pub open spec fn out_list(x: PR<Seq<ExprV>>) -> PR<EOut> {
    (match x.0 {
        Ok(l) => Ok(EOut::List(l)),
        Err(e) => Err(e),
    }, x.1)
}

pub open spec fn out_args(x: PR<CallArgs>) -> PR<EOut> {
    (match x.0 {
        Ok(a) => Ok(EOut::Args(a)),
        Err(e) => Err(e),
    }, x.1)
}

pub open spec fn out_gens(x: PR<Seq<GeneratorV>>) -> PR<EOut> {
    (match x.0 {
        Ok(g) => Ok(EOut::Gens(g)),
        Err(e) => Err(e),
    }, x.1)
}

pub open spec fn out_suffix(x: PR<(ExprV, bool)>) -> PR<EOut> {
    (match x.0 {
        Ok((e, more)) => Ok(EOut::Suffix(e, more)),
        Err(e) => Err(e),
    }, x.1)
}

/// The expression grammar: what task `t` yields from state `st`, and the
/// state it leaves.
#[verifier::opaque]
pub open spec fn p_task(c: PCtx, st: PState, t: ETask) -> PR<EOut>
    decreases meas(c, st), task_rank(t),
{
    match t {
        ETask::ExprBp(min_bp) => out_expr({
            let start = st.cur.span.start;
            let (r, s1) = as_expr(p_task(c, st, ETask::Prefix));
            match r {
                Err(e) => (Err(e), s1),
                Ok(lhs) => if meas(c, s1) < meas(c, st) {
                    as_expr(p_task(c, s1, ETask::BinopLoop(min_bp, start, lhs)))
                } else {
                    (Ok(lhs), s1)
                },
            }
        }),
        ETask::BinopLoop(min_bp, start, lhs) => out_expr({
            match binop_of(st.cur.kind) {
                None => (Ok(lhs), st),
                Some(op) => {
                    let (l_bp, r_bp) = binding_power(op);
                    if l_bp < min_bp {
                        (Ok(lhs), st)
                    } else {
                        let (a, s1) = p_advance(c, st);
                        match a {
                            Err(e) => (Err(e), s1),
                            Ok(_) => if meas(c, s1) < meas(c, st) {
                                let (r, s2) = as_expr(p_task(c, s1, ETask::ExprBp(r_bp)));
                                match r {
                                    Err(e) => (Err(e), s2),
                                    Ok(rhs) => {
                                        let e2 = mk_expr(
                                            ExprKindV::BinOp { op, left: Box::new(lhs), right: Box::new(rhs) },
                                            start,
                                            rhs.span.end,
                                        );
                                        if meas(c, s2) < meas(c, st) {
                                            as_expr(p_task(c, s2, ETask::BinopLoop(min_bp, start, e2)))
                                        } else {
                                            (Ok(e2), s2)
                                        }
                                    },
                                }
                            } else {
                                (Ok(lhs), s1)
                            },
                        }
                    }
                },
            }
        }),
        ETask::Prefix => out_expr({
            let start = st.cur.span.start;
            let op = match st.cur.kind {
                TokenKindV::Minus => Some(UnOp::Neg),
                TokenKindV::Not => Some(UnOp::Not),
                _ => None,
            };
            match op {
                None => as_expr(p_task(c, st, ETask::Postfix)),
                Some(op) => {
                    let (a, s1) = p_advance(c, st);
                    match a {
                        Err(e) => (Err(e), s1),
                        Ok(_) => if meas(c, s1) < meas(c, st) {
                            let (r, s2) = as_expr(p_task(c, s1, ETask::Prefix));
                            match r {
                                Err(e) => (Err(e), s2),
                                Ok(x) => (Ok(mk_expr(ExprKindV::UnOp { op, expr: Box::new(x) }, start, x.span.end)), s2),
                            }
                        } else {
                            (Err(unexpected(c, Seq::empty(), s1, s1.cur.span)), s1)
                        },
                    }
                },
            }
        }),
        ETask::Postfix => out_expr({
            let (r, s1) = as_expr(p_task(c, st, ETask::Primary));
            match r {
                Err(e) => (Err(e), s1),
                Ok(x) => if meas(c, s1) < meas(c, st) {
                    as_expr(p_task(c, s1, ETask::PostfixLoop(x)))
                } else {
                    (Ok(x), s1)
                },
            }
        }),
        ETask::PostfixLoop(x) => out_expr({
            match st.cur.kind {
                TokenKindV::LBracket => {
                    let (a, s1) = p_advance(c, st);
                    match a {
                        Err(e) => (Err(e), s1),
                        Ok(_) => if meas(c, s1) < meas(c, st) {
                            let (ri, s2) = as_list(p_task(c, s1, ETask::ExprList(Seq::empty())));
                            match ri {
                                Err(e) => (Err(e), s2),
                                Ok(indices) => {
                                    let (b, s3) = p_expect(c, s2, TokenKindV::RBracket);
                                    match b {
                                        Err(e) => (Err(e), s3),
                                        Ok(_) => {
                                            let x2 = mk_expr(
                                                ExprKindV::ArrayAccess { array: Box::new(x), indices },
                                                x.span.start,
                                                s3.cur.span.end,
                                            );
                                            if meas(c, s3) < meas(c, st) {
                                                as_expr(p_task(c, s3, ETask::PostfixLoop(x2)))
                                            } else {
                                                (Ok(x2), s3)
                                            }
                                        },
                                    }
                                },
                            }
                        } else {
                            (Ok(x), s1)
                        },
                    }
                },
                TokenKindV::LParen => match x.kind {
                    ExprKindV::Ident(name) => {
                        let (a, s1) = p_advance(c, st);
                        match a {
                            Err(e) => (Err(e), s1),
                            Ok(_) => if meas(c, s1) < meas(c, st) {
                                let (r, s2) = as_suffix(p_task(c, s1, ETask::CallSuffix(name, x.span.start)));
                                match r {
                                    Err(e) => (Err(e), s2),
                                    Ok((x2, more)) => if more && meas(c, s2) < meas(c, st) {
                                        as_expr(p_task(c, s2, ETask::PostfixLoop(x2)))
                                    } else {
                                        (Ok(x2), s2)
                                    },
                                }
                            } else {
                                (Ok(x), s1)
                            },
                        }
                    },
                    _ => (Ok(x), st),
                },
                _ => (Ok(x), st),
            }
        }),
        ETask::CallSuffix(name, start) => out_suffix({
            if name == "array2d"@ {
                let (r, s1) = as_expr(p_task(c, st, ETask::Array2d(start)));
                match r {
                    Err(e) => (Err(e), s1),
                    Ok(x) => (Ok((x, true)), s1),
                }
            } else if name == "array3d"@ {
                let (r, s1) = as_expr(p_task(c, st, ETask::Array3d(start)));
                match r {
                    Err(e) => (Err(e), s1),
                    Ok(x) => (Ok((x, true)), s1),
                }
            } else {
                let (ra, s1) = if st.cur.kind is RParen {
                    (Ok(CallArgs::Args(Seq::empty())), st)
                } else {
                    as_args(p_task(c, st, ETask::Args(name, start, Seq::empty())))
                };
                match ra {
                    Err(e) => (Err(e), s1),
                    Ok(CallArgs::Gen(g)) => (Ok((g, false)), s1),
                    Ok(CallArgs::Args(args)) => {
                        let (b, s2) = p_expect(c, s1, TokenKindV::RParen);
                        match b {
                            Err(e) => (Err(e), s2),
                            Ok(_) => (Ok((mk_expr(ExprKindV::Call { name, args }, start, s2.cur.span.end), true)), s2),
                        }
                    },
                }
            }
        }),
        ETask::ExprThen(k) => out_expr({
            let (r, s1) = as_expr(p_task(c, st, ETask::ExprBp(0)));
            match r {
                Err(e) => (Err(e), s1),
                Ok(x) => {
                    let (k1, s2) = p_expect(c, s1, k);
                    match k1 {
                        Err(e) => (Err(e), s2),
                        Ok(_) => (Ok(x), s2),
                    }
                },
            }
        }),
        ETask::ExprList(acc) => out_list({
            let (r, s1) = as_expr(p_task(c, st, ETask::ExprBp(0)));
            match r {
                Err(e) => (Err(e), s1),
                Ok(x) => {
                    let acc2 = acc.push(x);
                    if s1.cur.kind is Comma {
                        let (a, s2) = p_advance(c, s1);
                        match a {
                            Err(e) => (Err(e), s2),
                            Ok(_) => if meas(c, s2) < meas(c, st) {
                                as_list(p_task(c, s2, ETask::ExprList(acc2)))
                            } else {
                                (Ok(acc2), s2)
                            },
                        }
                    } else {
                        (Ok(acc2), s1)
                    }
                },
            }
        }),
        ETask::Array2d(start) => out_expr({
            let (r1, s1) = as_expr(p_task(c, st, ETask::ExprThen(TokenKindV::Comma)));
            match r1 {
                Err(e) => (Err(e), s1),
                Ok(a) => if meas(c, s1) < meas(c, st) {
                    let (r2, s2) = as_expr(p_task(c, s1, ETask::ExprThen(TokenKindV::Comma)));
                    match r2 {
                        Err(e) => (Err(e), s2),
                        Ok(b) => if meas(c, s2) < meas(c, st) {
                            let (r3, s3) = as_expr(p_task(c, s2, ETask::ExprThen(TokenKindV::RParen)));
                            match r3 {
                                Err(e) => (Err(e), s3),
                                Ok(v) => (
                                    Ok(mk_expr(
                                        ExprKindV::Array2D { row_range: Box::new(a), col_range: Box::new(b), values: Box::new(v) },
                                        start,
                                        s3.cur.span.end,
                                    )),
                                    s3,
                                ),
                            }
                        } else {
                            (Ok(a), s2)
                        },
                    }
                } else {
                    (Ok(a), s1)
                },
            }
        }),
        ETask::Array3d(start) => out_expr({
            let (r1, s1) = as_expr(p_task(c, st, ETask::ExprThen(TokenKindV::Comma)));
            match r1 {
                Err(e) => (Err(e), s1),
                Ok(a) => if meas(c, s1) < meas(c, st) {
                    let (r2, s2) = as_expr(p_task(c, s1, ETask::ExprThen(TokenKindV::Comma)));
                    match r2 {
                        Err(e) => (Err(e), s2),
                        Ok(b) => if meas(c, s2) < meas(c, st) {
                            let (r3, s3) = as_expr(p_task(c, s2, ETask::ExprThen(TokenKindV::Comma)));
                            match r3 {
                                Err(e) => (Err(e), s3),
                                Ok(d) => if meas(c, s3) < meas(c, st) {
                                    let (r4, s4) = as_expr(p_task(c, s3, ETask::ExprThen(TokenKindV::RParen)));
                                    match r4 {
                                        Err(e) => (Err(e), s4),
                                        Ok(v) => (
                                            Ok(mk_expr(
                                                ExprKindV::Array3D {
                                                    r1_range: Box::new(a),
                                                    r2_range: Box::new(b),
                                                    r3_range: Box::new(d),
                                                    values: Box::new(v),
                                                },
                                                start,
                                                s4.cur.span.end,
                                            )),
                                            s4,
                                        ),
                                    }
                                } else {
                                    (Ok(a), s3)
                                },
                            }
                        } else {
                            (Ok(a), s2)
                        },
                    }
                } else {
                    (Ok(a), s1)
                },
            }
        }),
        ETask::Args(name, start, acc) => out_args({
            if gen_start(c, st) {
                let (rg, s1) = as_gens(p_task(c, st, ETask::Generators(Seq::empty())));
                match rg {
                    Err(e) => (Err(e), s1),
                    Ok(gens) => {
                        let (k1, s2) = p_expect(c, s1, TokenKindV::RParen);
                        match k1 {
                            Err(e) => (Err(e), s2),
                            Ok(_) => {
                                let (k2, s3) = p_expect(c, s2, TokenKindV::LParen);
                                match k2 {
                                    Err(e) => (Err(e), s3),
                                    Ok(_) => if meas(c, s3) < meas(c, st) {
                                        let (rb, s4) = as_expr(p_task(c, s3, ETask::ExprThen(TokenKindV::RParen)));
                                        match rb {
                                            Err(e) => (Err(e), s4),
                                            Ok(body) => (
                                                Ok(CallArgs::Gen(mk_expr(
                                                    ExprKindV::GenCall { name, generators: gens, body: Box::new(body) },
                                                    start,
                                                    s4.cur.span.end,
                                                ))),
                                                s4,
                                            ),
                                        }
                                    } else {
                                        (Ok(CallArgs::Args(acc)), s3)
                                    },
                                }
                            },
                        }
                    },
                }
            } else {
                let (ra, s1) = as_expr(p_task(c, st, ETask::ExprBp(0)));
                match ra {
                    Err(e) => (Err(e), s1),
                    Ok(a) => {
                        let acc2 = acc.push(a);
                        if s1.cur.kind is Comma {
                            let (k, s2) = p_advance(c, s1);
                            match k {
                                Err(e) => (Err(e), s2),
                                Ok(_) => if meas(c, s2) < meas(c, st) {
                                    as_args(p_task(c, s2, ETask::Args(name, start, acc2)))
                                } else {
                                    (Ok(CallArgs::Args(acc2)), s2)
                                },
                            }
                        } else {
                            (Ok(CallArgs::Args(acc2)), s1)
                        }
                    },
                }
            }
        }),
        ETask::Generators(acc) => out_gens({
            let (rn, s1) = p_expect_ident(c, st);
            match rn {
                Err(e) => (Err(e), s1),
                Ok(n) => {
                    let (rns, s2) = p_gen_names(c, s1, seq![n]);
                    match rns {
                        Err(e) => (Err(e), s2),
                        Ok(names) => {
                            let (k, s3) = p_expect(c, s2, TokenKindV::In);
                            match k {
                                Err(e) => (Err(e), s3),
                                Ok(_) => if meas(c, s3) < meas(c, st) {
                                    let (rx, s4) = as_expr(p_task(c, s3, ETask::ExprBp(0)));
                                    match rx {
                                        Err(e) => (Err(e), s4),
                                        Ok(x) => {
                                            let (rw, s5) = if s4.cur.kind is Where {
                                                let (a, s4a) = p_advance(c, s4);
                                                match a {
                                                    Err(e) => (Err(e), s4a),
                                                    Ok(_) => if meas(c, s4a) < meas(c, st) {
                                                        let (rwe, s4b) = as_expr(p_task(c, s4a, ETask::ExprBp(0)));
                                                        match rwe {
                                                            Err(e) => (Err(e), s4b),
                                                            Ok(w) => (Ok(Some(w)), s4b),
                                                        }
                                                    } else {
                                                        (Ok(None), s4a)
                                                    },
                                                }
                                            } else {
                                                (Ok(None), s4)
                                            };
                                            match rw {
                                                Err(e) => (Err(e), s5),
                                                Ok(w) => {
                                                    let acc2 = acc.push(GeneratorV { names, expr: x, where_clause: w });
                                                    if s5.cur.kind is Comma {
                                                        let (a, s6) = p_advance(c, s5);
                                                        match a {
                                                            Err(e) => (Err(e), s6),
                                                            Ok(_) => if meas(c, s6) < meas(c, st) {
                                                                as_gens(p_task(c, s6, ETask::Generators(acc2)))
                                                            } else {
                                                                (Ok(acc2), s6)
                                                            },
                                                        }
                                                    } else {
                                                        (Ok(acc2), s5)
                                                    }
                                                },
                                            }
                                        },
                                    }
                                } else {
                                    (Ok(acc), s3)
                                },
                            }
                        },
                    }
                },
            }
        }),
        ETask::Primary => out_expr({
            let start = st.cur.span.start;
            let lit = match st.cur.kind {
                TokenKindV::BoolLit(b) => Some(ExprKindV::BoolLit(b)),
                TokenKindV::IntLit(i) => Some(ExprKindV::IntLit(i)),
                TokenKindV::FloatLit(t) => Some(ExprKindV::FloatLit(t)),
                TokenKindV::StringLit(s) => Some(ExprKindV::StringLit(s)),
                TokenKindV::Ident(n) => Some(ExprKindV::Ident(n)),
                _ => None,
            };
            match lit {
                Some(k) => {
                    let (a, s1) = p_advance(c, st);
                    match a {
                        Err(e) => (Err(e), s1),
                        Ok(_) => (Ok(mk_expr(k, start, s1.cur.span.end)), s1),
                    }
                },
                None => match st.cur.kind {
                    TokenKindV::LParen => {
                        let (a, s1) = p_advance(c, st);
                        match a {
                            Err(e) => (Err(e), s1),
                            Ok(_) => if meas(c, s1) < meas(c, st) {
                                as_expr(p_task(c, s1, ETask::ExprThen(TokenKindV::RParen)))
                            } else {
                                (Err(unexpected(c, Seq::empty(), s1, s1.cur.span)), s1)
                            },
                        }
                    },
                    TokenKindV::LBracket => as_expr(p_task(c, st, ETask::ArrayLit)),
                    TokenKindV::LBrace => as_expr(p_task(c, st, ETask::SetLit)),
                    _ => (Err(unexpected(c, "expression"@, st, st.cur.span)), st),
                },
            }
        }),
        ETask::ArrayElems(acc) => out_list({
            if st.cur.kind is Comma {
                let (a, s1) = p_advance(c, st);
                match a {
                    Err(e) => (Err(e), s1),
                    Ok(_) => if s1.cur.kind is RBracket {
                        (Ok(acc), s1)
                    } else if meas(c, s1) < meas(c, st) {
                        let (r, s2) = as_expr(p_task(c, s1, ETask::ExprBp(0)));
                        match r {
                            Err(e) => (Err(e), s2),
                            Ok(x) => if meas(c, s2) < meas(c, st) {
                                as_list(p_task(c, s2, ETask::ArrayElems(acc.push(x))))
                            } else {
                                (Ok(acc.push(x)), s2)
                            },
                        }
                    } else {
                        (Ok(acc), s1)
                    },
                }
            } else {
                (Ok(acc), st)
            }
        }),
        ETask::ArrayLit => out_expr({
            let start = st.cur.span.start;
            let (k, s1) = p_expect(c, st, TokenKindV::LBracket);
            match k {
                Err(e) => (Err(e), s1),
                Ok(_) => if s1.cur.kind is RBracket {
                    let (a, s2) = p_advance(c, s1);
                    match a {
                        Err(e) => (Err(e), s2),
                        Ok(_) => (Ok(mk_expr(ExprKindV::ArrayLit(Seq::empty()), start, s2.cur.span.end)), s2),
                    }
                } else if meas(c, s1) < meas(c, st) {
                    let (r, s2) = as_expr(p_task(c, s1, ETask::ExprBp(0)));
                    match r {
                        Err(e) => (Err(e), s2),
                        Ok(first) => if s2.cur.kind is Pipe {
                            let (a, s3) = p_advance(c, s2);
                            match a {
                                Err(e) => (Err(e), s3),
                                Ok(_) => if meas(c, s3) < meas(c, st) {
                                    let (rg, s4) = as_gens(p_task(c, s3, ETask::Generators(Seq::empty())));
                                    match rg {
                                        Err(e) => (Err(e), s4),
                                        Ok(gens) => {
                                            let (k2, s5) = p_expect(c, s4, TokenKindV::RBracket);
                                            match k2 {
                                                Err(e) => (Err(e), s5),
                                                Ok(_) => (
                                                    Ok(mk_expr(
                                                        ExprKindV::ArrayComp { expr: Box::new(first), generators: gens },
                                                        start,
                                                        s5.cur.span.end,
                                                    )),
                                                    s5,
                                                ),
                                            }
                                        },
                                    }
                                } else {
                                    (Ok(first), s3)
                                },
                            }
                        } else if meas(c, s2) < meas(c, st) {
                            let (re, s3) = as_list(p_task(c, s2, ETask::ArrayElems(seq![first])));
                            match re {
                                Err(e) => (Err(e), s3),
                                Ok(elems) => {
                                    let (k2, s4) = p_expect(c, s3, TokenKindV::RBracket);
                                    match k2 {
                                        Err(e) => (Err(e), s4),
                                        Ok(_) => (Ok(mk_expr(ExprKindV::ArrayLit(elems), start, s4.cur.span.end)), s4),
                                    }
                                },
                            }
                        } else {
                            (Ok(first), s2)
                        },
                    }
                } else {
                    (Err(unexpected(c, Seq::empty(), s1, s1.cur.span)), s1)
                },
            }
        }),
        ETask::SetLit => out_expr({
            let start = st.cur.span.start;
            let (k, s1) = p_expect(c, st, TokenKindV::LBrace);
            match k {
                Err(e) => (Err(e), s1),
                Ok(_) => if meas(c, s1) < meas(c, st) {
                    let (re, s2) = if s1.cur.kind is RBrace {
                        (Ok(Seq::empty()), s1)
                    } else {
                        as_list(p_task(c, s1, ETask::ExprList(Seq::empty())))
                    };
                    match re {
                        Err(e) => (Err(e), s2),
                        Ok(elems) => {
                            let (k2, s3) = p_expect(c, s2, TokenKindV::RBrace);
                            match k2 {
                                Err(e) => (Err(e), s3),
                                Ok(_) => (Ok(mk_expr(ExprKindV::SetLit(elems), start, s3.cur.span.end)), s3),
                            }
                        },
                    }
                } else {
                    (Err(unexpected(c, Seq::empty(), s1, s1.cur.span)), s1)
                },
            }
        }),
    }
}

pub open spec fn p_expr_bp(c: PCtx, st: PState, min_bp: u8) -> PR<ExprV> {
    as_expr(p_task(c, st, ETask::ExprBp(min_bp)))
}

pub open spec fn p_binop_loop(c: PCtx, st: PState, min_bp: u8, start: usize, lhs: ExprV) -> PR<ExprV> {
    as_expr(p_task(c, st, ETask::BinopLoop(min_bp, start, lhs)))
}

pub open spec fn p_prefix(c: PCtx, st: PState) -> PR<ExprV> {
    as_expr(p_task(c, st, ETask::Prefix))
}

pub open spec fn p_postfix(c: PCtx, st: PState) -> PR<ExprV> {
    as_expr(p_task(c, st, ETask::Postfix))
}

pub open spec fn p_postfix_loop(c: PCtx, st: PState, x: ExprV) -> PR<ExprV> {
    as_expr(p_task(c, st, ETask::PostfixLoop(x)))
}

pub open spec fn p_call_suffix(c: PCtx, st: PState, name: Seq<char>, start: usize) -> PR<(ExprV, bool)> {
    as_suffix(p_task(c, st, ETask::CallSuffix(name, start)))
}

pub open spec fn p_expr_then(c: PCtx, st: PState, k: TokenKindV) -> PR<ExprV> {
    as_expr(p_task(c, st, ETask::ExprThen(k)))
}

pub open spec fn p_expr_list(c: PCtx, st: PState, acc: Seq<ExprV>) -> PR<Seq<ExprV>> {
    as_list(p_task(c, st, ETask::ExprList(acc)))
}

pub open spec fn p_array2d(c: PCtx, st: PState, start: usize) -> PR<ExprV> {
    as_expr(p_task(c, st, ETask::Array2d(start)))
}

pub open spec fn p_array3d(c: PCtx, st: PState, start: usize) -> PR<ExprV> {
    as_expr(p_task(c, st, ETask::Array3d(start)))
}

pub open spec fn p_call_args(c: PCtx, st: PState, name: Seq<char>, start: usize, acc: Seq<ExprV>) -> PR<CallArgs> {
    as_args(p_task(c, st, ETask::Args(name, start, acc)))
}

pub open spec fn p_generators(c: PCtx, st: PState, acc: Seq<GeneratorV>) -> PR<Seq<GeneratorV>> {
    as_gens(p_task(c, st, ETask::Generators(acc)))
}

pub open spec fn p_primary(c: PCtx, st: PState) -> PR<ExprV> {
    as_expr(p_task(c, st, ETask::Primary))
}

pub open spec fn p_array_elems(c: PCtx, st: PState, acc: Seq<ExprV>) -> PR<Seq<ExprV>> {
    as_list(p_task(c, st, ETask::ArrayElems(acc)))
}

pub open spec fn p_array_lit(c: PCtx, st: PState) -> PR<ExprV> {
    as_expr(p_task(c, st, ETask::ArrayLit))
}

pub open spec fn p_set_lit(c: PCtx, st: PState) -> PR<ExprV> {
    as_expr(p_task(c, st, ETask::SetLit))
}












/// Further names of a generator: `, j, k` (a `,` directly before `in` ends
/// the list).
pub open spec fn p_gen_names(c: PCtx, st: PState, acc: Seq<Seq<char>>) -> PR<Seq<Seq<char>>>
    decreases meas(c, st),
{
    if st.cur.kind is Comma {
        let (a, s1) = p_advance(c, st);
        match a {
            Err(e) => (Err(e), s1),
            Ok(_) => if s1.cur.kind is In {
                (Ok(acc), s1)
            } else {
                let (rn, s2) = p_expect_ident(c, s1);
                match rn {
                    Err(e) => (Err(e), s2),
                    Ok(n) => if meas(c, s2) < meas(c, st) {
                        p_gen_names(c, s2, acc.push(n))
                    } else {
                        (Ok(acc.push(n)), s2)
                    },
                }
            },
        }
    } else {
        (Ok(acc), st)
    }
}







// ---------------------------------------------------------------------------
// Type-insts and items.

/// Base type of a constrained type-inst: float when its domain is a range
/// whose lower bound is a float literal, else int.
pub open spec fn domain_base(d: ExprV) -> BaseTypeV {
    match d.kind {
        ExprKindV::BinOp { op: BinOp::Range, left, .. } => match left.kind {
            ExprKindV::FloatLit(_) => BaseTypeV::Float,
            _ => BaseTypeV::Int,
        },
        ExprKindV::Range(left, _) => match left.kind {
            ExprKindV::FloatLit(_) => BaseTypeV::Float,
            _ => BaseTypeV::Int,
        },
        _ => BaseTypeV::Int,
    }
}

/// A domain that is a range whose lower bound is a float literal.
pub open spec fn float_range(d: ExprV) -> bool {
    match d.kind {
        ExprKindV::BinOp { op: BinOp::Range, left, .. } => left.kind is FloatLit,
        ExprKindV::Range(left, _) => left.kind is FloatLit,
        _ => false,
    }
}

/// A constrained type-inst is a float one exactly when its domain is a
/// range from a float literal, and an integer one otherwise.
pub proof fn lemma_constrained_base(c: PCtx, st: PState)
    ensures
        p_type_inst(c, st).0 matches Ok(TypeInstV::Constrained { base_type, domain, .. }) ==> (base_type
            == BaseTypeV::Float) == float_range(domain) && (base_type == BaseTypeV::Float || base_type
            == BaseTypeV::Int),
{
}

/// One index set of an array type: `int`, `bool`, `float` (implicit) or an
/// expression; then more after `,`.
pub open spec fn p_index_sets(c: PCtx, st: PState, acc: Seq<ExprV>) -> PR<Seq<ExprV>>
    decreases meas(c, st),
{
    let implicit = match st.cur.kind {
        TokenKindV::Int => Some(BaseTypeV::Int),
        TokenKindV::Bool => Some(BaseTypeV::Bool),
        TokenKindV::Float => Some(BaseTypeV::Float),
        _ => None,
    };
    let (r, s1) = match implicit {
        Some(b) => {
            let (a, s1) = p_advance(c, st);
            match a {
                Err(e) => (Err(e), s1),
                Ok(_) => (Ok(ExprV { kind: ExprKindV::ImplicitIndexSet(b), span: st.cur.span }), s1),
            }
        },
        None => p_expr_bp(c, st, 0),
    };
    match r {
        Err(e) => (Err(e), s1),
        Ok(x) => {
            let acc2 = acc.push(x);
            if s1.cur.kind is Comma {
                let (a, s2) = p_advance(c, s1);
                match a {
                    Err(e) => (Err(e), s2),
                    Ok(_) => if meas(c, s2) < meas(c, st) {
                        p_index_sets(c, s2, acc2)
                    } else {
                        (Ok(acc2), s2)
                    },
                }
            } else {
                (Ok(acc2), s1)
            }
        },
    }
}

/// `array[index sets] of type-inst`.
pub open spec fn p_array_type_inst(c: PCtx, st: PState) -> PR<TypeInstV>
    decreases meas(c, st), 0nat,
{
    let (k1, s1) = p_expect(c, st, TokenKindV::Array);
    match k1 {
        Err(e) => (Err(e), s1),
        Ok(_) => {
            let (k2, s2) = p_expect(c, s1, TokenKindV::LBracket);
            match k2 {
                Err(e) => (Err(e), s2),
                Ok(_) => {
                    let (ri, s3) = p_index_sets(c, s2, Seq::empty());
                    match ri {
                        Err(e) => (Err(e), s3),
                        Ok(index_sets) => {
                            let (k3, s4) = p_expect(c, s3, TokenKindV::RBracket);
                            match k3 {
                                Err(e) => (Err(e), s4),
                                Ok(_) => {
                                    let (k4, s5) = p_expect(c, s4, TokenKindV::Of);
                                    match k4 {
                                        Err(e) => (Err(e), s5),
                                        Ok(_) => if meas(c, s5) < meas(c, st) {
                                            let (rt, s6) = p_type_inst(c, s5);
                                            match rt {
                                                Err(e) => (Err(e), s6),
                                                Ok(t) => (Ok(TypeInstV::Array { index_sets, element_type: Box::new(t) }), s6),
                                            }
                                        } else {
                                            (Err(unexpected(c, Seq::empty(), s5, s5.cur.span)), s5)
                                        },
                                    }
                                },
                            }
                        },
                    }
                },
            }
        },
    }
}

/// `parse_type_inst`: an array type, or `var`/`par` then a base type or a
/// constrained domain.
pub open spec fn p_type_inst(c: PCtx, st: PState) -> PR<TypeInstV>
    decreases meas(c, st), 1nat,
{
    if st.cur.kind is Array {
        p_array_type_inst(c, st)
    } else {
        let (rv, s1) = match st.cur.kind {
            TokenKindV::Var => {
                let (a, s) = p_advance(c, st);
                match a {
                    Err(e) => (Err(e), s),
                    Ok(_) => (Ok(true), s),
                }
            },
            TokenKindV::Par => {
                let (a, s) = p_advance(c, st);
                match a {
                    Err(e) => (Err(e), s),
                    Ok(_) => (Ok(false), s),
                }
            },
            _ => (Ok(false), st),
        };
        match rv {
            Err(e) => (Err(e), s1),
            Ok(is_var) => {
                let basic = match s1.cur.kind {
                    TokenKindV::Bool => Some(BaseTypeV::Bool),
                    TokenKindV::Int => Some(BaseTypeV::Int),
                    TokenKindV::Float => Some(BaseTypeV::Float),
                    _ => None,
                };
                match basic {
                    Some(b) => {
                        let (a, s2) = p_advance(c, s1);
                        match a {
                            Err(e) => (Err(e), s2),
                            Ok(_) => (Ok(TypeInstV::Basic { is_var, base_type: b }), s2),
                        }
                    },
                    None => if s1.cur.kind is IntLit || s1.cur.kind is FloatLit || s1.cur.kind is LBrace {
                        let (rd, s2) = if s1.cur.kind is LBrace {
                            p_set_lit(c, s1)
                        } else {
                            p_expr_bp(c, s1, 0)
                        };
                        match rd {
                            Err(e) => (Err(e), s2),
                            Ok(d) => (Ok(TypeInstV::Constrained { is_var, base_type: domain_base(d), domain: d }), s2),
                        }
                    } else {
                        (
                            Err(unexpected(c, "type (bool, int, float, or constrained type)"@, s1, s1.cur.span)),
                            s1,
                        )
                    },
                }
            },
        }
    }
}

/// `type-inst : name [= expr] ;`
pub open spec fn p_var_decl(c: PCtx, st: PState) -> PR<ItemV> {
    let start = st.cur.span.start;
    let (rt, s1) = p_type_inst(c, st);
    match rt {
        Err(e) => (Err(e), s1),
        Ok(t) => {
            let (k1, s2) = p_expect(c, s1, TokenKindV::Colon);
            match k1 {
                Err(e) => (Err(e), s2),
                Ok(_) => {
                    let (rn, s3) = p_expect_ident(c, s2);
                    match rn {
                        Err(e) => (Err(e), s3),
                        Ok(name) => {
                            let (rx, s4) = if s3.cur.kind is Eq {
                                let (a, s) = p_advance(c, s3);
                                match a {
                                    Err(e) => (Err(e), s),
                                    Ok(_) => {
                                        let (r, s5) = p_expr_bp(c, s, 0);
                                        match r {
                                            Err(e) => (Err(e), s5),
                                            Ok(x) => (Ok(Some(x)), s5),
                                        }
                                    },
                                }
                            } else {
                                (Ok(None), s3)
                            };
                            match rx {
                                Err(e) => (Err(e), s4),
                                Ok(x) => {
                                    let (k2, s5) = p_expect(c, s4, TokenKindV::Semicolon);
                                    match k2 {
                                        Err(e) => (Err(e), s5),
                                        Ok(_) => (
                                            Ok(ItemV::VarDecl(VarDeclV {
                                                type_inst: t,
                                                name,
                                                expr: x,
                                                span: Span { start, end: s5.cur.span.end },
                                            })),
                                            s5,
                                        ),
                                    }
                                },
                            }
                        },
                    }
                },
            }
        },
    }
}

/// `keyword expr ;` for constraint and output items: the expression and the
/// item's span.
pub open spec fn p_keyword_expr_item(c: PCtx, st: PState, k: TokenKindV) -> PR<(ExprV, Span)> {
    let start = st.cur.span.start;
    let (k1, s1) = p_expect(c, st, k);
    match k1 {
        Err(e) => (Err(e), s1),
        Ok(_) => {
            let (r, s2) = p_expr_then(c, s1, TokenKindV::Semicolon);
            match r {
                Err(e) => (Err(e), s2),
                Ok(x) => (Ok((x, Span { start, end: s2.cur.span.end })), s2),
            }
        },
    }
}

/// `constraint expr ;`
pub open spec fn p_constraint(c: PCtx, st: PState) -> PR<ItemV> {
    let (r, s1) = p_keyword_expr_item(c, st, TokenKindV::Constraint);
    match r {
        Err(e) => (Err(e), s1),
        Ok((x, sp)) => (Ok(ItemV::Constraint { expr: x, span: sp }), s1),
    }
}

/// `output expr ;`
pub open spec fn p_output(c: PCtx, st: PState) -> PR<ItemV> {
    let (r, s1) = p_keyword_expr_item(c, st, TokenKindV::Output);
    match r {
        Err(e) => (Err(e), s1),
        Ok((x, sp)) => (Ok(ItemV::Output { expr: x, span: sp }), s1),
    }
}

/// Skips tokens until `satisfy`, `minimize`, `maximize` or end-of-file.
pub open spec fn p_skip_to_goal(c: PCtx, st: PState) -> PR<SearchOption>
    decreases meas(c, st),
{
    if st.cur.kind is Satisfy || st.cur.kind is Minimize || st.cur.kind is Maximize || st.cur.kind is Eof {
        (Ok(SearchOption::Complete), st)
    } else {
        let (a, s1) = p_advance(c, st);
        match a {
            Err(e) => (Err(e), s1),
            Ok(_) => if meas(c, s1) < meas(c, st) {
                p_skip_to_goal(c, s1)
            } else {
                (Ok(SearchOption::Complete), s1)
            },
        }
    }
}

/// Skips to the closing `)` of an annotation and past it.
pub open spec fn p_close_annotation(c: PCtx, st: PState) -> PR<()>
    decreases meas(c, st),
{
    if !(st.cur.kind is RParen) && !(st.cur.kind is Eof) {
        let (a, s1) = p_advance(c, st);
        match a {
            Err(e) => (Err(e), s1),
            Ok(_) => if meas(c, s1) < meas(c, st) {
                p_close_annotation(c, s1)
            } else {
                (Ok(()), s1)
            },
        }
    } else if st.cur.kind is RParen {
        p_advance(c, st)
    } else {
        (Ok(()), st)
    }
}

/// The `complete`/`incomplete` choice of a search option name.
pub open spec fn search_option_of(n: Seq<char>) -> Option<SearchOption> {
    if n == "complete"@ {
        Some(SearchOption::Complete)
    } else if n == "incomplete"@ {
        Some(SearchOption::Incomplete)
    } else {
        None
    }
}

/// Arguments of `int_search(...)` (and the like) at parenthesis depth
/// `depth` after `count` commas: the fourth argument, when it is
/// `complete` or `incomplete`, gives the option; otherwise complete.
pub open spec fn p_annotation_args(c: PCtx, st: PState, depth: nat, count: nat) -> PR<SearchOption>
    decreases meas(c, st),
{
    if depth > 0 && !(st.cur.kind is Eof) {
        let d2: nat = match st.cur.kind {
            TokenKindV::LParen => depth + 1,
            TokenKindV::RParen => (depth - 1) as nat,
            _ => depth,
        };
        let n2: nat = match st.cur.kind {
            TokenKindV::Comma => if depth == 1 { count + 1 } else { count },
            _ => count,
        };
        let opt = match st.cur.kind {
            TokenKindV::Ident(n) => if d2 == 1 && n2 == 3 { search_option_of(n) } else { None },
            _ => None,
        };
        match opt {
            Some(o) => {
                let (r, s1) = p_close_annotation(c, st);
                match r {
                    Err(e) => (Err(e), s1),
                    Ok(_) => (Ok(o), s1),
                }
            },
            None => {
                let (a, s1) = p_advance(c, st);
                match a {
                    Err(e) => (Err(e), s1),
                    Ok(_) => if meas(c, s1) < meas(c, st) {
                        p_annotation_args(c, s1, d2, n2)
                    } else {
                        (Ok(SearchOption::Complete), s1)
                    },
                }
            },
        }
    } else {
        (Ok(SearchOption::Complete), st)
    }
}

/// A search annotation after `::`.
pub open spec fn p_search_annotation(c: PCtx, st: PState) -> PR<SearchOption> {
    match st.cur.kind {
        TokenKindV::Ident(n) => match search_option_of(n) {
            Some(o) => {
                let (a, s1) = p_advance(c, st);
                match a {
                    Err(e) => (Err(e), s1),
                    Ok(_) => (Ok(o), s1),
                }
            },
            None => if n == "int_search"@ || n == "bool_search"@ || n == "float_search"@ {
                let (a, s1) = p_advance(c, st);
                match a {
                    Err(e) => (Err(e), s1),
                    Ok(_) => {
                        let (k, s2) = p_expect(c, s1, TokenKindV::LParen);
                        match k {
                            Err(e) => (Err(e), s2),
                            Ok(_) => p_annotation_args(c, s2, 1, 0),
                        }
                    },
                }
            } else {
                p_skip_to_goal(c, st)
            },
        },
        _ => p_skip_to_goal(c, st),
    }
}

/// `solve [:: annotation] satisfy|minimize e|maximize e ;`
pub open spec fn p_solve(c: PCtx, st: PState) -> PR<ItemV> {
    let start = st.cur.span.start;
    let (k1, s1) = p_expect(c, st, TokenKindV::Solve);
    match k1 {
        Err(e) => (Err(e), s1),
        Ok(_) => {
            let (ro, s2) = if s1.cur.kind is ColonColon {
                let (a, s) = p_advance(c, s1);
                match a {
                    Err(e) => (Err(e), s),
                    Ok(_) => {
                        let (r, s3) = p_search_annotation(c, s);
                        match r {
                            Err(e) => (Err(e), s3),
                            Ok(o) => (Ok(Some(o)), s3),
                        }
                    },
                }
            } else {
                (Ok(None), s1)
            };
            match ro {
                Err(e) => (Err(e), s2),
                Ok(so) => {
                    let (rs, s3) = match s2.cur.kind {
                        TokenKindV::Satisfy => {
                            let (a, s) = p_advance(c, s2);
                            match a {
                                Err(e) => (Err(e), s),
                                Ok(_) => (Ok(SolveV::Satisfy { search_option: so, span: Span { start, end: s.cur.span.end } }), s),
                            }
                        },
                        TokenKindV::Minimize => {
                            let (a, s) = p_advance(c, s2);
                            match a {
                                Err(e) => (Err(e), s),
                                Ok(_) => {
                                    let (r, s4) = p_expr_bp(c, s, 0);
                                    match r {
                                        Err(e) => (Err(e), s4),
                                        Ok(x) => (Ok(SolveV::Minimize { expr: x, search_option: so, span: Span { start, end: s4.cur.span.end } }), s4),
                                    }
                                },
                            }
                        },
                        TokenKindV::Maximize => {
                            let (a, s) = p_advance(c, s2);
                            match a {
                                Err(e) => (Err(e), s),
                                Ok(_) => {
                                    let (r, s4) = p_expr_bp(c, s, 0);
                                    match r {
                                        Err(e) => (Err(e), s4),
                                        Ok(x) => (Ok(SolveV::Maximize { expr: x, search_option: so, span: Span { start, end: s4.cur.span.end } }), s4),
                                    }
                                },
                            }
                        },
                        _ => (Err(unexpected(c, "satisfy, minimize, or maximize"@, s2, s2.cur.span)), s2),
                    };
                    match rs {
                        Err(e) => (Err(e), s3),
                        Ok(sv) => {
                            let (k2, s4) = p_expect(c, s3, TokenKindV::Semicolon);
                            match k2 {
                                Err(e) => (Err(e), s4),
                                Ok(_) => (Ok(ItemV::Solve(sv)), s4),
                            }
                        },
                    }
                },
            }
        },
    }
}

/// `parse_item`: chosen by the current token.
pub open spec fn p_item(c: PCtx, st: PState) -> PR<ItemV> {
    match st.cur.kind {
        TokenKindV::Constraint => p_constraint(c, st),
        TokenKindV::Solve => p_solve(c, st),
        TokenKindV::Output => p_output(c, st),
        _ => p_var_decl(c, st),
    }
}

/// `parse_model`: items until end-of-file, appended to `acc`.
pub open spec fn p_items(c: PCtx, st: PState, acc: Seq<ItemV>) -> PR<Seq<ItemV>>
    decreases meas(c, st),
{
    if st.cur.kind is Eof {
        (Ok(acc), st)
    } else {
        let (r, s1) = p_item(c, st);
        match r {
            Err(e) => (Err(e), s1),
            Ok(it) => if meas(c, s1) < meas(c, st) {
                p_items(c, s1, acc.push(it))
            } else {
                (Ok(acc.push(it)), s1)
            },
        }
    }
}

/// The result of parsing a whole source text.
pub open spec fn parse_spec(source: Seq<char>) -> core::result::Result<Seq<ItemV>, ErrorV> {
    let c = PCtx { src: source, text: source };
    p_items(c, initial_state(source, 0), Seq::empty()).0
}

} // verus!
