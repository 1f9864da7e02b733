//! Errors of the lexer, parser and code generator, with their location in
//! the source and their message text.

use vstd::prelude::*;
use crate::ast::Span;
use crate::text::{chars_of, nat_decimal, push_str, push_usize, string_from_chars};

verus! {

pub type Result<T> = core::result::Result<T, Error>;

/// Parser and compiler errors.
#[derive(Debug, Clone, PartialEq)]
pub struct Error {
    pub kind: ErrorKind,
    pub span: Span,
    pub source: Option<String>,
}

#[derive(Debug, Clone, PartialEq)]
pub enum ErrorKind {
    UnexpectedChar(char),
    UnterminatedString,
    InvalidNumber(String),
    UnexpectedToken { expected: String, found: String },
    UnexpectedEof,
    InvalidExpression(String),
    InvalidTypeInst(String),
    UnsupportedFeature { feature: String, phase: String, workaround: Option<String> },
    TypeError { expected: String, found: String },
    DuplicateDeclaration(String),
    UndefinedVariable(String),
    Message(String),
}

pub enum ErrorKindV {
    UnexpectedChar(char),
    UnterminatedString,
    InvalidNumber(Seq<char>),
    UnexpectedToken { expected: Seq<char>, found: Seq<char> },
    UnexpectedEof,
    InvalidExpression(Seq<char>),
    InvalidTypeInst(Seq<char>),
    UnsupportedFeature { feature: Seq<char>, phase: Seq<char>, workaround: Option<Seq<char>> },
    TypeError { expected: Seq<char>, found: Seq<char> },
    DuplicateDeclaration(Seq<char>),
    UndefinedVariable(Seq<char>),
    Message(Seq<char>),
}

pub struct ErrorV {
    pub kind: ErrorKindV,
    pub span: Span,
    pub source: Option<Seq<char>>,
}

pub open spec fn view_error_kind(k: ErrorKind) -> ErrorKindV {
    match k {
        ErrorKind::UnexpectedChar(c) => ErrorKindV::UnexpectedChar(c),
        ErrorKind::UnterminatedString => ErrorKindV::UnterminatedString,
        ErrorKind::InvalidNumber(s) => ErrorKindV::InvalidNumber(s@),
        ErrorKind::UnexpectedToken { expected, found } => ErrorKindV::UnexpectedToken {
            expected: expected@,
            found: found@,
        },
        ErrorKind::UnexpectedEof => ErrorKindV::UnexpectedEof,
        ErrorKind::InvalidExpression(s) => ErrorKindV::InvalidExpression(s@),
        ErrorKind::InvalidTypeInst(s) => ErrorKindV::InvalidTypeInst(s@),
        ErrorKind::UnsupportedFeature { feature, phase, workaround } => ErrorKindV::UnsupportedFeature {
            feature: feature@,
            phase: phase@,
            workaround: match workaround {
                Some(w) => Some(w@),
                None => None,
            },
        },
        ErrorKind::TypeError { expected, found } => ErrorKindV::TypeError { expected: expected@, found: found@ },
        ErrorKind::DuplicateDeclaration(s) => ErrorKindV::DuplicateDeclaration(s@),
        ErrorKind::UndefinedVariable(s) => ErrorKindV::UndefinedVariable(s@),
        ErrorKind::Message(s) => ErrorKindV::Message(s@),
    }
}

impl View for ErrorKind {
    type V = ErrorKindV;

    open spec fn view(&self) -> ErrorKindV {
        view_error_kind(*self)
    }
}

impl View for Error {
    type V = ErrorV;

    open spec fn view(&self) -> ErrorV {
        ErrorV {
            kind: self.kind@,
            span: self.span,
            source: match self.source {
                Some(s) => Some(s@),
                None => None,
            },
        }
    }
}

/// The error with the source text attached.
pub open spec fn error_with_source(e: ErrorV, source: Seq<char>) -> ErrorV {
    ErrorV { source: Some(source), ..e }
}

/// Line and column (both from 1) of offset `k` in `s`: lines are counted
/// by `'\n'` characters, and every other character advances the column.
pub open spec fn line_col(s: Seq<char>, k: nat) -> (nat, nat)
    decreases k,
{
    if k == 0 {
        (1, 1)
    } else {
        let (l, c) = line_col(s, (k - 1) as nat);
        if s[k - 1] == '\n' {
            (l + 1, 1)
        } else {
            (l, c + 1)
        }
    }
}

/// Lines and columns count from 1, and neither exceeds the offset plus one.
pub proof fn lemma_line_col_bound(s: Seq<char>, k: nat)
    ensures
        1 <= line_col(s, k).0 <= k + 1,
        1 <= line_col(s, k).1 <= k + 1,
    decreases k,
{
    if k > 0 {
        lemma_line_col_bound(s, (k - 1) as nat);
    }
}

/// An error without source text is located at (0, 0); with it, at a line
/// and column counted from 1.
pub proof fn lemma_location_of(source: Option<Seq<char>>, offset: usize)
    ensures
        source is None ==> location_of(source, offset) == (0nat, 0nat),
        source is Some ==> location_of(source, offset).0 >= 1 && location_of(source, offset).1 >= 1,
{
    match source {
        Some(s) => lemma_line_col_bound(s, if offset < s.len() { offset as nat } else { s.len() }),
        None => {},
    }
}

/// The location reported for an offset: `(0, 0)` without
/// source text, else the line and column of the offset clamped to the text.
pub open spec fn location_of(source: Option<Seq<char>>, offset: usize) -> (nat, nat) {
    match source {
        None => (0, 0),
        Some(s) => line_col(s, if offset < s.len() { offset as nat } else { s.len() }),
    }
}

/// Index of the first `'\n'` in `s`, or `s.len()`.
pub open spec fn first_newline(s: Seq<char>) -> nat
    decreases s.len(),
{
    if s.len() == 0 {
        0
    } else if s[0] == '\n' {
        0
    } else {
        first_newline(s.drop_first()) + 1
    }
}

/// A line with the `'\r'` of a `"\r\n"` terminator removed.
pub open spec fn strip_cr(l: Seq<char>) -> Seq<char> {
    if l.len() > 0 && l.last() == '\r' {
        l.drop_last()
    } else {
        l
    }
}

/// The `n`-th line (from 0) as `str::lines` yields it: lines end at `"\n"`
/// or `"\r\n"` (terminator not included), and a final line needs no
/// terminator but is not yielded when empty.
pub open spec fn nth_line(s: Seq<char>, n: nat) -> Option<Seq<char>>
    decreases s.len(),
{
    let e = first_newline(s);
    if n == 0 {
        if e < s.len() {
            Some(strip_cr(s.take(e as int)))
        } else if s.len() > 0 {
            Some(s)
        } else {
            None
        }
    } else if e < s.len() {
        nth_line(s.skip(e as int + 1), (n - 1) as nat)
    } else {
        None
    }
}

/// The source line of an error: `None` without source text; otherwise the
/// line its location names, or the empty text when there is no such line.
pub open spec fn source_line_of(e: ErrorV) -> Option<Seq<char>> {
    match e.source {
        None => None,
        Some(s) => {
            let (l, _) = location_of(e.source, e.span.start);
            Some(
                if l > 0 && nth_line(s, (l - 1) as nat) is Some {
                    nth_line(s, (l - 1) as nat)->0
                } else {
                    Seq::empty()
                },
            )
        },
    }
}

/// Message of an error kind.
pub open spec fn kind_message(k: ErrorKindV) -> Seq<char> {
    match k {
        ErrorKindV::UnexpectedChar(c) => "Unexpected character '"@ + seq![c] + "'"@,
        ErrorKindV::UnterminatedString => "Unterminated string literal"@,
        ErrorKindV::InvalidNumber(s) => "Invalid number: "@ + s,
        ErrorKindV::UnexpectedToken { expected, found } => "Expected "@ + expected + ", found "@ + found,
        ErrorKindV::UnexpectedEof => "Unexpected end of file"@,
        ErrorKindV::InvalidExpression(m) => "Invalid expression: "@ + m,
        ErrorKindV::InvalidTypeInst(m) => "Invalid type-inst: "@ + m,
        ErrorKindV::UnsupportedFeature { feature, phase, workaround } => "Unsupported feature: "@ + feature
            + " (will be supported in "@ + phase + ")"@ + match workaround {
            Some(w) => "\nWorkaround: "@ + w,
            None => Seq::empty(),
        },
        ErrorKindV::TypeError { expected, found } => "Type error: expected "@ + expected + ", found "@ + found,
        ErrorKindV::DuplicateDeclaration(n) => "Duplicate declaration of '"@ + n + "'"@,
        ErrorKindV::UndefinedVariable(n) => "Undefined variable '"@ + n + "'"@,
        ErrorKindV::Message(m) => m,
    }
}

/// The full text of an error: a header
/// with the location when there is one, the message, then the source line
/// with a caret under the column.
pub open spec fn error_text(e: ErrorV) -> Seq<char> {
    let (line, col) = location_of(e.source, e.span.start);
    let header = if line > 0 {
        "Error"@ + " at line "@ + nat_decimal(line) + ", column "@ + nat_decimal(col) + ": "@
    } else {
        "Error"@ + ": "@
    };
    let tail = match source_line_of(e) {
        Some(sl) => "\n  "@ + sl + if col > 0 {
            "\n  "@ + Seq::new((col - 1) as nat, |i: int| ' ') + "^"@
        } else {
            Seq::empty()
        },
        None => Seq::empty(),
    };
    header + kind_message(e.kind) + tail
}

impl From<String> for Error {
    /// A message error with no location: `Message(msg)` at `Span::dummy()`.
    fn from(msg: String) -> (e: Self) {
        Error { kind: ErrorKind::Message(msg), span: Span::dummy(), source: None }
    }
}

impl vstd::std_specs::convert::FromSpecImpl<String> for Error {
    open spec fn obeys_from_spec() -> bool {
        true
    }

    open spec fn from_spec(msg: String) -> Error {
        Error { kind: ErrorKind::Message(msg), span: Span { start: 0, end: 0 }, source: None }
    }
}

impl Error {
    pub fn new(kind: ErrorKind, span: Span) -> (e: Self)
        ensures
            e@ == (ErrorV { kind: kind@, span, source: None }),
    {
        Self { kind, span, source: None }
    }

    pub fn with_source(self, source: String) -> (e: Self)
        ensures
            e@ == error_with_source(self@, source@),
    {
        Self { source: Some(source), ..self }
    }

    pub fn unexpected_token(expected: &str, found: &str, span: Span) -> (e: Self)
        ensures
            e@ == (ErrorV {
                kind: ErrorKindV::UnexpectedToken { expected: expected@, found: found@ },
                span,
                source: None,
            }),
    {
        Self::new(
            ErrorKind::UnexpectedToken {
                expected: String::from_str(expected),
                found: String::from_str(found),
            },
            span,
        )
    }

    pub fn unexpected_eof(span: Span) -> (e: Self)
        ensures
            e@ == (ErrorV { kind: ErrorKindV::UnexpectedEof, span, source: None }),
    {
        Self::new(ErrorKind::UnexpectedEof, span)
    }

    pub fn unsupported_feature(feature: &str, phase: &str, span: Span) -> (e: Self)
        ensures
            e@ == (ErrorV {
                kind: ErrorKindV::UnsupportedFeature { feature: feature@, phase: phase@, workaround: None },
                span,
                source: None,
            }),
    {
        Self::new(
            ErrorKind::UnsupportedFeature {
                feature: String::from_str(feature),
                phase: String::from_str(phase),
                workaround: None,
            },
            span,
        )
    }

    /// A type error (`expected`, `found`) at `span`.
    pub fn type_error(expected: &str, found: &str, span: Span) -> (e: Self)
        ensures
            e@ == (ErrorV {
                kind: ErrorKindV::TypeError { expected: expected@, found: found@ },
                span,
                source: None,
            }),
    {
        Self::new(
            ErrorKind::TypeError { expected: String::from_str(expected), found: String::from_str(found) },
            span,
        )
    }

    /// A free-form message at `span`.
    pub fn message(msg: &str, span: Span) -> (e: Self)
        ensures
            e@ == (ErrorV { kind: ErrorKindV::Message(msg@), span, source: None }),
    {
        Self::new(ErrorKind::Message(String::from_str(msg)), span)
    }

    /// Sets the workaround of an unsupported-feature error; other errors are
    /// returned unchanged.
    pub fn with_workaround(self, workaround: &str) -> (e: Self)
        ensures
            e@ == (match self@.kind {
                ErrorKindV::UnsupportedFeature { feature, phase, .. } => ErrorV {
                    kind: ErrorKindV::UnsupportedFeature { feature, phase, workaround: Some(workaround@) },
                    ..self@
                },
                _ => self@,
            }),
    {
        match self.kind {
            ErrorKind::UnsupportedFeature { feature, phase, .. } => Self {
                kind: ErrorKind::UnsupportedFeature {
                    feature,
                    phase,
                    workaround: Some(String::from_str(workaround)),
                },
                span: self.span,
                source: self.source,
            },
            kind => Self { kind, span: self.span, source: self.source },
        }
    }

    /// Line and column of the error in the source (`(0, 0)` without source).
    pub fn location(&self) -> (r: (usize, usize))
        ensures
            (r.0 as nat, r.1 as nat) == location_of(self@.source, self.span.start),
    {
        match &self.source {
            None => (0, 0),
            Some(source) => {
                let chars = chars_of(source.as_str());
                let ghost s = chars@;
                let stop = if self.span.start < chars.len() { self.span.start } else { chars.len() };
                let mut line: usize = 1;
                let mut col: usize = 1;
                let mut i: usize = 0;
                while i < stop
                    invariant
                        s == chars@,
                        chars.len() <= isize::MAX,
                        stop <= chars.len(),
                        i <= stop,
                        (line as nat, col as nat) == line_col(s, i as nat),
                        line <= i + 1,
                        col <= i + 1,
                    decreases stop - i,
                {
                    if chars[i] == '\n' {
                        line = line + 1;
                        col = 1;
                    } else {
                        col = col + 1;
                    }
                    i = i + 1;
                }
                (line, col)
            },
        }
    }

    /// The line of source text where the error occurred.
    pub fn source_line(&self) -> (r: Option<String>)
        ensures
            match r {
                Some(t) => source_line_of(self@) == Some(t@),
                None => source_line_of(self@) is None,
            },
    {
        match &self.source {
            None => None,
            Some(source) => {
                let (line, _) = self.location();
                let chars = chars_of(source.as_str());
                if line == 0 {
                    return Some(String::new());
                }
                match nth_line_exec(&chars, line - 1) {
                    Some(v) => Some(string_from_chars(&v)),
                    None => Some(String::new()),
                }
            },
        }
    }

    /// The error as text: location, message, and the source line with a
    /// caret under the column.
    pub fn to_string(&self) -> (r: String)
        ensures
            r@ == error_text(self@),
    {
        let (line, col) = self.location();
        let mut out: Vec<char> = Vec::new();
        push_str(&mut out, "Error");
        if line > 0 {
            push_str(&mut out, " at line ");
            push_usize(&mut out, line);
            push_str(&mut out, ", column ");
            push_usize(&mut out, col);
        }
        push_str(&mut out, ": ");
        let ghost header = out@;
        push_kind_message(&mut out, &self.kind);
        let ghost with_msg = out@;
        match self.source_line() {
            Some(sl) => {
                push_str(&mut out, "\n  ");
                push_str(&mut out, sl.as_str());
                let ghost before_caret = out@;
                if col > 0 {
                    push_str(&mut out, "\n  ");
                    let mut k: usize = 0;
                    while k < col - 1
                        invariant
                            k <= col - 1,
                            col > 0,
                            out@ == before_caret + "\n  "@ + Seq::new(k as nat, |i: int| ' '),
                        decreases col - 1 - k,
                    {
                        out.push(' ');
                        k = k + 1;
                        assert(Seq::new(k as nat, |i: int| ' ') =~= Seq::new((k - 1) as nat, |i: int| ' ').push(' '));
                    }
                    push_str(&mut out, "^");
                    assert(out@ =~= header + kind_message(self@.kind) + ("\n  "@ + sl@ + ("\n  "@
                        + Seq::new((col - 1) as nat, |i: int| ' ') + "^"@)));
                } else {
                    assert(out@ =~= header + kind_message(self@.kind) + ("\n  "@ + sl@ + Seq::empty()));
                }
            },
            None => {
                assert(out@ =~= header + kind_message(self@.kind) + Seq::empty());
            },
        }
        proof {
            if line > 0 {
                assert(header =~= "Error"@ + " at line "@ + nat_decimal(line as nat) + ", column "@
                    + nat_decimal(col as nat) + ": "@);
            } else {
                assert(header =~= "Error"@ + ": "@);
            }
        }
        string_from_chars(&out)
    }
}

fn push_kind_message(out: &mut Vec<char>, k: &ErrorKind)
    ensures
        final(out)@ == old(out)@ + kind_message(k@),
{
    let ghost o = out@;
    match k {
        ErrorKind::UnexpectedChar(c) => {
            push_str(out, "Unexpected character '");
            out.push(*c);
            push_str(out, "'");
            assert(out@ =~= o + ("Unexpected character '"@ + seq![*c] + "'"@));
        },
        ErrorKind::UnterminatedString => {
            push_str(out, "Unterminated string literal");
        },
        ErrorKind::InvalidNumber(s) => {
            push_str(out, "Invalid number: ");
            push_str(out, s.as_str());
            assert(out@ =~= o + ("Invalid number: "@ + s@));
        },
        ErrorKind::UnexpectedToken { expected, found } => {
            push_str(out, "Expected ");
            push_str(out, expected.as_str());
            push_str(out, ", found ");
            push_str(out, found.as_str());
            assert(out@ =~= o + ("Expected "@ + expected@ + ", found "@ + found@));
        },
        ErrorKind::UnexpectedEof => {
            push_str(out, "Unexpected end of file");
        },
        ErrorKind::InvalidExpression(m) => {
            push_str(out, "Invalid expression: ");
            push_str(out, m.as_str());
            assert(out@ =~= o + ("Invalid expression: "@ + m@));
        },
        ErrorKind::InvalidTypeInst(m) => {
            push_str(out, "Invalid type-inst: ");
            push_str(out, m.as_str());
            assert(out@ =~= o + ("Invalid type-inst: "@ + m@));
        },
        ErrorKind::UnsupportedFeature { feature, phase, workaround } => {
            push_str(out, "Unsupported feature: ");
            push_str(out, feature.as_str());
            push_str(out, " (will be supported in ");
            push_str(out, phase.as_str());
            push_str(out, ")");
            let ghost mid = out@;
            match workaround {
                Some(w) => {
                    push_str(out, "\nWorkaround: ");
                    push_str(out, w.as_str());
                    assert(out@ =~= o + ("Unsupported feature: "@ + feature@ + " (will be supported in "@
                        + phase@ + ")"@ + ("\nWorkaround: "@ + w@)));
                },
                None => {
                    assert(out@ =~= o + ("Unsupported feature: "@ + feature@ + " (will be supported in "@
                        + phase@ + ")"@ + Seq::<char>::empty()));
                },
            }
        },
        ErrorKind::TypeError { expected, found } => {
            push_str(out, "Type error: expected ");
            push_str(out, expected.as_str());
            push_str(out, ", found ");
            push_str(out, found.as_str());
            assert(out@ =~= o + ("Type error: expected "@ + expected@ + ", found "@ + found@));
        },
        ErrorKind::DuplicateDeclaration(n) => {
            push_str(out, "Duplicate declaration of '");
            push_str(out, n.as_str());
            push_str(out, "'");
            assert(out@ =~= o + ("Duplicate declaration of '"@ + n@ + "'"@));
        },
        ErrorKind::UndefinedVariable(n) => {
            push_str(out, "Undefined variable '");
            push_str(out, n.as_str());
            push_str(out, "'");
            assert(out@ =~= o + ("Undefined variable '"@ + n@ + "'"@));
        },
        ErrorKind::Message(m) => {
            push_str(out, m.as_str());
        },
    }
}

/// Index of the first `'\n'` at or after `from`, or the length.
fn find_newline(v: &Vec<char>, from: usize) -> (e: usize)
    requires
        from <= v.len(),
    ensures
        from + first_newline(v@.skip(from as int)) == e,
        e <= v.len(),
{
    let mut i = from;
    while i < v.len() && v[i] != '\n'
        invariant
            from <= i <= v.len(),
            forall|j: int| from <= j < i ==> v@[j] != '\n',
        decreases v.len() - i,
    {
        i = i + 1;
    }
    proof {
        lemma_first_newline_at(v@.skip(from as int), (i - from) as nat);
    }
    i
}

proof fn lemma_first_newline_at(s: Seq<char>, k: nat)
    requires
        k <= s.len(),
        forall|j: int| 0 <= j < k ==> s[j] != '\n',
        k == s.len() || s[k as int] == '\n',
    ensures
        first_newline(s) == k,
    decreases s.len(),
{
    if s.len() > 0 && s[0] != '\n' {
        assert(k > 0);
        let t = s.drop_first();
        assert forall|j: int| 0 <= j < k - 1 implies t[j] != '\n' by {
            assert(t[j] == s[j + 1]);
        }
        if k < s.len() {
            assert(t[k - 1] == s[k as int]);
        }
        lemma_first_newline_at(t, (k - 1) as nat);
    }
}

fn nth_line_exec(v: &Vec<char>, n: usize) -> (r: Option<Vec<char>>)
    ensures
        match r {
            Some(t) => nth_line(v@, n as nat) == Some(t@),
            None => nth_line(v@, n as nat) is None,
        },
{
    let mut start: usize = 0;
    let mut k: usize = n;
    assert(v@.skip(0) =~= v@);
    while k > 0
        invariant
            start <= v.len(),
            k <= n,
            nth_line(v@, n as nat) == nth_line(v@.skip(start as int), k as nat),
        decreases k,
    {
        let e = find_newline(v, start);
        if e == v.len() {
            return None;
        }
        proof {
            let s = v@.skip(start as int);
            assert(s.skip(first_newline(s) as int + 1) =~= v@.skip(e as int + 1));
        }
        start = e + 1;
        k = k - 1;
    }
    let e = find_newline(v, start);
    let ghost s = v@.skip(start as int);
    let mut out: Vec<char> = Vec::new();
    let mut i = start;
    while i < e
        invariant
            start <= i <= e <= v.len(),
            out@ == v@.subrange(start as int, i as int),
        decreases e - i,
    {
        out.push(v[i]);
        i = i + 1;
        assert(v@.subrange(start as int, i as int) =~= v@.subrange(start as int, (i - 1) as int).push(v@[i - 1]));
    }
    assert(s.take(e - start) =~= out@);
    if e < v.len() {
        if out.len() > 0 && out[out.len() - 1] == '\r' {
            out.pop();
        }
        Some(out)
    } else if start < v.len() {
        assert(s =~= out@);
        Some(out)
    } else {
        None
    }
}

} // verus!
