//! Lexer for the MiniZinc subset: turns source text into tokens on demand.
//!
//! The token at an offset is specified by `next_token_spec`, built from the
//! spec functions below: skipping white space and `%` comments, then one of
//! a number, an identifier or keyword, a string literal, or an operator.

use vstd::prelude::*;
use crate::ast::Span;
use crate::error::{Error, ErrorKind, ErrorKindV, ErrorV};
use crate::text::{
    all_digits, char_alphabetic, char_alphanumeric, char_whitespace, chars_of, digits_u64,
    digits_value, is_alphabetic, is_alphanumeric, is_ascii_digit, is_digit, is_whitespace,
    lemma_digits_value_nonneg, range_eq_str, string_from_chars, debug_quote, debug_quoted,
    i64_text, int_decimal, nat_decimal, push_chars, push_str, push_usize,
};

verus! {

#[derive(Debug, Clone, PartialEq)]
pub struct Token {
    pub kind: TokenKind,
    pub span: Span,
}

/// Token kinds. A float literal keeps the digits it was written with.
#[derive(Debug, Clone, PartialEq)]
pub enum TokenKind {
    Array,
    Bool,
    Constraint,
    Float,
    Int,
    Maximize,
    Minimize,
    Of,
    Output,
    Par,
    Satisfy,
    Solve,
    Var,
    Where,
    In,
    Plus,
    Minus,
    Star,
    Slash,
    Div,
    Mod,
    Lt,
    Le,
    Gt,
    Ge,
    Eq,
    Ne,
    And,
    Or,
    Impl,
    Iff,
    Not,
    Xor,
    DotDot,
    LParen,
    RParen,
    LBracket,
    RBracket,
    LBrace,
    RBrace,
    Comma,
    Colon,
    ColonColon,
    Semicolon,
    Pipe,
    Ident(String),
    IntLit(i64),
    FloatLit(String),
    StringLit(String),
    BoolLit(bool),
    Eof,
}

pub enum TokenKindV {
    Array,
    Bool,
    Constraint,
    Float,
    Int,
    Maximize,
    Minimize,
    Of,
    Output,
    Par,
    Satisfy,
    Solve,
    Var,
    Where,
    In,
    Plus,
    Minus,
    Star,
    Slash,
    Div,
    Mod,
    Lt,
    Le,
    Gt,
    Ge,
    Eq,
    Ne,
    And,
    Or,
    Impl,
    Iff,
    Not,
    Xor,
    DotDot,
    LParen,
    RParen,
    LBracket,
    RBracket,
    LBrace,
    RBrace,
    Comma,
    Colon,
    ColonColon,
    Semicolon,
    Pipe,
    Ident(Seq<char>),
    IntLit(i64),
    FloatLit(Seq<char>),
    StringLit(Seq<char>),
    BoolLit(bool),
    Eof,
}

pub struct TokenV {
    pub kind: TokenKindV,
    pub span: Span,
}

pub open spec fn view_token_kind(k: TokenKind) -> TokenKindV {
    match k {
        TokenKind::Array => TokenKindV::Array,
        TokenKind::Bool => TokenKindV::Bool,
        TokenKind::Constraint => TokenKindV::Constraint,
        TokenKind::Float => TokenKindV::Float,
        TokenKind::Int => TokenKindV::Int,
        TokenKind::Maximize => TokenKindV::Maximize,
        TokenKind::Minimize => TokenKindV::Minimize,
        TokenKind::Of => TokenKindV::Of,
        TokenKind::Output => TokenKindV::Output,
        TokenKind::Par => TokenKindV::Par,
        TokenKind::Satisfy => TokenKindV::Satisfy,
        TokenKind::Solve => TokenKindV::Solve,
        TokenKind::Var => TokenKindV::Var,
        TokenKind::Where => TokenKindV::Where,
        TokenKind::In => TokenKindV::In,
        TokenKind::Plus => TokenKindV::Plus,
        TokenKind::Minus => TokenKindV::Minus,
        TokenKind::Star => TokenKindV::Star,
        TokenKind::Slash => TokenKindV::Slash,
        TokenKind::Div => TokenKindV::Div,
        TokenKind::Mod => TokenKindV::Mod,
        TokenKind::Lt => TokenKindV::Lt,
        TokenKind::Le => TokenKindV::Le,
        TokenKind::Gt => TokenKindV::Gt,
        TokenKind::Ge => TokenKindV::Ge,
        TokenKind::Eq => TokenKindV::Eq,
        TokenKind::Ne => TokenKindV::Ne,
        TokenKind::And => TokenKindV::And,
        TokenKind::Or => TokenKindV::Or,
        TokenKind::Impl => TokenKindV::Impl,
        TokenKind::Iff => TokenKindV::Iff,
        TokenKind::Not => TokenKindV::Not,
        TokenKind::Xor => TokenKindV::Xor,
        TokenKind::DotDot => TokenKindV::DotDot,
        TokenKind::LParen => TokenKindV::LParen,
        TokenKind::RParen => TokenKindV::RParen,
        TokenKind::LBracket => TokenKindV::LBracket,
        TokenKind::RBracket => TokenKindV::RBracket,
        TokenKind::LBrace => TokenKindV::LBrace,
        TokenKind::RBrace => TokenKindV::RBrace,
        TokenKind::Comma => TokenKindV::Comma,
        TokenKind::Colon => TokenKindV::Colon,
        TokenKind::ColonColon => TokenKindV::ColonColon,
        TokenKind::Semicolon => TokenKindV::Semicolon,
        TokenKind::Pipe => TokenKindV::Pipe,
        TokenKind::Ident(s) => TokenKindV::Ident(s@),
        TokenKind::IntLit(i) => TokenKindV::IntLit(i),
        TokenKind::FloatLit(s) => TokenKindV::FloatLit(s@),
        TokenKind::StringLit(s) => TokenKindV::StringLit(s@),
        TokenKind::BoolLit(b) => TokenKindV::BoolLit(b),
        TokenKind::Eof => TokenKindV::Eof,
    }
}

impl View for TokenKind {
    type V = TokenKindV;

    open spec fn view(&self) -> TokenKindV {
        view_token_kind(*self)
    }
}

impl View for Token {
    type V = TokenV;

    open spec fn view(&self) -> TokenV {
        TokenV { kind: self.kind@, span: self.span }
    }
}

// ---------------------------------------------------------------------------
// Specification of the lexer.

/// The character at `i`, if any.
pub open spec fn char_at(s: Seq<char>, i: int) -> Option<char> {
    if 0 <= i < s.len() {
        Some(s[i])
    } else {
        None
    }
}

/// First offset at or after `i` that starts neither white space nor a `%`
/// comment (a comment runs to the end of its line).
pub open spec fn skip_trivia(s: Seq<char>, i: int) -> int
    decreases s.len() - i, 0int,
{
    if i < 0 || i >= s.len() {
        i
    } else if char_whitespace(s[i]) {
        skip_trivia(s, i + 1)
    } else if s[i] == '%' {
        skip_comment(s, i + 1)
    } else {
        i
    }
}

/// Skips the rest of a comment, then further trivia.
pub open spec fn skip_comment(s: Seq<char>, i: int) -> int
    decreases s.len() - i, 1int,
{
    if i < 0 || i >= s.len() {
        i
    } else if s[i] == '\n' {
        skip_trivia(s, i)
    } else {
        skip_comment(s, i + 1)
    }
}

/// End of the run of ASCII digits starting at `i`.
pub open spec fn digits_end(s: Seq<char>, i: int) -> int
    decreases s.len() - i,
{
    if 0 <= i < s.len() && is_digit(s[i]) {
        digits_end(s, i + 1)
    } else {
        i
    }
}

/// Characters that continue an identifier.
pub open spec fn ident_char(c: char) -> bool {
    char_alphanumeric(c) || c == '_'
}

/// End of the run of identifier characters starting at `i`.
pub open spec fn ident_end(s: Seq<char>, i: int) -> int
    decreases s.len() - i,
{
    if 0 <= i < s.len() && ident_char(s[i]) {
        ident_end(s, i + 1)
    } else {
        i
    }
}

/// Keyword for a word, or an identifier.
pub open spec fn keyword_kind(w: Seq<char>) -> TokenKindV {
    if w == "array"@ { TokenKindV::Array }
    else if w == "bool"@ { TokenKindV::Bool }
    else if w == "constraint"@ { TokenKindV::Constraint }
    else if w == "div"@ { TokenKindV::Div }
    else if w == "false"@ { TokenKindV::BoolLit(false) }
    else if w == "float"@ { TokenKindV::Float }
    else if w == "in"@ { TokenKindV::In }
    else if w == "int"@ { TokenKindV::Int }
    else if w == "maximize"@ { TokenKindV::Maximize }
    else if w == "minimize"@ { TokenKindV::Minimize }
    else if w == "mod"@ { TokenKindV::Mod }
    else if w == "not"@ { TokenKindV::Not }
    else if w == "of"@ { TokenKindV::Of }
    else if w == "output"@ { TokenKindV::Output }
    else if w == "par"@ { TokenKindV::Par }
    else if w == "satisfy"@ { TokenKindV::Satisfy }
    else if w == "solve"@ { TokenKindV::Solve }
    else if w == "true"@ { TokenKindV::BoolLit(true) }
    else if w == "var"@ { TokenKindV::Var }
    else if w == "where"@ { TokenKindV::Where }
    else if w == "xor"@ { TokenKindV::Xor }
    else { TokenKindV::Ident(w) }
}

/// The reserved words of MiniZinc, each by the token it stands for.
pub open spec fn reserved_word(k: TokenKindV) -> Option<Seq<char>> {
    match k {
        TokenKindV::Array => Some("array"@),
        TokenKindV::Bool => Some("bool"@),
        TokenKindV::Constraint => Some("constraint"@),
        TokenKindV::Div => Some("div"@),
        TokenKindV::BoolLit(false) => Some("false"@),
        TokenKindV::Float => Some("float"@),
        TokenKindV::In => Some("in"@),
        TokenKindV::Int => Some("int"@),
        TokenKindV::Maximize => Some("maximize"@),
        TokenKindV::Minimize => Some("minimize"@),
        TokenKindV::Mod => Some("mod"@),
        TokenKindV::Not => Some("not"@),
        TokenKindV::Of => Some("of"@),
        TokenKindV::Output => Some("output"@),
        TokenKindV::Par => Some("par"@),
        TokenKindV::Satisfy => Some("satisfy"@),
        TokenKindV::Solve => Some("solve"@),
        TokenKindV::BoolLit(true) => Some("true"@),
        TokenKindV::Var => Some("var"@),
        TokenKindV::Where => Some("where"@),
        TokenKindV::Xor => Some("xor"@),
        _ => None,
    }
}

/// Each reserved word is read as the token it stands for, and any other
/// word as an identifier of itself.
pub proof fn lemma_reserved_words(k: TokenKindV, w: Seq<char>)
    ensures
        reserved_word(k) matches Some(r) ==> keyword_kind(r) == k,
        keyword_kind(w) == TokenKindV::Ident(w) || reserved_word(keyword_kind(w)) == Some(w),
        keyword_kind(w) is Ident ==> forall|j: TokenKindV| #[trigger] reserved_word(j) != Some(w),
{
    reveal_strlit("array");
    assert("array"@ =~= seq!['a', 'r', 'r', 'a', 'y']);
    reveal_strlit("bool");
    assert("bool"@ =~= seq!['b', 'o', 'o', 'l']);
    reveal_strlit("constraint");
    assert("constraint"@ =~= seq!['c', 'o', 'n', 's', 't', 'r', 'a', 'i', 'n', 't']);
    reveal_strlit("div");
    assert("div"@ =~= seq!['d', 'i', 'v']);
    reveal_strlit("false");
    assert("false"@ =~= seq!['f', 'a', 'l', 's', 'e']);
    reveal_strlit("float");
    assert("float"@ =~= seq!['f', 'l', 'o', 'a', 't']);
    reveal_strlit("in");
    assert("in"@ =~= seq!['i', 'n']);
    reveal_strlit("int");
    assert("int"@ =~= seq!['i', 'n', 't']);
    reveal_strlit("maximize");
    assert("maximize"@ =~= seq!['m', 'a', 'x', 'i', 'm', 'i', 'z', 'e']);
    reveal_strlit("minimize");
    assert("minimize"@ =~= seq!['m', 'i', 'n', 'i', 'm', 'i', 'z', 'e']);
    reveal_strlit("mod");
    assert("mod"@ =~= seq!['m', 'o', 'd']);
    reveal_strlit("not");
    assert("not"@ =~= seq!['n', 'o', 't']);
    reveal_strlit("of");
    assert("of"@ =~= seq!['o', 'f']);
    reveal_strlit("output");
    assert("output"@ =~= seq!['o', 'u', 't', 'p', 'u', 't']);
    reveal_strlit("par");
    assert("par"@ =~= seq!['p', 'a', 'r']);
    reveal_strlit("satisfy");
    assert("satisfy"@ =~= seq!['s', 'a', 't', 'i', 's', 'f', 'y']);
    reveal_strlit("solve");
    assert("solve"@ =~= seq!['s', 'o', 'l', 'v', 'e']);
    reveal_strlit("true");
    assert("true"@ =~= seq!['t', 'r', 'u', 'e']);
    reveal_strlit("var");
    assert("var"@ =~= seq!['v', 'a', 'r']);
    reveal_strlit("where");
    assert("where"@ =~= seq!['w', 'h', 'e', 'r', 'e']);
    reveal_strlit("xor");
    assert("xor"@ =~= seq!['x', 'o', 'r']);
    assert forall|j: TokenKindV| keyword_kind(w) is Ident implies #[trigger] reserved_word(j) != Some(w) by {
        if reserved_word(j) == Some(w) {
            assert(keyword_kind(w) == j);
        }
    }
}

/// A word in the source (a letter or `_`, then letters, digits and `_`;
/// a digit first makes a number) is read as one token spanning it: the token a reserved word stands for
/// when the word is one, an identifier of the word otherwise.
pub proof fn lemma_word_token(s: Seq<char>, pos: int)
    requires
        0 <= pos <= s.len(),
    ensures
        ({
            let q = skip_trivia(s, pos);
            let e = ident_end(s, q + 1);
            let w = s.subrange(q, e);
            q < s.len() && !is_digit(s[q]) && (char_alphabetic(s[q]) || s[q] == '_') ==> (next_token_spec(s, pos).0 matches Ok(t)
                && t.span == (Span { start: q as usize, end: e as usize })
                && (forall|k: TokenKindV| #[trigger] reserved_word(k) == Some(w) ==> t.kind == k)
                && ((forall|k: TokenKindV| #[trigger] reserved_word(k) != Some(w)) ==> t.kind == TokenKindV::Ident(w)))
        }),
{
    let q = skip_trivia(s, pos);
    let e = ident_end(s, q + 1);
    let w = s.subrange(q, e);
    lemma_skip_bounds(s, pos);
    if q < s.len() && !is_digit(s[q]) && (char_alphabetic(s[q]) || s[q] == '_') {
        assert forall|k: TokenKindV| #[trigger] reserved_word(k) == Some(w) implies keyword_kind(w) == k by {
            lemma_reserved_words(k, w);
        }
        lemma_reserved_words(TokenKindV::Eof, w);
        if keyword_kind(w) != TokenKindV::Ident(w) {
            assert(reserved_word(keyword_kind(w)) == Some(w));
        }
    }
}

/// A number: digits, optionally `.` and more digits (the `.` must be followed
/// by a digit, so `1..n` is a range). An integer whose value exceeds
/// `i64::MAX` is an invalid number.
pub open spec fn lex_number_spec(s: Seq<char>, start: int) -> (core::result::Result<TokenKindV, ErrorKindV>, int) {
    let e = digits_end(s, start);
    if e + 1 < s.len() && s[e] == '.' && is_digit(s[e + 1]) {
        let end = digits_end(s, e + 1);
        (Ok(TokenKindV::FloatLit(s.subrange(start, end))), end)
    } else {
        let text = s.subrange(start, e);
        if digits_value(text) <= i64::MAX {
            (Ok(TokenKindV::IntLit(digits_value(text) as i64)), e)
        } else {
            (Err(ErrorKindV::InvalidNumber(text)), e)
        }
    }
}

/// Text appended for the escape `\c` in a string literal.
pub open spec fn escape_text(c: char) -> Seq<char> {
    if c == 'n' { seq!['\n'] }
    else if c == 't' { seq!['\t'] }
    else if c == 'r' { seq!['\r'] }
    else if c == '"' { seq!['"'] }
    else if c == '\\' { seq!['\\'] }
    else { seq!['\\', c] }
}

/// Body of a string literal from `i` with `acc` read so far: the text and
/// the offset after the closing quote, or `None` (unterminated) and the
/// offset where the input ran out.
pub open spec fn string_body(s: Seq<char>, i: int, acc: Seq<char>) -> (Option<Seq<char>>, int)
    decreases s.len() - i,
{
    if i < 0 || i >= s.len() {
        (None, i)
    } else if s[i] == '"' {
        (Some(acc), i + 1)
    } else if s[i] == '\\' {
        if i + 1 < s.len() {
            string_body(s, i + 2, acc + escape_text(s[i + 1]))
        } else {
            (None, i + 1)
        }
    } else {
        string_body(s, i + 1, acc.push(s[i]))
    }
}

/// Operators and delimiters starting at `start`.
pub open spec fn lex_symbol_spec(s: Seq<char>, start: int) -> (core::result::Result<TokenKindV, ErrorKindV>, int) {
    let c = s[start];
    let n1 = char_at(s, start + 1);
    let n2 = char_at(s, start + 2);
    if c == '+' { (Ok(TokenKindV::Plus), start + 1) }
    else if c == '-' { if n1 == Some('>') { (Ok(TokenKindV::Impl), start + 2) } else { (Ok(TokenKindV::Minus), start + 1) } }
    else if c == '*' { (Ok(TokenKindV::Star), start + 1) }
    else if c == '/' { if n1 == Some('\\') { (Ok(TokenKindV::And), start + 2) } else { (Ok(TokenKindV::Slash), start + 1) } }
    else if c == '\\' { if n1 == Some('/') { (Ok(TokenKindV::Or), start + 2) } else { (Err(ErrorKindV::UnexpectedChar('\\')), start + 1) } }
    else if c == '<' {
        if n1 == Some('=') { (Ok(TokenKindV::Le), start + 2) }
        else if n1 == Some('-') {
            if n2 == Some('>') { (Ok(TokenKindV::Iff), start + 3) } else { (Err(ErrorKindV::UnexpectedChar('<')), start + 2) }
        } else { (Ok(TokenKindV::Lt), start + 1) }
    }
    else if c == '>' { if n1 == Some('=') { (Ok(TokenKindV::Ge), start + 2) } else { (Ok(TokenKindV::Gt), start + 1) } }
    else if c == '=' { if n1 == Some('=') { (Ok(TokenKindV::Eq), start + 2) } else { (Ok(TokenKindV::Eq), start + 1) } }
    else if c == '!' { if n1 == Some('=') { (Ok(TokenKindV::Ne), start + 2) } else { (Err(ErrorKindV::UnexpectedChar('!')), start + 1) } }
    else if c == '.' { if n1 == Some('.') { (Ok(TokenKindV::DotDot), start + 2) } else { (Err(ErrorKindV::UnexpectedChar('.')), start + 1) } }
    else if c == '(' { (Ok(TokenKindV::LParen), start + 1) }
    else if c == ')' { (Ok(TokenKindV::RParen), start + 1) }
    else if c == '[' { (Ok(TokenKindV::LBracket), start + 1) }
    else if c == ']' { (Ok(TokenKindV::RBracket), start + 1) }
    else if c == '{' { (Ok(TokenKindV::LBrace), start + 1) }
    else if c == '}' { (Ok(TokenKindV::RBrace), start + 1) }
    else if c == ',' { (Ok(TokenKindV::Comma), start + 1) }
    else if c == ':' { if n1 == Some(':') { (Ok(TokenKindV::ColonColon), start + 2) } else { (Ok(TokenKindV::Colon), start + 1) } }
    else if c == ';' { (Ok(TokenKindV::Semicolon), start + 1) }
    else if c == '|' { (Ok(TokenKindV::Pipe), start + 1) }
    else { (Err(ErrorKindV::UnexpectedChar(c)), start) }
}

/// The operators and punctuation of MiniZinc, each by its text.
pub open spec fn symbol_text(k: TokenKindV) -> Option<Seq<char>> {
    match k {
        TokenKindV::Plus => Some(seq!['+']),
        TokenKindV::Minus => Some(seq!['-']),
        TokenKindV::Star => Some(seq!['*']),
        TokenKindV::Slash => Some(seq!['/']),
        TokenKindV::Lt => Some(seq!['<']),
        TokenKindV::Le => Some(seq!['<', '=']),
        TokenKindV::Gt => Some(seq!['>']),
        TokenKindV::Ge => Some(seq!['>', '=']),
        TokenKindV::Eq => Some(seq!['=', '=']),
        TokenKindV::Ne => Some(seq!['!', '=']),
        TokenKindV::And => Some(seq!['/', '\\']),
        TokenKindV::Or => Some(seq!['\\', '/']),
        TokenKindV::Impl => Some(seq!['-', '>']),
        TokenKindV::Iff => Some(seq!['<', '-', '>']),
        TokenKindV::DotDot => Some(seq!['.', '.']),
        TokenKindV::LParen => Some(seq!['(']),
        TokenKindV::RParen => Some(seq![')']),
        TokenKindV::LBracket => Some(seq!['[']),
        TokenKindV::RBracket => Some(seq![']']),
        TokenKindV::LBrace => Some(seq!['{']),
        TokenKindV::RBrace => Some(seq!['}']),
        TokenKindV::Comma => Some(seq![',']),
        TokenKindV::Colon => Some(seq![':']),
        TokenKindV::ColonColon => Some(seq![':', ':']),
        TokenKindV::Semicolon => Some(seq![';']),
        TokenKindV::Pipe => Some(seq!['|']),
        _ => None,
    }
}

/// Whether `t` stands in `s` at offset `i`.
pub open spec fn text_at(s: Seq<char>, i: int, t: Seq<char>) -> bool {
    0 <= i && i + t.len() <= s.len() && s.subrange(i, i + t.len()) == t
}

/// The characters of `t` where it stands in `s`.
proof fn lemma_symbol_case(s: Seq<char>, i: int, t: Seq<char>)
    requires
        text_at(s, i, t),
    ensures
        t.len() > 0 ==> s[i] == t[0],
        t.len() > 1 ==> s[i + 1] == t[1] && char_at(s, i + 1) == Some(t[1]),
        t.len() > 2 ==> s[i + 2] == t[2] && char_at(s, i + 2) == Some(t[2]),
{
    if t.len() > 0 {
        assert(s.subrange(i, i + t.len())[0] == s[i]);
    }
    if t.len() > 1 {
        assert(s.subrange(i, i + t.len())[1] == s[i + 1]);
    }
    if t.len() > 2 {
        assert(s.subrange(i, i + t.len())[2] == s[i + 2]);
    }
}

/// A token the symbol reader gives (but `=` alone) is one whose text
/// stands at the offset, and the reader ends after that text.
proof fn lemma_symbol_result(s: Seq<char>, i: int)
    requires
        0 <= i < s.len(),
    ensures
        lex_symbol_spec(s, i).0 matches Ok(k2) ==> ((k2 != TokenKindV::Eq || text_at(s, i, seq!['=', '=']))
            ==> (symbol_text(k2) is Some && text_at(s, i, symbol_text(k2)->0) && lex_symbol_spec(s, i).1 == i
            + symbol_text(k2)->0.len())),
{
    let (r, e) = lex_symbol_spec(s, i);
    match r {
        Ok(k2) => {
            if k2 != TokenKindV::Eq || text_at(s, i, seq!['=', '=']) {
                if k2 == TokenKindV::Eq {
                    lemma_symbol_case(s, i, seq!['=', '=']);
                }
                let t2 = symbol_text(k2)->0;
                assert(symbol_text(k2) is Some);
                assert(e == i + t2.len());
                assert(s.subrange(i, e) =~= t2);
            }
        },
        Err(_) => {},
    }
}

/// Where operator or punctuation text stands, the symbol reader takes the
/// longest such text there and gives its token; the one exception is `<-`
/// not followed by `>`, an error at the `<`. A lone `=` is read as `==`.
pub proof fn lemma_symbol_token(s: Seq<char>, i: int)
    requires
        0 <= i < s.len(),
    ensures
        forall|k: TokenKindV|
            #![trigger symbol_text(k)]
            symbol_text(k) is Some && text_at(s, i, symbol_text(k)->0) && !(text_at(s, i, seq!['<', '-'])
                && !text_at(s, i, seq!['<', '-', '>'])) ==> (lex_symbol_spec(s, i).0 matches Ok(k2)
                && symbol_text(k2) is Some && text_at(s, i, symbol_text(k2)->0)
                && symbol_text(k2)->0.len() >= symbol_text(k)->0.len()
                && lex_symbol_spec(s, i).1 == i + symbol_text(k2)->0.len()),
        text_at(s, i, seq!['<', '-']) && !text_at(s, i, seq!['<', '-', '>']) ==> lex_symbol_spec(s, i).0
            == Err::<TokenKindV, ErrorKindV>(ErrorKindV::UnexpectedChar('<')),
        s[i] == '=' && !text_at(s, i, seq!['=', '=']) ==> lex_symbol_spec(s, i) == (
            Ok::<TokenKindV, ErrorKindV>(TokenKindV::Eq),
            i + 1,
        ),
{
    assert forall|k: TokenKindV|
        #![trigger symbol_text(k)]
        symbol_text(k) is Some && text_at(s, i, symbol_text(k)->0) && !(text_at(s, i, seq!['<', '-'])
            && !text_at(s, i, seq!['<', '-', '>'])) implies (lex_symbol_spec(s, i).0 matches Ok(k2)
            && symbol_text(k2) is Some && text_at(s, i, symbol_text(k2)->0)
            && symbol_text(k2)->0.len() >= symbol_text(k)->0.len()
            && lex_symbol_spec(s, i).1 == i + symbol_text(k2)->0.len()) by {
        match k {
            TokenKindV::Plus => { lemma_symbol_case(s, i, seq!['+']); },
            TokenKindV::Minus => { lemma_symbol_case(s, i, seq!['-']); },
            TokenKindV::Star => { lemma_symbol_case(s, i, seq!['*']); },
            TokenKindV::Slash => { lemma_symbol_case(s, i, seq!['/']); },
            TokenKindV::Lt => {
                lemma_symbol_case(s, i, seq!['<']);
                if i + 1 < s.len() && s[i + 1] == '-' {
                    assert(s.subrange(i, i + 2) =~= seq!['<', '-']);
                    if i + 2 < s.len() && s[i + 2] == '>' {
                        assert(s.subrange(i, i + 3) =~= seq!['<', '-', '>']);
                    }
                }
            },
            TokenKindV::Le => { lemma_symbol_case(s, i, seq!['<', '=']); },
            TokenKindV::Gt => { lemma_symbol_case(s, i, seq!['>']); },
            TokenKindV::Ge => { lemma_symbol_case(s, i, seq!['>', '=']); },
            TokenKindV::Eq => { lemma_symbol_case(s, i, seq!['=', '=']); },
            TokenKindV::Ne => { lemma_symbol_case(s, i, seq!['!', '=']); },
            TokenKindV::And => { lemma_symbol_case(s, i, seq!['/', '\\']); },
            TokenKindV::Or => { lemma_symbol_case(s, i, seq!['\\', '/']); },
            TokenKindV::Impl => { lemma_symbol_case(s, i, seq!['-', '>']); },
            TokenKindV::Iff => { lemma_symbol_case(s, i, seq!['<', '-', '>']); },
            TokenKindV::DotDot => { lemma_symbol_case(s, i, seq!['.', '.']); },
            TokenKindV::LParen => { lemma_symbol_case(s, i, seq!['(']); },
            TokenKindV::RParen => { lemma_symbol_case(s, i, seq![')']); },
            TokenKindV::LBracket => { lemma_symbol_case(s, i, seq!['[']); },
            TokenKindV::RBracket => { lemma_symbol_case(s, i, seq![']']); },
            TokenKindV::LBrace => { lemma_symbol_case(s, i, seq!['{']); },
            TokenKindV::RBrace => { lemma_symbol_case(s, i, seq!['}']); },
            TokenKindV::Comma => { lemma_symbol_case(s, i, seq![',']); },
            TokenKindV::Colon => { lemma_symbol_case(s, i, seq![':']); },
            TokenKindV::ColonColon => { lemma_symbol_case(s, i, seq![':', ':']); },
            TokenKindV::Semicolon => { lemma_symbol_case(s, i, seq![';']); },
            TokenKindV::Pipe => { lemma_symbol_case(s, i, seq!['|']); },
            _ => {},
        }
        lemma_symbol_result(s, i);
    }
    if text_at(s, i, seq!['<', '-']) {
        assert(s[i] == s.subrange(i, i + 2)[0]);
        assert(s[i + 1] == s.subrange(i, i + 2)[1]);
        if i + 3 <= s.len() && s[i + 2] == '>' {
            assert(s.subrange(i, i + 3) =~= seq!['<', '-', '>']);
        }
    }
    if s[i] == '=' && i + 2 <= s.len() && s[i + 1] == '=' {
        assert(s.subrange(i, i + 2) =~= seq!['=', '=']);
    }
}

/// The token (or lexical error) that starts at `start`, a non-trivia offset,
/// and the offset after it.
pub open spec fn lex_token_spec(s: Seq<char>, start: int) -> (core::result::Result<TokenKindV, ErrorKindV>, int) {
    if start < 0 || start >= s.len() {
        (Ok(TokenKindV::Eof), start)
    } else if is_digit(s[start]) {
        lex_number_spec(s, start)
    } else if char_alphabetic(s[start]) || s[start] == '_' {
        let e = ident_end(s, start + 1);
        (Ok(keyword_kind(s.subrange(start, e))), e)
    } else if s[start] == '"' {
        let (body, e) = string_body(s, start + 1, Seq::empty());
        match body {
            Some(t) => (Ok(TokenKindV::StringLit(t)), e),
            None => (Err(ErrorKindV::UnterminatedString), e),
        }
    } else {
        lex_symbol_spec(s, start)
    }
}

/// The result of reading one token from offset `pos`, and the offset the
/// lexer stands at afterwards. Tokens and errors span from the first
/// non-trivia offset to that offset.
pub open spec fn next_token_spec(s: Seq<char>, pos: int) -> (core::result::Result<TokenV, ErrorV>, int) {
    let st = skip_trivia(s, pos);
    let (r, e) = lex_token_spec(s, st);
    let span = Span { start: st as usize, end: e as usize };
    (
        match r {
            Ok(k) => Ok(TokenV { kind: k, span }),
            Err(ek) => Err(ErrorV { kind: ek, span, source: None }),
        },
        e,
    )
}

// ---------------------------------------------------------------------------
// Facts about the specification.

pub proof fn lemma_skip_bounds(s: Seq<char>, i: int)
    requires
        0 <= i <= s.len(),
    ensures
        i <= skip_trivia(s, i) <= s.len(),
        i <= skip_comment(s, i) <= s.len(),
    decreases s.len() - i,
{
    if i < s.len() {
        lemma_skip_bounds(s, i + 1);
    }
}

pub proof fn lemma_digits_end(s: Seq<char>, i: int)
    requires
        0 <= i <= s.len(),
    ensures
        i <= digits_end(s, i) <= s.len(),
        all_digits(s.subrange(i, digits_end(s, i))),
        digits_end(s, i) < s.len() ==> !is_digit(s[digits_end(s, i)]),
    decreases s.len() - i,
{
    if i < s.len() && is_digit(s[i]) {
        lemma_digits_end(s, i + 1);
        let e = digits_end(s, i);
        assert forall|j: int| 0 <= j < e - i implies #[trigger] is_digit(s.subrange(i, e)[j]) by {
            if j > 0 {
                assert(s.subrange(i, e)[j] == s.subrange(i + 1, e)[j - 1]);
            }
        }
    }
}

pub proof fn lemma_ident_end(s: Seq<char>, i: int)
    requires
        0 <= i <= s.len(),
    ensures
        i <= ident_end(s, i) <= s.len(),
        forall|j: int| i <= j < ident_end(s, i) ==> ident_char(#[trigger] s[j]),
        ident_end(s, i) < s.len() ==> !ident_char(s[ident_end(s, i)]),
    decreases s.len() - i,
{
    if i < s.len() && ident_char(s[i]) {
        lemma_ident_end(s, i + 1);
    }
}

pub proof fn lemma_string_body_bounds(s: Seq<char>, i: int, acc: Seq<char>)
    requires
        0 <= i <= s.len(),
    ensures
        i <= string_body(s, i, acc).1 <= s.len(),
        string_body(s, i, acc).0 is Some ==> i < string_body(s, i, acc).1,
    decreases s.len() - i,
{
    if i < s.len() && s[i] != '"' {
        if s[i] == '\\' {
            if i + 1 < s.len() {
                lemma_string_body_bounds(s, i + 2, acc + escape_text(s[i + 1]));
            }
        } else {
            lemma_string_body_bounds(s, i + 1, acc.push(s[i]));
        }
    }
}

/// Reading a token never moves the lexer backwards nor past the end of the
/// source; a token other than end-of-file consumes at least one character;
/// and a token's span lies between the old and the new offset.
pub proof fn lemma_next_token_progress(s: Seq<char>, pos: int)
    requires
        0 <= pos <= s.len(),
        s.len() <= usize::MAX,
    ensures
        ({
            let (r, e) = next_token_spec(s, pos);
            &&& pos <= e <= s.len()
            &&& skip_trivia(s, pos) <= e
            &&& match r {
                Ok(t) => {
                    &&& pos <= t.span.start <= t.span.end == e
                    &&& (t.kind is Eof <==> t.span.start == s.len())
                    &&& (t.kind is Eof || pos < e)
                },
                Err(er) => pos <= er.span.start <= er.span.end == e,
            }
        }),
{
    lemma_skip_bounds(s, pos);
    let st = skip_trivia(s, pos);
    if st < s.len() {
        let c = s[st];
        if is_digit(c) {
            lemma_digits_end(s, st);
            let e = digits_end(s, st);
            if e + 1 < s.len() && s[e] == '.' && is_digit(s[e + 1]) {
                lemma_digits_end(s, e + 1);
            }
        } else if char_alphabetic(c) || c == '_' {
            lemma_ident_end(s, st + 1);
        } else if c == '"' {
            lemma_string_body_bounds(s, st + 1, Seq::empty());
        }
    }
}

// ---------------------------------------------------------------------------
// The lexer.

/// Where a lexer stands: the offset and the character there.
#[derive(Clone, Copy)]
struct Cursor {
    pos: usize,
    current_char: Option<char>,
}

/// Lexer state: the source characters and the current offset.
pub struct Lexer {
    source: Vec<char>,
    at: Cursor,
}

impl Lexer {
    /// The source characters.
    pub closed spec fn text(&self) -> Seq<char> {
        self.source@
    }

    /// The current offset.
    pub closed spec fn position(&self) -> int {
        self.at.pos as int
    }

    /// The offset is within the source and the cached character matches
    /// it. Every lexer keeps this.
    #[verifier::type_invariant]
    pub closed spec fn wf(&self) -> bool {
        &&& self.at.pos <= self.source.len()
        &&& self.source.len() <= isize::MAX
        &&& self.at.current_char == char_at(self.source@, self.at.pos as int)
    }

    pub proof fn lemma_wf(&self)
        requires
            self.wf(),
        ensures
            0 <= self.position() <= self.text().len(),
            self.text().len() <= isize::MAX,
    {
    }

    pub fn new(source: &str) -> (l: Self)
        ensures
            l.wf(),
            l.text() == source@,
            l.position() == 0,
    {
        let chars = chars_of(source);
        let current_char = if chars.len() > 0 { Some(chars[0]) } else { None };
        Self { source: chars, at: Cursor { pos: 0, current_char } }
    }

    /// A copy of the lexer in the same state.
    pub fn snapshot(&self) -> (l: Self)
        ensures
            l.wf(),
            l.text() == self.text(),
            l.position() == self.position(),
    {
        proof {
            use_type_invariant(self);
        }
        let mut v: Vec<char> = Vec::new();
        let mut i: usize = 0;
        while i < self.source.len()
            invariant
                i <= self.source.len(),
                v@ == self.source@.subrange(0, i as int),
            decreases self.source.len() - i,
        {
            v.push(self.source[i]);
            i = i + 1;
            assert(v@ =~= self.source@.subrange(0, i as int));
        }
        assert(v@ =~= self.source@);
        Lexer { source: v, at: self.at }
    }

    /// Reads the next token. The result, and the offset the lexer stands at
    /// afterwards, are those of `next_token_spec`.
    pub fn next_token(&mut self) -> (r: Result<Token, Error>)
        ensures
            final(self).wf(),
            final(self).text() == old(self).text(),
            final(self).position() == next_token_spec(old(self).text(), old(self).position()).1,
            match r {
                Ok(t) => next_token_spec(old(self).text(), old(self).position()).0 == Ok::<TokenV, ErrorV>(t@),
                Err(e) => next_token_spec(old(self).text(), old(self).position()).0 == Err::<TokenV, ErrorV>(e@),
            },
    {
        proof {
            use_type_invariant(&*self);
        }
        self.skip_whitespace_and_comments();
        let start = self.at.pos;
        let ghost s = self.source@;
        proof {
            lemma_skip_bounds(s, old(self).at.pos as int);
        }
        match self.at.current_char {
            None => {
                return Ok(Token { kind: TokenKind::Eof, span: Span::new(start, start) });
            },
            Some(ch) => {
                if is_ascii_digit(ch) {
                    return self.lex_number(start);
                }
                if is_alphabetic(ch) || ch == '_' {
                    return self.lex_ident_or_keyword(start);
                }
                if ch == '"' {
                    return self.lex_string(start);
                }
                self.lex_symbol(start)
            },
        }
    }

    fn advance(&mut self)
        requires
            old(self).wf(),
            old(self).at.pos < old(self).source.len(),
        ensures
            final(self).wf(),
            final(self).source@ == old(self).source@,
            final(self).at.pos == old(self).at.pos + 1,
    {
        let p = self.at.pos + 1;
        let c = if p < self.source.len() { Some(self.source[p]) } else { None };
        self.at = Cursor { pos: p, current_char: c };
    }

    fn skip_whitespace_and_comments(&mut self)
        requires
            old(self).wf(),
        ensures
            final(self).wf(),
            final(self).source@ == old(self).source@,
            final(self).at.pos == skip_trivia(old(self).source@, old(self).at.pos as int),
    {
        let ghost s = self.source@;
        let ghost p0 = self.at.pos as int;
        let mut done = false;
        while !done && self.at.current_char.is_some()
            invariant
                self.wf(),
                self.source@ == s,
                skip_trivia(s, self.at.pos as int) == skip_trivia(s, p0),
                done ==> skip_trivia(s, self.at.pos as int) == self.at.pos,
            decreases self.source.len() - self.at.pos, if done { 0int } else { 1int },
        {
            let ch = self.at.current_char.unwrap();
            if is_whitespace(ch) {
                self.advance();
            } else if ch == '%' {
                let ghost p_before = self.at.pos;
                self.advance();
                while self.at.current_char.is_some() && self.at.current_char != Some('\n')
                    invariant
                        self.wf(),
                        self.at.pos > p_before,
                        self.source@ == s,
                        skip_comment(s, self.at.pos as int) == skip_trivia(s, p0),
                    decreases self.source.len() - self.at.pos,
                {
                    self.advance();
                }
            } else {
                done = true;
            }
        }
    }

    fn lex_number(&mut self, start: usize) -> (r: Result<Token, Error>)
        requires
            old(self).wf(),
            old(self).at.pos == start,
            start < old(self).source.len(),
            is_digit(old(self).source@[start as int]),
        ensures
            final(self).wf(),
            final(self).source@ == old(self).source@,
            ({
                let (k, e) = lex_number_spec(old(self).source@, start as int);
                &&& final(self).at.pos == e
                &&& match r {
                    Ok(t) => k == Ok::<TokenKindV, ErrorKindV>(t.kind@) && t.span == (Span { start, end: e as usize }),
                    Err(er) => k == Err::<TokenKindV, ErrorKindV>(er@.kind) && er@.span == (Span { start, end: e as usize })
                        && er@.source is None,
                }
            }),
    {
        let ghost s = self.source@;
        proof {
            lemma_digits_end(s, start as int);
        }
        let mut has_dot = false;
        while self.at.current_char.is_some() && is_ascii_digit(self.at.current_char.unwrap())
            invariant
                self.wf(),
                self.source@ == s,
                start <= self.at.pos,
                digits_end(s, self.at.pos as int) == digits_end(s, start as int),
            decreases self.source.len() - self.at.pos,
        {
            self.advance();
        }
        let e1 = self.at.pos;
        if self.at.current_char == Some('.') && self.at.pos + 1 < self.source.len() && is_ascii_digit(self.source[self.at.pos + 1]) {
            has_dot = true;
            self.advance();
            proof {
                lemma_digits_end(s, self.at.pos as int);
            }
            while self.at.current_char.is_some() && is_ascii_digit(self.at.current_char.unwrap())
                invariant
                    self.wf(),
                    self.source@ == s,
                    e1 < self.at.pos,
                    digits_end(s, self.at.pos as int) == digits_end(s, e1 + 1),
                decreases self.source.len() - self.at.pos,
            {
                self.advance();
            }
        }
        let end = self.at.pos;
        let mut text: Vec<char> = Vec::new();
        let mut i = start;
        while i < end
            invariant
                start <= i <= end <= self.source.len(),
                text@ == s.subrange(start as int, i as int),
                self.source@ == s,
            decreases end - i,
        {
            text.push(self.source[i]);
            i = i + 1;
            assert(text@ =~= s.subrange(start as int, i as int));
        }
        if has_dot {
            return Ok(Token { kind: TokenKind::FloatLit(string_from_chars(&text)), span: Span::new(start, end) });
        }
        match digits_u64(&self.source, start, end) {
            Some(v) => {
                if v <= 9223372036854775807u64 {
                    return Ok(Token { kind: TokenKind::IntLit(v as i64), span: Span::new(start, end) });
                }
            },
            None => {},
        }
        Err(Error::new(ErrorKind::InvalidNumber(string_from_chars(&text)), Span::new(start, end)))
    }

    fn lex_ident_or_keyword(&mut self, start: usize) -> (r: Result<Token, Error>)
        requires
            old(self).wf(),
            old(self).at.pos == start,
            start < old(self).source.len(),
            char_alphabetic(old(self).source@[start as int]) || old(self).source@[start as int] == '_',
        ensures
            final(self).wf(),
            final(self).source@ == old(self).source@,
            final(self).at.pos == ident_end(old(self).source@, start + 1),
            r matches Ok(t) && t.kind@ == keyword_kind(old(self).source@.subrange(start as int, final(self).at.pos as int))
                && t.span == (Span { start, end: final(self).at.pos }),
    {
        let ghost s = self.source@;
        let first = self.at.current_char.unwrap();
        let first_ok = is_alphanumeric(first);
        self.advance();
        while self.at.current_char.is_some() && (is_alphanumeric(self.at.current_char.unwrap()) || self.at.current_char.unwrap() == '_')
            invariant
                self.wf(),
                self.source@ == s,
                start < self.at.pos,
                ident_end(s, self.at.pos as int) == ident_end(s, start + 1),
            decreases self.source.len() - self.at.pos,
        {
            self.advance();
        }
        let end = self.at.pos;
        let kind = keyword_token(&self.source, start, end);
        Ok(Token { kind, span: Span::new(start, end) })
    }

    fn lex_string(&mut self, start: usize) -> (r: Result<Token, Error>)
        requires
            old(self).wf(),
            old(self).at.pos == start,
            start < old(self).source.len(),
            old(self).source@[start as int] == '"',
        ensures
            final(self).wf(),
            final(self).source@ == old(self).source@,
            ({
                let (b, e) = string_body(old(self).source@, start + 1, Seq::empty());
                &&& final(self).at.pos == e
                &&& match r {
                    Ok(t) => b == Some(t.kind->StringLit_0@) && t.kind is StringLit
                        && t.span == (Span { start, end: e as usize }),
                    Err(er) => b is None && er@ == ErrorV {
                        kind: ErrorKindV::UnterminatedString,
                        span: Span { start, end: e as usize },
                        source: None,
                    },
                }
            }),
    {
        let ghost s = self.source@;
        self.advance();
        let mut acc: Vec<char> = Vec::new();
        while self.at.current_char.is_some()
            invariant
                self.wf(),
                self.source@ == s,
                s == old(self).source@,
                start < self.at.pos,
                string_body(s, self.at.pos as int, acc@) == string_body(s, start + 1, Seq::empty()),
            decreases self.source.len() - self.at.pos,
        {
            let ch = self.at.current_char.unwrap();
            if ch == '"' {
                self.advance();
                let text = string_from_chars(&acc);
                return Ok(Token { kind: TokenKind::StringLit(text), span: Span::new(start, self.at.pos) });
            } else if ch == '\\' {
                self.advance();
                match self.at.current_char {
                    Some(escaped) => {
                        let ghost before = acc@;
                        if escaped == 'n' {
                            acc.push('\n');
                        } else if escaped == 't' {
                            acc.push('\t');
                        } else if escaped == 'r' {
                            acc.push('\r');
                        } else if escaped == '"' {
                            acc.push('"');
                        } else if escaped == '\\' {
                            acc.push('\\');
                        } else {
                            acc.push('\\');
                            acc.push(escaped);
                        }
                        assert(acc@ =~= before + escape_text(escaped));
                        self.advance();
                    },
                    None => {},
                }
            } else {
                acc.push(ch);
                self.advance();
            }
        }
        Err(Error::new(ErrorKind::UnterminatedString, Span::new(start, self.at.pos)))
    }

    fn lex_symbol(&mut self, start: usize) -> (r: Result<Token, Error>)
        requires
            old(self).wf(),
            old(self).at.pos == start,
            start < old(self).source.len(),
        ensures
            final(self).wf(),
            final(self).source@ == old(self).source@,
            ({
                let (k, e) = lex_symbol_spec(old(self).source@, start as int);
                &&& final(self).at.pos == e
                &&& match r {
                    Ok(t) => k == Ok::<TokenKindV, ErrorKindV>(t.kind@) && t.span == (Span { start, end: e as usize }),
                    Err(er) => k == Err::<TokenKindV, ErrorKindV>(er@.kind) && er@.span == (Span { start, end: e as usize })
                        && er@.source is None,
                }
            }),
    {
        let ch = self.at.current_char.unwrap();
        let kind = if ch == '+' {
            self.advance();
            TokenKind::Plus
        } else if ch == '-' {
            self.advance();
            if self.at.current_char == Some('>') {
                self.advance();
                TokenKind::Impl
            } else {
                TokenKind::Minus
            }
        } else if ch == '*' {
            self.advance();
            TokenKind::Star
        } else if ch == '/' {
            self.advance();
            if self.at.current_char == Some('\\') {
                self.advance();
                TokenKind::And
            } else {
                TokenKind::Slash
            }
        } else if ch == '\\' {
            self.advance();
            if self.at.current_char == Some('/') {
                self.advance();
                TokenKind::Or
            } else {
                return Err(Error::new(ErrorKind::UnexpectedChar(ch), Span::new(start, self.at.pos)));
            }
        } else if ch == '<' {
            self.advance();
            if self.at.current_char == Some('=') {
                self.advance();
                TokenKind::Le
            } else if self.at.current_char == Some('-') {
                self.advance();
                if self.at.current_char == Some('>') {
                    self.advance();
                    TokenKind::Iff
                } else {
                    return Err(Error::new(ErrorKind::UnexpectedChar('<'), Span::new(start, self.at.pos)));
                }
            } else {
                TokenKind::Lt
            }
        } else if ch == '>' {
            self.advance();
            if self.at.current_char == Some('=') {
                self.advance();
                TokenKind::Ge
            } else {
                TokenKind::Gt
            }
        } else if ch == '=' {
            self.advance();
            if self.at.current_char == Some('=') {
                self.advance();
            }
            TokenKind::Eq
        } else if ch == '!' {
            self.advance();
            if self.at.current_char == Some('=') {
                self.advance();
                TokenKind::Ne
            } else {
                return Err(Error::new(ErrorKind::UnexpectedChar(ch), Span::new(start, self.at.pos)));
            }
        } else if ch == '.' {
            self.advance();
            if self.at.current_char == Some('.') {
                self.advance();
                TokenKind::DotDot
            } else {
                return Err(Error::new(ErrorKind::UnexpectedChar(ch), Span::new(start, self.at.pos)));
            }
        } else if ch == '(' {
            self.advance();
            TokenKind::LParen
        } else if ch == ')' {
            self.advance();
            TokenKind::RParen
        } else if ch == '[' {
            self.advance();
            TokenKind::LBracket
        } else if ch == ']' {
            self.advance();
            TokenKind::RBracket
        } else if ch == '{' {
            self.advance();
            TokenKind::LBrace
        } else if ch == '}' {
            self.advance();
            TokenKind::RBrace
        } else if ch == ',' {
            self.advance();
            TokenKind::Comma
        } else if ch == ':' {
            self.advance();
            if self.at.current_char == Some(':') {
                self.advance();
                TokenKind::ColonColon
            } else {
                TokenKind::Colon
            }
        } else if ch == ';' {
            self.advance();
            TokenKind::Semicolon
        } else if ch == '|' {
            self.advance();
            TokenKind::Pipe
        } else {
            return Err(Error::new(ErrorKind::UnexpectedChar(ch), Span::new(start, self.at.pos)));
        };
        Ok(Token { kind, span: Span::new(start, self.at.pos) })
    }

    /// Reads the next token without consuming it. On success the lexer is
    /// left where it was; on a lexical error it stays after the bad input.
    pub fn peek_token(&mut self) -> (r: Result<Token, Error>)
        ensures
            final(self).wf(),
            final(self).text() == old(self).text(),
            match r {
                Ok(t) => next_token_spec(old(self).text(), old(self).position()).0 == Ok::<TokenV, ErrorV>(t@)
                    && final(self).position() == old(self).position(),
                Err(e) => next_token_spec(old(self).text(), old(self).position()).0 == Err::<TokenV, ErrorV>(e@)
                    && final(self).position() == next_token_spec(old(self).text(), old(self).position()).1,
            },
    {
        proof {
            use_type_invariant(&*self);
        }
        let saved = self.at;
        let token = self.next_token()?;
        self.at = saved;
        Ok(token)
    }
}

impl Clone for Lexer {
    /// A lexer over the same text at the same offset.
    fn clone(&self) -> (l: Self)
        ensures
            l.text() == self.text(),
            l.position() == self.position(),
    {
        self.snapshot()
    }
}

/// The token kind of the word `v[start..end]`: a keyword or an identifier.
fn keyword_token(v: &Vec<char>, start: usize, end: usize) -> (k: TokenKind)
    requires
        start <= end <= v.len(),
    ensures
        k@ == keyword_kind(v@.subrange(start as int, end as int)),
{
    if range_eq_str(v, start, end, "array") { TokenKind::Array }
    else if range_eq_str(v, start, end, "bool") { TokenKind::Bool }
    else if range_eq_str(v, start, end, "constraint") { TokenKind::Constraint }
    else if range_eq_str(v, start, end, "div") { TokenKind::Div }
    else if range_eq_str(v, start, end, "false") { TokenKind::BoolLit(false) }
    else if range_eq_str(v, start, end, "float") { TokenKind::Float }
    else if range_eq_str(v, start, end, "in") { TokenKind::In }
    else if range_eq_str(v, start, end, "int") { TokenKind::Int }
    else if range_eq_str(v, start, end, "maximize") { TokenKind::Maximize }
    else if range_eq_str(v, start, end, "minimize") { TokenKind::Minimize }
    else if range_eq_str(v, start, end, "mod") { TokenKind::Mod }
    else if range_eq_str(v, start, end, "not") { TokenKind::Not }
    else if range_eq_str(v, start, end, "of") { TokenKind::Of }
    else if range_eq_str(v, start, end, "output") { TokenKind::Output }
    else if range_eq_str(v, start, end, "par") { TokenKind::Par }
    else if range_eq_str(v, start, end, "satisfy") { TokenKind::Satisfy }
    else if range_eq_str(v, start, end, "solve") { TokenKind::Solve }
    else if range_eq_str(v, start, end, "true") { TokenKind::BoolLit(true) }
    else if range_eq_str(v, start, end, "var") { TokenKind::Var }
    else if range_eq_str(v, start, end, "where") { TokenKind::Where }
    else if range_eq_str(v, start, end, "xor") { TokenKind::Xor }
    else {
        let mut w: Vec<char> = Vec::new();
        let mut i = start;
        while i < end
            invariant
                start <= i <= end <= v.len(),
                w@ == v@.subrange(start as int, i as int),
            decreases end - i,
        {
            w.push(v[i]);
            i = i + 1;
            assert(w@ =~= v@.subrange(start as int, i as int));
        }
        TokenKind::Ident(string_from_chars(&w))
    }
}


// ---------------------------------------------------------------------------
// Debug text of token kinds (what `{:?}` prints, as used in error messages).

/// A float literal's digits as `{:?}` shows an `f64`. From 1e-4 up to
/// below 1e16, and for zero, in decimal: leading zeros of the integer part
/// and trailing zeros of the fraction dropped, one fraction digit kept.
/// Otherwise in scientific form: `1e16`, `1.25e-7`.
#[verifier::opaque]
pub open spec fn float_debug_text(t: Seq<char>) -> Seq<char> {
    let d = dot_index(t);
    let int_part = t.subrange(0, d);
    let frac = if d < t.len() { t.subrange(d + 1, t.len() as int) } else { Seq::empty() };
    let i = strip_leading_zeros(int_part);
    let f = strip_trailing_zeros(frac);
    if i.len() >= 17 {
        scientific_text(strip_trailing_zeros(i + f), nat_decimal((i.len() - 1) as nat))
    } else if i == seq!['0'] && f.len() > 0 && leading_zeros(f) >= 4 {
        scientific_text(f.subrange(leading_zeros(f) as int, f.len() as int), seq!['-'] + nat_decimal(leading_zeros(f) + 1))
    } else {
        i + seq!['.'] + (if f.len() == 0 { seq!['0'] } else { f })
    }
}

/// Significant digits `d` and an exponent as `{:?}` writes them: the
/// first digit, the others after a `.` when there are any, `e`, the
/// exponent.
pub open spec fn scientific_text(d: Seq<char>, e: Seq<char>) -> Seq<char> {
    seq![d[0]] + (if d.len() > 1 { seq!['.'] + d.subrange(1, d.len() as int) } else { Seq::empty() }) + seq!['e'] + e
}

/// The number of `0`s that `t` starts with.
pub open spec fn leading_zeros(t: Seq<char>) -> nat
    decreases t.len(),
{
    if t.len() > 0 && t[0] == '0' {
        1 + leading_zeros(t.drop_first())
    } else {
        0
    }
}

/// Index of the first `.`, or the length.
pub open spec fn dot_index(t: Seq<char>) -> int
    decreases t.len(),
{
    if t.len() == 0 {
        0
    } else if t[0] == '.' {
        0
    } else {
        1 + dot_index(t.drop_first())
    }
}

/// Drops leading `0`s, keeping at least one digit.
pub open spec fn strip_leading_zeros(t: Seq<char>) -> Seq<char>
    decreases t.len(),
{
    if t.len() > 1 && t[0] == '0' {
        strip_leading_zeros(t.drop_first())
    } else {
        t
    }
}

/// Drops trailing `0`s.
pub open spec fn strip_trailing_zeros(t: Seq<char>) -> Seq<char>
    decreases t.len(),
{
    if t.len() > 0 && t.last() == '0' {
        strip_trailing_zeros(t.drop_last())
    } else {
        t
    }
}

/// What `{:?}` prints for a token kind.
pub open spec fn token_debug(k: TokenKindV) -> Seq<char> {
    match k {
        TokenKindV::Array => "Array"@,
        TokenKindV::Bool => "Bool"@,
        TokenKindV::Constraint => "Constraint"@,
        TokenKindV::Float => "Float"@,
        TokenKindV::Int => "Int"@,
        TokenKindV::Maximize => "Maximize"@,
        TokenKindV::Minimize => "Minimize"@,
        TokenKindV::Of => "Of"@,
        TokenKindV::Output => "Output"@,
        TokenKindV::Par => "Par"@,
        TokenKindV::Satisfy => "Satisfy"@,
        TokenKindV::Solve => "Solve"@,
        TokenKindV::Var => "Var"@,
        TokenKindV::Where => "Where"@,
        TokenKindV::In => "In"@,
        TokenKindV::Plus => "Plus"@,
        TokenKindV::Minus => "Minus"@,
        TokenKindV::Star => "Star"@,
        TokenKindV::Slash => "Slash"@,
        TokenKindV::Div => "Div"@,
        TokenKindV::Mod => "Mod"@,
        TokenKindV::Lt => "Lt"@,
        TokenKindV::Le => "Le"@,
        TokenKindV::Gt => "Gt"@,
        TokenKindV::Ge => "Ge"@,
        TokenKindV::Eq => "Eq"@,
        TokenKindV::Ne => "Ne"@,
        TokenKindV::And => "And"@,
        TokenKindV::Or => "Or"@,
        TokenKindV::Impl => "Impl"@,
        TokenKindV::Iff => "Iff"@,
        TokenKindV::Not => "Not"@,
        TokenKindV::Xor => "Xor"@,
        TokenKindV::DotDot => "DotDot"@,
        TokenKindV::LParen => "LParen"@,
        TokenKindV::RParen => "RParen"@,
        TokenKindV::LBracket => "LBracket"@,
        TokenKindV::RBracket => "RBracket"@,
        TokenKindV::LBrace => "LBrace"@,
        TokenKindV::RBrace => "RBrace"@,
        TokenKindV::Comma => "Comma"@,
        TokenKindV::Colon => "Colon"@,
        TokenKindV::ColonColon => "ColonColon"@,
        TokenKindV::Semicolon => "Semicolon"@,
        TokenKindV::Pipe => "Pipe"@,
        TokenKindV::Ident(s) => "Ident("@ + debug_quoted(s) + ")"@,
        TokenKindV::IntLit(i) => "IntLit("@ + int_decimal(i as int) + ")"@,
        TokenKindV::FloatLit(t) => "FloatLit("@ + float_debug_text(t) + ")"@,
        TokenKindV::StringLit(s) => "StringLit("@ + debug_quoted(s) + ")"@,
        TokenKindV::BoolLit(b) => "BoolLit("@ + (if b { "true"@ } else { "false"@ }) + ")"@,
        TokenKindV::Eof => "Eof"@,
    }
}

/// Variant number of a token kind (what `std::mem::discriminant` compares).
pub open spec fn token_tag(k: TokenKindV) -> u8 {
    match k {
        TokenKindV::Array => 0u8,
        TokenKindV::Bool => 1u8,
        TokenKindV::Constraint => 2u8,
        TokenKindV::Float => 3u8,
        TokenKindV::Int => 4u8,
        TokenKindV::Maximize => 5u8,
        TokenKindV::Minimize => 6u8,
        TokenKindV::Of => 7u8,
        TokenKindV::Output => 8u8,
        TokenKindV::Par => 9u8,
        TokenKindV::Satisfy => 10u8,
        TokenKindV::Solve => 11u8,
        TokenKindV::Var => 12u8,
        TokenKindV::Where => 13u8,
        TokenKindV::In => 14u8,
        TokenKindV::Plus => 15u8,
        TokenKindV::Minus => 16u8,
        TokenKindV::Star => 17u8,
        TokenKindV::Slash => 18u8,
        TokenKindV::Div => 19u8,
        TokenKindV::Mod => 20u8,
        TokenKindV::Lt => 21u8,
        TokenKindV::Le => 22u8,
        TokenKindV::Gt => 23u8,
        TokenKindV::Ge => 24u8,
        TokenKindV::Eq => 25u8,
        TokenKindV::Ne => 26u8,
        TokenKindV::And => 27u8,
        TokenKindV::Or => 28u8,
        TokenKindV::Impl => 29u8,
        TokenKindV::Iff => 30u8,
        TokenKindV::Not => 31u8,
        TokenKindV::Xor => 32u8,
        TokenKindV::DotDot => 33u8,
        TokenKindV::LParen => 34u8,
        TokenKindV::RParen => 35u8,
        TokenKindV::LBracket => 36u8,
        TokenKindV::RBracket => 37u8,
        TokenKindV::LBrace => 38u8,
        TokenKindV::RBrace => 39u8,
        TokenKindV::Comma => 40u8,
        TokenKindV::Colon => 41u8,
        TokenKindV::ColonColon => 42u8,
        TokenKindV::Semicolon => 43u8,
        TokenKindV::Pipe => 44u8,
        TokenKindV::Ident(..) => 45u8,
        TokenKindV::IntLit(..) => 46u8,
        TokenKindV::FloatLit(..) => 47u8,
        TokenKindV::StringLit(..) => 48u8,
        TokenKindV::BoolLit(..) => 49u8,
        TokenKindV::Eof => 50u8,
    }
}

impl TokenKind {
    /// Variant number, equal for kinds of the same variant.
    pub fn tag(&self) -> (t: u8)
        ensures
            t == token_tag(self@),
    {
        match self {
            TokenKind::Array => 0u8,
            TokenKind::Bool => 1u8,
            TokenKind::Constraint => 2u8,
            TokenKind::Float => 3u8,
            TokenKind::Int => 4u8,
            TokenKind::Maximize => 5u8,
            TokenKind::Minimize => 6u8,
            TokenKind::Of => 7u8,
            TokenKind::Output => 8u8,
            TokenKind::Par => 9u8,
            TokenKind::Satisfy => 10u8,
            TokenKind::Solve => 11u8,
            TokenKind::Var => 12u8,
            TokenKind::Where => 13u8,
            TokenKind::In => 14u8,
            TokenKind::Plus => 15u8,
            TokenKind::Minus => 16u8,
            TokenKind::Star => 17u8,
            TokenKind::Slash => 18u8,
            TokenKind::Div => 19u8,
            TokenKind::Mod => 20u8,
            TokenKind::Lt => 21u8,
            TokenKind::Le => 22u8,
            TokenKind::Gt => 23u8,
            TokenKind::Ge => 24u8,
            TokenKind::Eq => 25u8,
            TokenKind::Ne => 26u8,
            TokenKind::And => 27u8,
            TokenKind::Or => 28u8,
            TokenKind::Impl => 29u8,
            TokenKind::Iff => 30u8,
            TokenKind::Not => 31u8,
            TokenKind::Xor => 32u8,
            TokenKind::DotDot => 33u8,
            TokenKind::LParen => 34u8,
            TokenKind::RParen => 35u8,
            TokenKind::LBracket => 36u8,
            TokenKind::RBracket => 37u8,
            TokenKind::LBrace => 38u8,
            TokenKind::RBrace => 39u8,
            TokenKind::Comma => 40u8,
            TokenKind::Colon => 41u8,
            TokenKind::ColonColon => 42u8,
            TokenKind::Semicolon => 43u8,
            TokenKind::Pipe => 44u8,
            TokenKind::Ident(..) => 45u8,
            TokenKind::IntLit(..) => 46u8,
            TokenKind::FloatLit(..) => 47u8,
            TokenKind::StringLit(..) => 48u8,
            TokenKind::BoolLit(..) => 49u8,
            TokenKind::Eof => 50u8,
        }
    }

    /// A copy of the kind.
    pub fn copy(&self) -> (k: TokenKind)
        ensures
            k@ == self@,
    {
        match self {
            TokenKind::Array => TokenKind::Array,
            TokenKind::Bool => TokenKind::Bool,
            TokenKind::Constraint => TokenKind::Constraint,
            TokenKind::Float => TokenKind::Float,
            TokenKind::Int => TokenKind::Int,
            TokenKind::Maximize => TokenKind::Maximize,
            TokenKind::Minimize => TokenKind::Minimize,
            TokenKind::Of => TokenKind::Of,
            TokenKind::Output => TokenKind::Output,
            TokenKind::Par => TokenKind::Par,
            TokenKind::Satisfy => TokenKind::Satisfy,
            TokenKind::Solve => TokenKind::Solve,
            TokenKind::Var => TokenKind::Var,
            TokenKind::Where => TokenKind::Where,
            TokenKind::In => TokenKind::In,
            TokenKind::Plus => TokenKind::Plus,
            TokenKind::Minus => TokenKind::Minus,
            TokenKind::Star => TokenKind::Star,
            TokenKind::Slash => TokenKind::Slash,
            TokenKind::Div => TokenKind::Div,
            TokenKind::Mod => TokenKind::Mod,
            TokenKind::Lt => TokenKind::Lt,
            TokenKind::Le => TokenKind::Le,
            TokenKind::Gt => TokenKind::Gt,
            TokenKind::Ge => TokenKind::Ge,
            TokenKind::Eq => TokenKind::Eq,
            TokenKind::Ne => TokenKind::Ne,
            TokenKind::And => TokenKind::And,
            TokenKind::Or => TokenKind::Or,
            TokenKind::Impl => TokenKind::Impl,
            TokenKind::Iff => TokenKind::Iff,
            TokenKind::Not => TokenKind::Not,
            TokenKind::Xor => TokenKind::Xor,
            TokenKind::DotDot => TokenKind::DotDot,
            TokenKind::LParen => TokenKind::LParen,
            TokenKind::RParen => TokenKind::RParen,
            TokenKind::LBracket => TokenKind::LBracket,
            TokenKind::RBracket => TokenKind::RBracket,
            TokenKind::LBrace => TokenKind::LBrace,
            TokenKind::RBrace => TokenKind::RBrace,
            TokenKind::Comma => TokenKind::Comma,
            TokenKind::Colon => TokenKind::Colon,
            TokenKind::ColonColon => TokenKind::ColonColon,
            TokenKind::Semicolon => TokenKind::Semicolon,
            TokenKind::Pipe => TokenKind::Pipe,
            TokenKind::Eof => TokenKind::Eof,
            TokenKind::Ident(s) => TokenKind::Ident(s.clone()),
            TokenKind::IntLit(i) => TokenKind::IntLit(*i),
            TokenKind::FloatLit(s) => TokenKind::FloatLit(s.clone()),
            TokenKind::StringLit(s) => TokenKind::StringLit(s.clone()),
            TokenKind::BoolLit(b) => TokenKind::BoolLit(*b),
        }
    }

    /// What `{:?}` printed for the kind.
    pub fn debug_text(&self) -> (s: String)
        ensures
            s@ == token_debug(self@),
    {
        match self {
            TokenKind::Array => String::from_str("Array"),
            TokenKind::Bool => String::from_str("Bool"),
            TokenKind::Constraint => String::from_str("Constraint"),
            TokenKind::Float => String::from_str("Float"),
            TokenKind::Int => String::from_str("Int"),
            TokenKind::Maximize => String::from_str("Maximize"),
            TokenKind::Minimize => String::from_str("Minimize"),
            TokenKind::Of => String::from_str("Of"),
            TokenKind::Output => String::from_str("Output"),
            TokenKind::Par => String::from_str("Par"),
            TokenKind::Satisfy => String::from_str("Satisfy"),
            TokenKind::Solve => String::from_str("Solve"),
            TokenKind::Var => String::from_str("Var"),
            TokenKind::Where => String::from_str("Where"),
            TokenKind::In => String::from_str("In"),
            TokenKind::Plus => String::from_str("Plus"),
            TokenKind::Minus => String::from_str("Minus"),
            TokenKind::Star => String::from_str("Star"),
            TokenKind::Slash => String::from_str("Slash"),
            TokenKind::Div => String::from_str("Div"),
            TokenKind::Mod => String::from_str("Mod"),
            TokenKind::Lt => String::from_str("Lt"),
            TokenKind::Le => String::from_str("Le"),
            TokenKind::Gt => String::from_str("Gt"),
            TokenKind::Ge => String::from_str("Ge"),
            TokenKind::Eq => String::from_str("Eq"),
            TokenKind::Ne => String::from_str("Ne"),
            TokenKind::And => String::from_str("And"),
            TokenKind::Or => String::from_str("Or"),
            TokenKind::Impl => String::from_str("Impl"),
            TokenKind::Iff => String::from_str("Iff"),
            TokenKind::Not => String::from_str("Not"),
            TokenKind::Xor => String::from_str("Xor"),
            TokenKind::DotDot => String::from_str("DotDot"),
            TokenKind::LParen => String::from_str("LParen"),
            TokenKind::RParen => String::from_str("RParen"),
            TokenKind::LBracket => String::from_str("LBracket"),
            TokenKind::RBracket => String::from_str("RBracket"),
            TokenKind::LBrace => String::from_str("LBrace"),
            TokenKind::RBrace => String::from_str("RBrace"),
            TokenKind::Comma => String::from_str("Comma"),
            TokenKind::Colon => String::from_str("Colon"),
            TokenKind::ColonColon => String::from_str("ColonColon"),
            TokenKind::Semicolon => String::from_str("Semicolon"),
            TokenKind::Pipe => String::from_str("Pipe"),
            TokenKind::Eof => String::from_str("Eof"),
            TokenKind::Ident(s) => wrap_text("Ident(", debug_quote(s.as_str()).as_str()),
            TokenKind::IntLit(i) => wrap_text("IntLit(", i64_text(*i).as_str()),
            TokenKind::FloatLit(t) => wrap_text("FloatLit(", float_debug(t.as_str()).as_str()),
            TokenKind::StringLit(s) => wrap_text("StringLit(", debug_quote(s.as_str()).as_str()),
            TokenKind::BoolLit(b) => wrap_text("BoolLit(", if *b { "true" } else { "false" }),
        }
    }
}

fn wrap_text(head: &str, body: &str) -> (s: String)
    ensures
        s@ == head@ + body@ + ")"@,
{
    let mut v: Vec<char> = Vec::new();
    push_str(&mut v, head);
    push_str(&mut v, body);
    push_str(&mut v, ")");
    assert(v@ =~= head@ + body@ + ")"@);
    string_from_chars(&v)
}

proof fn lemma_dot_index(t: Seq<char>)
    ensures
        0 <= dot_index(t) <= t.len(),
        forall|j: int| 0 <= j < dot_index(t) ==> t[j] != '.',
        dot_index(t) < t.len() ==> t[dot_index(t)] == '.',
    decreases t.len(),
{
    if t.len() > 0 && t[0] != '.' {
        lemma_dot_index(t.drop_first());
        assert forall|j: int| 0 <= j < dot_index(t) implies t[j] != '.' by {
            if j > 0 {
                assert(t[j] == t.drop_first()[j - 1]);
            }
        }
    }
}

proof fn lemma_dot_index_unique(t: Seq<char>, k: int)
    requires
        0 <= k <= t.len(),
        forall|j: int| 0 <= j < k ==> t[j] != '.',
        k < t.len() ==> t[k] == '.',
    ensures
        dot_index(t) == k,
{
    lemma_dot_index(t);
    if dot_index(t) < k {
        assert(t[dot_index(t)] == '.');
    } else if dot_index(t) > k {
        assert(t[k] != '.');
    }
}

/// The integer digits and the fraction digits of a float literal, leading
/// zeros of the first and trailing zeros of the second dropped.
pub(crate) fn float_parts(t: &str) -> (r: (Vec<char>, Vec<char>))
    ensures
        r.0@ == strip_leading_zeros(t@.subrange(0, dot_index(t@))),
        r.1@ == strip_trailing_zeros(
            if dot_index(t@) < t@.len() { t@.subrange(dot_index(t@) + 1, t@.len() as int) } else { Seq::empty() },
        ),
{
    let v = chars_of(t);
    let mut d: usize = 0;
    while d < v.len() && v[d] != '.'
        invariant
            d <= v.len(),
            forall|j: int| 0 <= j < d ==> v@[j] != '.',
        decreases v.len() - d,
    {
        d = d + 1;
    }
    proof {
        lemma_dot_index_unique(v@, d as int);
    }
    let mut a: usize = 0;
    while a + 1 < d && v[a] == '0'
        invariant
            a < d || (a == 0 && d == 0),
            d <= v.len(),
            strip_leading_zeros(v@.subrange(a as int, d as int)) == strip_leading_zeros(v@.subrange(0, d as int)),
        decreases d - a,
    {
        assert(v@.subrange(a as int, d as int).drop_first() =~= v@.subrange(a + 1, d as int));
        a = a + 1;
    }
    let fs: usize = if d < v.len() { d + 1 } else { v.len() };
    let mut b: usize = v.len();
    while b > fs && v[b - 1] == '0'
        invariant
            fs <= b <= v.len(),
            strip_trailing_zeros(v@.subrange(fs as int, b as int)) == strip_trailing_zeros(v@.subrange(fs as int, v.len() as int)),
        decreases b,
    {
        assert(v@.subrange(fs as int, b as int).drop_last() =~= v@.subrange(fs as int, b - 1));
        b = b - 1;
    }
    let mut ip: Vec<char> = Vec::new();
    let mut i: usize = a;
    while i < d
        invariant
            a <= i <= d <= v.len(),
            ip@ == v@.subrange(a as int, i as int),
        decreases d - i,
    {
        ip.push(v[i]);
        i = i + 1;
        assert(ip@ =~= v@.subrange(a as int, i as int));
    }
    let mut fp: Vec<char> = Vec::new();
    let mut j: usize = fs;
    while j < b
        invariant
            fs <= j <= b <= v.len(),
            fp@ == v@.subrange(fs as int, j as int),
        decreases b - j,
    {
        fp.push(v[j]);
        j = j + 1;
        assert(fp@ =~= v@.subrange(fs as int, j as int));
    }
    proof {
        let frac = if d < v.len() { v@.subrange(d + 1, v.len() as int) } else { Seq::<char>::empty() };
        assert(frac =~= v@.subrange(fs as int, v.len() as int));
        if d > 0 {
            assert(strip_leading_zeros(v@.subrange(a as int, d as int)) == v@.subrange(a as int, d as int));
        } else {
            assert(v@.subrange(0, 0) =~= Seq::<char>::empty());
        }
        assert(strip_trailing_zeros(v@.subrange(fs as int, b as int)) == v@.subrange(fs as int, b as int));
    }
    (ip, fp)
}

proof fn lemma_strip_leading_zeros_first(t: Seq<char>)
    ensures
        strip_leading_zeros(t).len() > 1 ==> strip_leading_zeros(t)[0] != '0',
    decreases t.len(),
{
    if t.len() > 1 && t[0] == '0' {
        lemma_strip_leading_zeros_first(t.drop_first());
    }
}

proof fn lemma_strip_trailing_zeros_shape(t: Seq<char>)
    ensures
        strip_trailing_zeros(t).len() <= t.len(),
        strip_trailing_zeros(t) == t.subrange(0, strip_trailing_zeros(t).len() as int),
        strip_trailing_zeros(t).len() > 0 ==> strip_trailing_zeros(t).last() != '0',
        t.len() > 0 && t[0] != '0' ==> strip_trailing_zeros(t).len() > 0,
    decreases t.len(),
{
    if t.len() > 0 && t.last() == '0' {
        lemma_strip_trailing_zeros_shape(t.drop_last());
        let r = strip_trailing_zeros(t.drop_last());
        assert(t.drop_last().subrange(0, r.len() as int) =~= t.subrange(0, r.len() as int));
        if t.len() > 0 && t[0] != '0' && t.len() == 1 {
            assert(t.last() == t[0]);
        }
    } else {
        assert(t.subrange(0, t.len() as int) =~= t);
    }
}

proof fn lemma_leading_zeros(t: Seq<char>)
    ensures
        leading_zeros(t) <= t.len(),
        leading_zeros(t) < t.len() ==> t[leading_zeros(t) as int] != '0',
        t.len() > 0 && t.last() != '0' ==> leading_zeros(t) < t.len(),
    decreases t.len(),
{
    if t.len() > 0 && t[0] == '0' {
        lemma_leading_zeros(t.drop_first());
        if t.len() > 1 {
            assert(t.drop_first().last() == t.last());
        }
    }
}

/// The characters of `v` without its trailing `0`s.
fn trim_trailing_zeros(v: &Vec<char>) -> (r: Vec<char>)
    ensures
        r@ == strip_trailing_zeros(v@),
{
    let mut b: usize = v.len();
    assert(v@.subrange(0, v.len() as int) =~= v@);
    while b > 0 && v[b - 1] == '0'
        invariant
            b <= v.len(),
            strip_trailing_zeros(v@.subrange(0, b as int)) == strip_trailing_zeros(v@),
        decreases b,
    {
        assert(v@.subrange(0, b as int).drop_last() =~= v@.subrange(0, b - 1));
        b = b - 1;
    }
    assert(v@.subrange(0, v.len() as int) =~= v@);
    let mut r: Vec<char> = Vec::new();
    let mut i: usize = 0;
    while i < b
        invariant
            i <= b <= v.len(),
            r@ == v@.subrange(0, i as int),
        decreases b - i,
    {
        r.push(v[i]);
        i = i + 1;
        assert(r@ =~= v@.subrange(0, i as int));
    }
    r
}

/// The number of `0`s that `v` starts with.
fn count_leading_zeros(v: &Vec<char>) -> (z: usize)
    ensures
        z as nat == leading_zeros(v@),
{
    let mut z: usize = 0;
    assert(v@.subrange(0, v.len() as int) =~= v@);
    while z < v.len() && v[z] == '0'
        invariant
            z <= v.len(),
            z + leading_zeros(v@.subrange(z as int, v.len() as int)) == leading_zeros(v@),
        decreases v.len() - z,
    {
        assert(v@.subrange(z as int, v.len() as int).drop_first() =~= v@.subrange(z + 1, v.len() as int));
        z = z + 1;
    }
    assert(v@.subrange(0, v.len() as int) =~= v@);
    z
}

/// Appends `scientific_text(d, "")` (without the exponent) to `out`.
fn push_scientific_digits(out: &mut Vec<char>, d: &Vec<char>, from: usize)
    requires
        from < d.len(),
    ensures
        final(out)@ == old(out)@ + scientific_text(d@.subrange(from as int, d.len() as int), Seq::empty()),
{
    let ghost ds = d@.subrange(from as int, d.len() as int);
    assert(ds[0] == d@[from as int]);
    out.push(d[from]);
    if from + 1 < d.len() {
        out.push('.');
        let mut i: usize = from + 1;
        assert(out@ =~= old(out)@ + seq![ds[0]] + seq!['.'] + d@.subrange(from + 1, i as int));
        while i < d.len()
            invariant
                from + 1 <= i <= d.len(),
                ds == d@.subrange(from as int, d.len() as int),
                out@ == old(out)@ + seq![ds[0]] + seq!['.'] + d@.subrange(from + 1, i as int),
            decreases d.len() - i,
        {
            out.push(d[i]);
            i = i + 1;
            assert(out@ =~= old(out)@ + seq![ds[0]] + seq!['.'] + d@.subrange(from + 1, i as int));
        }
        assert(ds.subrange(1, ds.len() as int) =~= d@.subrange(from + 1, d.len() as int));
    } else {
        assert(ds.len() == 1);
    }
    out.push('e');
    assert(out@ =~= old(out)@ + scientific_text(ds, Seq::empty()));
}

/// `float_debug_text` of a literal.
pub(crate) fn float_debug(t: &str) -> (s: String)
    ensures
        s@ == float_debug_text(t@),
{
    reveal(float_debug_text);
    let (ip, fp) = float_parts(t);
    let ghost d = dot_index(t@);
    let ghost frac = if d < t@.len() { t@.subrange(d + 1, t@.len() as int) } else { Seq::<char>::empty() };
    proof {
        lemma_strip_leading_zeros_first(t@.subrange(0, d));
        lemma_strip_trailing_zeros_shape(frac);
    }
    if ip.len() >= 17 {
        let mut all = ip.clone();
        push_chars(&mut all, &fp);
        assert(all@ =~= ip@ + fp@);
        proof {
            lemma_strip_trailing_zeros_shape(all@);
            assert(all@[0] == ip@[0]);
        }
        let digits = trim_trailing_zeros(&all);
        let mut out: Vec<char> = Vec::new();
        push_scientific_digits(&mut out, &digits, 0);
        let ghost head = out@;
        push_usize(&mut out, ip.len() - 1);
        assert(digits@.subrange(0, digits@.len() as int) =~= digits@);
        assert(out@ =~= float_debug_text(t@));
        return string_from_chars(&out);
    }
    if ip.len() == 1 && ip[0] == '0' && fp.len() > 0 {
        let z = count_leading_zeros(&fp);
        if z >= 4 {
            proof {
                lemma_leading_zeros(fp@);
                assert(ip@ =~= seq!['0']);
            }
            let mut out: Vec<char> = Vec::new();
            push_scientific_digits(&mut out, &fp, z);
            out.push('-');
            push_usize(&mut out, z + 1);
            assert(out@ =~= float_debug_text(t@));
            return string_from_chars(&out);
        }
    }
    proof {
        if ip@ == seq!['0'] && fp@.len() > 0 {
            assert(ip.len() == 1 && ip@[0] == '0');
        }
    }
    let mut out = ip;
    out.push('.');
    if fp.len() == 0 {
        out.push('0');
    } else {
        push_chars(&mut out, &fp);
    }
    assert(out@ =~= float_debug_text(t@));
    string_from_chars(&out)
}

/// A float literal as `{}` shows an `f64`: like `float_debug_text`, but
/// with no `.0` for a whole number.
pub open spec fn float_display_text(t: Seq<char>) -> Seq<char> {
    let d = dot_index(t);
    let i = strip_leading_zeros(t.subrange(0, d));
    let f = strip_trailing_zeros(if d < t.len() { t.subrange(d + 1, t.len() as int) } else { Seq::empty() });
    if f.len() == 0 {
        i
    } else {
        i + seq!['.'] + f
    }
}

/// `float_display_text` of a literal.
pub(crate) fn float_display(t: &str) -> (s: String)
    ensures
        s@ == float_display_text(t@),
{
    let (ip, fp) = float_parts(t);
    let mut out = ip;
    if fp.len() > 0 {
        out.push('.');
        push_chars(&mut out, &fp);
    }
    assert(out@ =~= float_display_text(t@));
    string_from_chars(&out)
}

} // verus!
