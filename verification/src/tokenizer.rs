//! FlatZinc tokenizer: source text to tokens with their line and column.
//!
//! What one call of `next_token` reads from an offset is `fz_next_spec`;
//! `tokenize` reads tokens up to the end or the first error (`tokenize_spec`).

use vstd::prelude::*;
use crate::error::{lemma_line_col_bound, line_col};
use crate::lexer::{char_at, digits_end, ident_char, ident_end, lemma_digits_end, lemma_ident_end};
use crate::text::{
    all_digits, char_alphabetic, char_whitespace, chars_of, digits_u64, digits_value, is_alphabetic,
    is_alphanumeric, is_ascii_digit, is_digit, is_whitespace, push_chars, push_str, str_eq, string_from_chars,
};

verus! {

/// Source location (line and column, both from 1).
#[derive(Debug, Clone, Copy, PartialEq, Eq, Structural)]
pub struct Location {
    pub line: usize,
    pub column: usize,
}

impl Location {
    pub fn new(line: usize, column: usize) -> (l: Self)
        ensures
            l == (Location { line, column }),
    {
        Location { line, column }
    }
}

/// FlatZinc tokens. A float literal keeps its text.
#[derive(Debug, Clone, PartialEq)]
pub enum TokenType {
    Predicate,
    Var,
    Array,
    Of,
    Constraint,
    Solve,
    Satisfy,
    Minimize,
    Maximize,
    Int,
    Bool,
    Float,
    SetKw,
    True,
    False,
    Identifier(String),
    IntLiteral(i64),
    FloatLiteral(String),
    StringLiteral(String),
    DoubleColon,
    Colon,
    Semicolon,
    Comma,
    Dot,
    DoubleDot,
    LeftParen,
    RightParen,
    LeftBracket,
    RightBracket,
    LeftBrace,
    RightBrace,
    Equals,
    Eof,
}

pub enum TokenTypeV {
    Predicate,
    Var,
    Array,
    Of,
    Constraint,
    Solve,
    Satisfy,
    Minimize,
    Maximize,
    Int,
    Bool,
    Float,
    SetKw,
    True,
    False,
    Identifier(Seq<char>),
    IntLiteral(i64),
    FloatLiteral(Seq<char>),
    StringLiteral(Seq<char>),
    DoubleColon,
    Colon,
    Semicolon,
    Comma,
    Dot,
    DoubleDot,
    LeftParen,
    RightParen,
    LeftBracket,
    RightBracket,
    LeftBrace,
    RightBrace,
    Equals,
    Eof,
}

pub open spec fn view_token_type(t: TokenType) -> TokenTypeV {
    match t {
        TokenType::Predicate => TokenTypeV::Predicate,
        TokenType::Var => TokenTypeV::Var,
        TokenType::Array => TokenTypeV::Array,
        TokenType::Of => TokenTypeV::Of,
        TokenType::Constraint => TokenTypeV::Constraint,
        TokenType::Solve => TokenTypeV::Solve,
        TokenType::Satisfy => TokenTypeV::Satisfy,
        TokenType::Minimize => TokenTypeV::Minimize,
        TokenType::Maximize => TokenTypeV::Maximize,
        TokenType::Int => TokenTypeV::Int,
        TokenType::Bool => TokenTypeV::Bool,
        TokenType::Float => TokenTypeV::Float,
        TokenType::SetKw => TokenTypeV::SetKw,
        TokenType::True => TokenTypeV::True,
        TokenType::False => TokenTypeV::False,
        TokenType::Identifier(s) => TokenTypeV::Identifier(s@),
        TokenType::IntLiteral(i) => TokenTypeV::IntLiteral(i),
        TokenType::FloatLiteral(s) => TokenTypeV::FloatLiteral(s@),
        TokenType::StringLiteral(s) => TokenTypeV::StringLiteral(s@),
        TokenType::DoubleColon => TokenTypeV::DoubleColon,
        TokenType::Colon => TokenTypeV::Colon,
        TokenType::Semicolon => TokenTypeV::Semicolon,
        TokenType::Comma => TokenTypeV::Comma,
        TokenType::Dot => TokenTypeV::Dot,
        TokenType::DoubleDot => TokenTypeV::DoubleDot,
        TokenType::LeftParen => TokenTypeV::LeftParen,
        TokenType::RightParen => TokenTypeV::RightParen,
        TokenType::LeftBracket => TokenTypeV::LeftBracket,
        TokenType::RightBracket => TokenTypeV::RightBracket,
        TokenType::LeftBrace => TokenTypeV::LeftBrace,
        TokenType::RightBrace => TokenTypeV::RightBrace,
        TokenType::Equals => TokenTypeV::Equals,
        TokenType::Eof => TokenTypeV::Eof,
    }
}

impl View for TokenType {
    type V = TokenTypeV;

    open spec fn view(&self) -> TokenTypeV {
        view_token_type(*self)
    }
}

/// A token and where it starts.
#[derive(Debug, Clone, PartialEq)]
pub struct Token {
    pub token_type: TokenType,
    pub location: Location,
}

pub struct FzTokenV {
    pub token_type: TokenTypeV,
    pub location: Location,
}

impl View for Token {
    type V = FzTokenV;

    open spec fn view(&self) -> FzTokenV {
        FzTokenV { token_type: self.token_type@, location: self.location }
    }
}

impl Token {
    pub fn new(token_type: TokenType, location: Location) -> (t: Self)
        ensures
            t@ == (FzTokenV { token_type: token_type@, location }),
    {
        Token { token_type, location }
    }
}

/// Errors of the FlatZinc front end.
#[derive(Debug, Clone, PartialEq)]
pub enum FlatZincError {
    /// A lexical error at a line and column.
    LexError { message: String, line: usize, column: usize },
}

pub type FlatZincResult<T> = core::result::Result<T, FlatZincError>;

pub struct LexErrorV {
    pub message: Seq<char>,
    pub line: usize,
    pub column: usize,
}

impl View for FlatZincError {
    type V = LexErrorV;

    open spec fn view(&self) -> LexErrorV {
        match *self {
            FlatZincError::LexError { message, line, column } => LexErrorV { message: message@, line, column },
        }
    }
}

// ---------------------------------------------------------------------------
// Specification.

/// Location of offset `k`.
pub open spec fn loc_at(s: Seq<char>, k: int) -> Location {
    let (l, c) = line_col(s, k as nat);
    Location { line: l as usize, column: c as usize }
}

pub open spec fn lex_error(message: Seq<char>, loc: Location) -> LexErrorV {
    LexErrorV { message, line: loc.line, column: loc.column }
}

/// End of the white space at `i`.
pub open spec fn ws_end(s: Seq<char>, i: int) -> int
    decreases s.len() - i,
{
    if 0 <= i < s.len() && char_whitespace(s[i]) {
        ws_end(s, i + 1)
    } else {
        i
    }
}

/// End of a `%` comment at `i`: just after the next line break, or the end.
pub open spec fn line_comment_end(s: Seq<char>, i: int) -> int
    decreases s.len() - i,
{
    if 0 <= i < s.len() {
        if s[i] == '\n' {
            i + 1
        } else {
            line_comment_end(s, i + 1)
        }
    } else {
        i
    }
}

/// End of a block comment whose body starts at `i`: just after the first
/// `*/`, or `None` when there is none.
pub open spec fn block_comment_end(s: Seq<char>, i: int) -> Option<int>
    decreases s.len() - i,
{
    if 0 <= i < s.len() {
        if s[i] == '*' && i + 1 < s.len() && s[i + 1] == '/' {
            Some(i + 2)
        } else {
            block_comment_end(s, i + 1)
        }
    } else {
        None
    }
}

/// White space and comments from `i`: the offset of the next token, or
/// the start of an unterminated block comment.
pub open spec fn fz_trivia(s: Seq<char>, i: int) -> core::result::Result<int, int>
    decreases s.len() - i,
{
    let j = ws_end(s, i);
    if char_at(s, j) == Some('%') {
        let k = line_comment_end(s, j);
        if i < k <= s.len() {
            fz_trivia(s, k)
        } else {
            Ok(k)
        }
    } else if char_at(s, j) == Some('/') && char_at(s, j + 1) == Some('*') {
        match block_comment_end(s, j + 2) {
            Some(k) => if i < k <= s.len() {
                fz_trivia(s, k)
            } else {
                Ok(k)
            },
            None => Err(j),
        }
    } else {
        Ok(j)
    }
}

/// The digits of a number from `p` (`f`: a `.` or an exponent was seen):
/// digits, one `.` followed by a digit, and `e`/`E` with an optional sign.
/// The end and whether it is a float.
pub open spec fn num_scan(s: Seq<char>, p: int, f: bool) -> (int, bool)
    decreases s.len() - p,
{
    if 0 <= p < s.len() {
        let c = s[p];
        if is_digit(c) {
            num_scan(s, p + 1, f)
        } else if c == '.' && !f && p + 1 < s.len() && is_digit(s[p + 1]) {
            num_scan(s, p + 1, true)
        } else if c == 'e' || c == 'E' {
            let q = if p + 1 < s.len() && (s[p + 1] == '+' || s[p + 1] == '-') { p + 2 } else { p + 1 };
            num_scan(s, q, true)
        } else {
            (p, f)
        }
    } else {
        (p, f)
    }
}

/// Whether `f64` parsing accepts a number's text: an optional `-`, digits,
/// optionally `.` and digits, optionally `e`/`E`, a sign and digits.
pub open spec fn float_syntax_ok(t: Seq<char>) -> bool {
    let a = if t.len() > 0 && t[0] == '-' { 1int } else { 0int };
    let d1 = digits_end(t, a);
    let p = if d1 < t.len() && t[d1] == '.' { digits_end(t, d1 + 1) } else { d1 };
    &&& d1 > a
    &&& (p == d1 || p > d1 + 1)
    &&& (p == t.len() || ((t[p] == 'e' || t[p] == 'E') && {
        let q = if p + 1 < t.len() && (t[p + 1] == '+' || t[p + 1] == '-') { p + 2 } else { p + 1 };
        digits_end(t, q) > q && digits_end(t, q) == t.len()
    }))
}

/// A number at `i` (a digit, or `-` and a digit): an integer literal, or a
/// float literal with its text; an integer out of the `i64` range or a
/// float `f64` parsing rejects is an error at `i`.
pub open spec fn read_number_spec(s: Seq<char>, i: int) -> (core::result::Result<TokenTypeV, LexErrorV>, int) {
    let p = if char_at(s, i) == Some('-') { i + 1 } else { i };
    let (e, f) = num_scan(s, p, false);
    let text = s.subrange(i, e);
    if f {
        if float_syntax_ok(text) {
            (Ok(TokenTypeV::FloatLiteral(text)), e)
        } else {
            (Err(lex_error("Invalid float literal: "@ + text, loc_at(s, i))), e)
        }
    } else {
        let v = digits_value(s.subrange(p, e));
        if p == i && v <= i64::MAX {
            (Ok(TokenTypeV::IntLiteral(v as i64)), e)
        } else if p > i && v <= i64::MAX + 1 {
            (Ok(TokenTypeV::IntLiteral((-v) as i64)), e)
        } else {
            (Err(lex_error("Invalid integer literal: "@ + text, loc_at(s, i))), e)
        }
    }
}

/// The rest of a string literal opened at `i0`, from `j` with `acc` read:
/// `\n`, `\t`, `\\` and `\"` are the escapes; a line break or the end of the
/// input leaves it unterminated.
pub open spec fn string_scan(s: Seq<char>, i0: int, j: int, acc: Seq<char>) -> (
    core::result::Result<Seq<char>, LexErrorV>,
    int,
)
    decreases s.len() - j,
{
    if j < 0 || j >= s.len() || s[j] == '\n' {
        (Err(lex_error("Unterminated string literal"@, loc_at(s, i0))), j)
    } else if s[j] == '"' {
        (Ok(acc), j + 1)
    } else if s[j] == '\\' {
        let c = char_at(s, j + 1);
        if c == Some('n') {
            string_scan(s, i0, j + 2, acc.push('\n'))
        } else if c == Some('t') {
            string_scan(s, i0, j + 2, acc.push('\t'))
        } else if c == Some('\\') {
            string_scan(s, i0, j + 2, acc.push('\\'))
        } else if c == Some('"') {
            string_scan(s, i0, j + 2, acc.push('"'))
        } else {
            (Err(lex_error("Invalid escape sequence"@, loc_at(s, j + 1))), j + 1)
        }
    } else {
        string_scan(s, i0, j + 1, acc.push(s[j]))
    }
}

/// Keyword for a word, or an identifier.
pub open spec fn fz_keyword(w: Seq<char>) -> TokenTypeV {
    if w == "predicate"@ { TokenTypeV::Predicate }
    else if w == "var"@ { TokenTypeV::Var }
    else if w == "array"@ { TokenTypeV::Array }
    else if w == "of"@ { TokenTypeV::Of }
    else if w == "constraint"@ { TokenTypeV::Constraint }
    else if w == "solve"@ { TokenTypeV::Solve }
    else if w == "satisfy"@ { TokenTypeV::Satisfy }
    else if w == "minimize"@ { TokenTypeV::Minimize }
    else if w == "maximize"@ { TokenTypeV::Maximize }
    else if w == "int"@ { TokenTypeV::Int }
    else if w == "bool"@ { TokenTypeV::Bool }
    else if w == "float"@ { TokenTypeV::Float }
    else if w == "set"@ { TokenTypeV::SetKw }
    else if w == "true"@ { TokenTypeV::True }
    else if w == "false"@ { TokenTypeV::False }
    else { TokenTypeV::Identifier(w) }
}

/// The reserved words of FlatZinc, each by the token it stands for.
pub open spec fn fz_reserved_word(t: TokenTypeV) -> Option<Seq<char>> {
    match t {
        TokenTypeV::Predicate => Some("predicate"@),
        TokenTypeV::Var => Some("var"@),
        TokenTypeV::Array => Some("array"@),
        TokenTypeV::Of => Some("of"@),
        TokenTypeV::Constraint => Some("constraint"@),
        TokenTypeV::Solve => Some("solve"@),
        TokenTypeV::Satisfy => Some("satisfy"@),
        TokenTypeV::Minimize => Some("minimize"@),
        TokenTypeV::Maximize => Some("maximize"@),
        TokenTypeV::Int => Some("int"@),
        TokenTypeV::Bool => Some("bool"@),
        TokenTypeV::Float => Some("float"@),
        TokenTypeV::SetKw => Some("set"@),
        TokenTypeV::True => Some("true"@),
        TokenTypeV::False => Some("false"@),
        _ => None,
    }
}

/// Each reserved word is read as the token it stands for, and any other
/// word as an identifier of itself.
pub proof fn lemma_fz_reserved_words(t: TokenTypeV, w: Seq<char>)
    ensures
        fz_reserved_word(t) matches Some(r) ==> fz_keyword(r) == t,
        fz_keyword(w) == TokenTypeV::Identifier(w) || fz_reserved_word(fz_keyword(w)) == Some(w),
{
    reveal_strlit("predicate");
    assert("predicate"@ =~= seq!['p', 'r', 'e', 'd', 'i', 'c', 'a', 't', 'e']);
    reveal_strlit("var");
    assert("var"@ =~= seq!['v', 'a', 'r']);
    reveal_strlit("array");
    assert("array"@ =~= seq!['a', 'r', 'r', 'a', 'y']);
    reveal_strlit("of");
    assert("of"@ =~= seq!['o', 'f']);
    reveal_strlit("constraint");
    assert("constraint"@ =~= seq!['c', 'o', 'n', 's', 't', 'r', 'a', 'i', 'n', 't']);
    reveal_strlit("solve");
    assert("solve"@ =~= seq!['s', 'o', 'l', 'v', 'e']);
    reveal_strlit("satisfy");
    assert("satisfy"@ =~= seq!['s', 'a', 't', 'i', 's', 'f', 'y']);
    reveal_strlit("minimize");
    assert("minimize"@ =~= seq!['m', 'i', 'n', 'i', 'm', 'i', 'z', 'e']);
    reveal_strlit("maximize");
    assert("maximize"@ =~= seq!['m', 'a', 'x', 'i', 'm', 'i', 'z', 'e']);
    reveal_strlit("int");
    assert("int"@ =~= seq!['i', 'n', 't']);
    reveal_strlit("bool");
    assert("bool"@ =~= seq!['b', 'o', 'o', 'l']);
    reveal_strlit("float");
    assert("float"@ =~= seq!['f', 'l', 'o', 'a', 't']);
    reveal_strlit("set");
    assert("set"@ =~= seq!['s', 'e', 't']);
    reveal_strlit("true");
    assert("true"@ =~= seq!['t', 'r', 'u', 'e']);
    reveal_strlit("false");
    assert("false"@ =~= seq!['f', 'a', 'l', 's', 'e']);
}

/// A word in the input (a letter or `_`, then letters, digits and `_`)
/// is read as one token at its location, ending after it: the token a
/// reserved word stands for when the word is one, an identifier of the
/// word otherwise.
pub proof fn lemma_fz_word_token(s: Seq<char>, pos: int)
    ensures
        ({
            match fz_trivia(s, pos) {
                Ok(j) => {
                    let e = ident_end(s, j + 1);
                    let w = s.subrange(j, e);
                    0 <= j < s.len() && (char_alphabetic(s[j]) || s[j] == '_') ==> (fz_next_spec(s, pos).0 matches Ok(t)
                        && fz_next_spec(s, pos).1 == e
                        && t.location == loc_at(s, j)
                        && (forall|k: TokenTypeV| #[trigger] fz_reserved_word(k) == Some(w) ==> t.token_type == k)
                        && ((forall|k: TokenTypeV| #[trigger] fz_reserved_word(k) != Some(w)) ==> t.token_type
                            == TokenTypeV::Identifier(w)))
                },
                Err(_) => true,
            }
        }),
{
    match fz_trivia(s, pos) {
        Ok(j) => {
            let e = ident_end(s, j + 1);
            let w = s.subrange(j, e);
            if 0 <= j < s.len() && (char_alphabetic(s[j]) || s[j] == '_') {
                assert forall|k: TokenTypeV| #[trigger] fz_reserved_word(k) == Some(w) implies fz_keyword(w) == k by {
                    lemma_fz_reserved_words(k, w);
                }
                lemma_fz_reserved_words(TokenTypeV::Eof, w);
                if fz_keyword(w) != TokenTypeV::Identifier(w) {
                    assert(fz_reserved_word(fz_keyword(w)) == Some(w));
                }
            }
        },
        Err(_) => {},
    }
}

/// The one-character punctuation tokens of FlatZinc, each by its
/// character.
pub open spec fn fz_punct_char(t: TokenTypeV) -> Option<char> {
    match t {
        TokenTypeV::Semicolon => Some(';'),
        TokenTypeV::Comma => Some(','),
        TokenTypeV::LeftParen => Some('('),
        TokenTypeV::RightParen => Some(')'),
        TokenTypeV::LeftBracket => Some('['),
        TokenTypeV::RightBracket => Some(']'),
        TokenTypeV::LeftBrace => Some('{'),
        TokenTypeV::RightBrace => Some('}'),
        TokenTypeV::Equals => Some('='),
        TokenTypeV::Colon => Some(':'),
        TokenTypeV::Dot => Some('.'),
        _ => None,
    }
}

/// A punctuation character is read as the token that stands for it, and
/// each one-character punctuation token except `:` and `.` (which start
/// `::` and `..`) is read from its character.
pub proof fn lemma_fz_punct(c: char, t: TokenTypeV)
    ensures
        punct(c) matches Some(u) ==> fz_punct_char(u) == Some(c),
        fz_punct_char(t) == Some(c) && c != ':' && c != '.' ==> punct(c) == Some(t),
{
}

/// Single-character punctuation.
pub open spec fn punct(c: char) -> Option<TokenTypeV> {
    if c == ';' { Some(TokenTypeV::Semicolon) }
    else if c == ',' { Some(TokenTypeV::Comma) }
    else if c == '(' { Some(TokenTypeV::LeftParen) }
    else if c == ')' { Some(TokenTypeV::RightParen) }
    else if c == '[' { Some(TokenTypeV::LeftBracket) }
    else if c == ']' { Some(TokenTypeV::RightBracket) }
    else if c == '{' { Some(TokenTypeV::LeftBrace) }
    else if c == '}' { Some(TokenTypeV::RightBrace) }
    else if c == '=' { Some(TokenTypeV::Equals) }
    else { None }
}

/// The token at `j`, a non-trivia offset, and the offset after it.
pub open spec fn fz_lex_at(s: Seq<char>, j: int) -> (core::result::Result<TokenTypeV, LexErrorV>, int) {
    match char_at(s, j) {
        None => (Ok(TokenTypeV::Eof), j),
        Some(c) => if char_alphabetic(c) || c == '_' {
            let e = ident_end(s, j + 1);
            (Ok(fz_keyword(s.subrange(j, e))), e)
        } else if is_digit(c) {
            read_number_spec(s, j)
        } else if c == '-' && j + 1 < s.len() && is_digit(s[j + 1]) {
            read_number_spec(s, j)
        } else if c == '"' {
            let (r, e) = string_scan(s, j, j + 1, Seq::empty());
            match r {
                Ok(t) => (Ok(TokenTypeV::StringLiteral(t)), e),
                Err(x) => (Err(x), e),
            }
        } else if c == ':' {
            if char_at(s, j + 1) == Some(':') {
                (Ok(TokenTypeV::DoubleColon), j + 2)
            } else {
                (Ok(TokenTypeV::Colon), j + 1)
            }
        } else if c == '.' {
            if char_at(s, j + 1) == Some('.') {
                (Ok(TokenTypeV::DoubleDot), j + 2)
            } else {
                (Ok(TokenTypeV::Dot), j + 1)
            }
        } else {
            match punct(c) {
                Some(t) => (Ok(t), j + 1),
                None => (Err(lex_error("Unexpected character: '"@ + seq![c] + "'"@, loc_at(s, j))), j),
            }
        },
    }
}

/// One call of `next_token` from offset `pos`: the token (located where it
/// starts) or the error, and the offset after.
pub open spec fn fz_next_spec(s: Seq<char>, pos: int) -> (core::result::Result<FzTokenV, LexErrorV>, int) {
    match fz_trivia(s, pos) {
        Err(k) => (Err(lex_error("Unterminated block comment"@, loc_at(s, k))), s.len() as int),
        Ok(j) => {
            let (r, e) = fz_lex_at(s, j);
            (
                match r {
                    Ok(t) => Ok(FzTokenV { token_type: t, location: loc_at(s, j) }),
                    Err(x) => Err(x),
                },
                e,
            )
        },
    }
}

/// Tokens from `pos` appended to `acc`, through end-of-file, or the first
/// error.
pub open spec fn fz_tokens(s: Seq<char>, pos: int, acc: Seq<FzTokenV>) -> core::result::Result<
    Seq<FzTokenV>,
    LexErrorV,
>
    decreases s.len() - pos,
{
    let (r, e) = fz_next_spec(s, pos);
    match r {
        Err(x) => Err(x),
        Ok(t) => if t.token_type is Eof {
            Ok(acc.push(t))
        } else if pos < e <= s.len() {
            fz_tokens(s, e, acc.push(t))
        } else {
            Ok(acc.push(t))
        },
    }
}

/// All tokens of a source text, the last one end-of-file, or the first
/// error.
pub open spec fn tokenize_spec(s: Seq<char>) -> core::result::Result<Seq<FzTokenV>, LexErrorV> {
    fz_tokens(s, 0, Seq::empty())
}

// ---------------------------------------------------------------------------
// Facts about the specification.

proof fn lemma_ws_end(s: Seq<char>, i: int)
    requires
        0 <= i <= s.len(),
    ensures
        i <= ws_end(s, i) <= s.len(),
    decreases s.len() - i,
{
    if i < s.len() && char_whitespace(s[i]) {
        lemma_ws_end(s, i + 1);
    }
}

proof fn lemma_line_comment_end(s: Seq<char>, i: int)
    requires
        0 <= i <= s.len(),
    ensures
        i <= line_comment_end(s, i) <= s.len(),
        i < s.len() ==> i < line_comment_end(s, i),
    decreases s.len() - i,
{
    if i < s.len() && s[i] != '\n' {
        lemma_line_comment_end(s, i + 1);
    }
}

proof fn lemma_block_comment_end(s: Seq<char>, i: int)
    requires
        0 <= i,
    ensures
        block_comment_end(s, i) matches Some(k) ==> i + 2 <= k <= s.len(),
    decreases s.len() - i,
{
    if 0 <= i < s.len() && !(s[i] == '*' && i + 1 < s.len() && s[i + 1] == '/') {
        lemma_block_comment_end(s, i + 1);
    }
}

proof fn lemma_num_scan(s: Seq<char>, p: int, f: bool)
    requires
        0 <= p <= s.len(),
    ensures
        p <= num_scan(s, p, f).0 <= s.len(),
        f ==> num_scan(s, p, f).1,
        !num_scan(s, p, f).1 ==> all_digits(s.subrange(p, num_scan(s, p, f).0)),
    decreases s.len() - p,
{
    if 0 <= p < s.len() {
        let c = s[p];
        if is_digit(c) {
            lemma_num_scan(s, p + 1, f);
            let e = num_scan(s, p, f).0;
            if !num_scan(s, p, f).1 {
                assert forall|j: int| 0 <= j < e - p implies #[trigger] is_digit(s.subrange(p, e)[j]) by {
                    if j > 0 {
                        assert(s.subrange(p, e)[j] == s.subrange(p + 1, e)[j - 1]);
                    }
                }
            }
        } else if c == '.' && !f && p + 1 < s.len() && is_digit(s[p + 1]) {
            lemma_num_scan(s, p + 1, true);
        } else if c == 'e' || c == 'E' {
            let q = if p + 1 < s.len() && (s[p + 1] == '+' || s[p + 1] == '-') { p + 2 } else { p + 1 };
            lemma_num_scan(s, q, true);
        } else {
            assert(s.subrange(p, p) =~= Seq::<char>::empty());
        }
    } else {
        assert(s.subrange(p, p) =~= Seq::<char>::empty());
    }
}

proof fn lemma_string_scan(s: Seq<char>, i0: int, j: int, acc: Seq<char>)
    requires
        0 <= j <= s.len(),
    ensures
        j <= string_scan(s, i0, j, acc).1 <= s.len(),
        string_scan(s, i0, j, acc).0 is Ok ==> j < string_scan(s, i0, j, acc).1,
    decreases s.len() - j,
{
    if j < s.len() && s[j] != '\n' && s[j] != '"' {
        if s[j] == '\\' {
            let c = char_at(s, j + 1);
            if c == Some('n') {
                lemma_string_scan(s, i0, j + 2, acc.push('\n'));
            } else if c == Some('t') {
                lemma_string_scan(s, i0, j + 2, acc.push('\t'));
            } else if c == Some('\\') {
                lemma_string_scan(s, i0, j + 2, acc.push('\\'));
            } else if c == Some('"') {
                lemma_string_scan(s, i0, j + 2, acc.push('"'));
            }
        } else {
            lemma_string_scan(s, i0, j + 1, acc.push(s[j]));
        }
    }
}

proof fn lemma_trivia(s: Seq<char>, i: int)
    requires
        0 <= i <= s.len(),
    ensures
        fz_trivia(s, i) matches Ok(j) ==> i <= j <= s.len() && (j < s.len() ==> !char_whitespace(s[j])),
        fz_trivia(s, i) matches Err(j) ==> i <= j < s.len(),
    decreases s.len() - i,
{
    lemma_ws_end(s, i);
    lemma_ws_end_stops(s, i);
    let j = ws_end(s, i);
    if char_at(s, j) == Some('%') {
        lemma_line_comment_end(s, j);
        lemma_trivia(s, line_comment_end(s, j));
    } else if char_at(s, j) == Some('/') && char_at(s, j + 1) == Some('*') {
        lemma_block_comment_end(s, j + 2);
        match block_comment_end(s, j + 2) {
            Some(k) => lemma_trivia(s, k),
            None => {},
        }
    }
}

proof fn lemma_ws_end_stops(s: Seq<char>, i: int)
    requires
        0 <= i <= s.len(),
    ensures
        ws_end(s, i) < s.len() ==> !char_whitespace(s[ws_end(s, i)]),
    decreases s.len() - i,
{
    if i < s.len() && char_whitespace(s[i]) {
        lemma_ws_end_stops(s, i + 1);
    }
}

/// Reading a token never moves backwards nor past the end; a token other
/// than end-of-file consumes input.
pub proof fn lemma_fz_next_progress(s: Seq<char>, pos: int)
    requires
        0 <= pos <= s.len(),
    ensures
        pos <= fz_next_spec(s, pos).1 <= s.len(),
        fz_next_spec(s, pos).0 matches Ok(t) ==> (t.token_type is Eof ==> fz_next_spec(s, pos).1 == s.len()),
        fz_next_spec(s, pos).0 matches Ok(t) ==> (!(t.token_type is Eof) ==> pos < fz_next_spec(s, pos).1),
{
    lemma_trivia(s, pos);
    match fz_trivia(s, pos) {
        Err(_) => {},
        Ok(j) => {
            if j < s.len() {
                let c = s[j];
                if char_alphabetic(c) || c == '_' {
                    lemma_ident_end(s, j + 1);
                } else if is_digit(c) || (c == '-' && j + 1 < s.len() && is_digit(s[j + 1])) {
                    let p = if c == '-' { j + 1 } else { j };
                    lemma_num_scan(s, p, false);
                    if c != '-' {
                        lemma_num_scan_digit(s, p);
                    }
                } else if c == '"' {
                    lemma_string_scan(s, j, j + 1, Seq::empty());
                }
            }
        },
    }
}

/// A successful tokenization ends with the end-of-file token, and it is
/// the only end-of-file token: the tokens read from `pos` follow `acc`.
pub proof fn lemma_tokens_end_with_eof(s: Seq<char>, pos: int, acc: Seq<FzTokenV>)
    requires
        0 <= pos <= s.len(),
    ensures
        fz_tokens(s, pos, acc) matches Ok(ts) ==> {
            &&& ts.len() > acc.len()
            &&& ts.subrange(0, acc.len() as int) == acc
            &&& ts.last().token_type is Eof
            &&& forall|i: int| acc.len() <= i < ts.len() - 1 ==> !(#[trigger] ts[i].token_type is Eof)
        },
    decreases s.len() - pos,
{
    lemma_fz_next_progress(s, pos);
    let (r, e) = fz_next_spec(s, pos);
    match r {
        Err(_) => {},
        Ok(t) => {
            if t.token_type is Eof {
                assert(acc.push(t).subrange(0, acc.len() as int) =~= acc);
            } else {
                lemma_tokens_end_with_eof(s, e, acc.push(t));
                match fz_tokens(s, e, acc.push(t)) {
                    Ok(ts) => {
                        assert(ts.subrange(0, acc.len() as int) =~= ts.subrange(0, acc.len() + 1 as int).subrange(0, acc.len() as int));
                        assert(ts[acc.len() as int] == acc.push(t)[acc.len() as int]);
                    },
                    Err(_) => {},
                }
            }
        },
    }
}

/// Tokenizing a whole text succeeds only with end-of-file as the last
/// token and nowhere else.
pub proof fn lemma_tokenize_ends_with_eof(s: Seq<char>)
    ensures
        tokenize_spec(s) matches Ok(ts) ==> ts.len() > 0 && ts.last().token_type is Eof && forall|i: int|
            0 <= i < ts.len() - 1 ==> !(#[trigger] ts[i].token_type is Eof),
{
    lemma_tokens_end_with_eof(s, 0, Seq::empty());
}

proof fn lemma_num_scan_digit(s: Seq<char>, p: int)
    requires
        0 <= p < s.len(),
        is_digit(s[p]),
    ensures
        p < num_scan(s, p, false).0,
{
    lemma_num_scan(s, p + 1, false);
}

// ---------------------------------------------------------------------------
// The tokenizer.

/// An offset and the line and column there.
#[derive(Clone, Copy)]
struct FzCursor {
    position: usize,
    line: usize,
    column: usize,
}

/// Tokenizer state: the input, the offset, and the line and column there.
pub struct Tokenizer {
    input: Vec<char>,
    at: FzCursor,
}

impl Tokenizer {
    /// The input characters.
    pub closed spec fn text(&self) -> Seq<char> {
        self.input@
    }

    /// The current offset.
    pub closed spec fn pos(&self) -> int {
        self.at.position as int
    }

    /// The offset is within the input and the line and column are those of
    /// the offset. Every tokenizer keeps this.
    #[verifier::type_invariant]
    pub closed spec fn wf(&self) -> bool {
        &&& self.at.position <= self.input.len()
        &&& self.input.len() <= isize::MAX
        &&& (self.at.line as nat, self.at.column as nat) == line_col(self.input@, self.at.position as nat)
    }

    pub fn new(input: &str) -> (t: Self)
        ensures
            t.wf(),
            t.text() == input@,
            t.pos() == 0,
    {
        Tokenizer { input: chars_of(input), at: FzCursor { position: 0, line: 1, column: 1 } }
    }

    fn current_location(&self) -> (l: Location)
        requires
            self.wf(),
        ensures
            l == loc_at(self.text(), self.pos()),
    {
        Location::new(self.at.line, self.at.column)
    }

    fn peek(&self) -> (c: Option<char>)
        ensures
            c == char_at(self.text(), self.pos()),
    {
        if self.at.position < self.input.len() {
            Some(self.input[self.at.position])
        } else {
            None
        }
    }

    fn peek_ahead(&self, offset: usize) -> (c: Option<char>)
        requires
            self.at.position + offset <= usize::MAX,
        ensures
            c == char_at(self.text(), self.pos() + offset),
    {
        if self.at.position + offset < self.input.len() {
            Some(self.input[self.at.position + offset])
        } else {
            None
        }
    }

    fn advance(&mut self) -> (c: Option<char>)
        requires
            old(self).wf(),
        ensures
            final(self).wf(),
            final(self).text() == old(self).text(),
            c == char_at(old(self).text(), old(self).pos()),
            final(self).pos() == (if old(self).pos() < old(self).text().len() {
                old(self).pos() + 1
            } else {
                old(self).pos()
            }),
    {
        if self.at.position < self.input.len() {
            let ch = self.input[self.at.position];
            proof {
                lemma_line_col_bound(self.input@, self.at.position as nat);
            }
            let next = if ch == '\n' {
                FzCursor { position: self.at.position + 1, line: self.at.line + 1, column: 1 }
            } else {
                FzCursor { position: self.at.position + 1, line: self.at.line, column: self.at.column + 1 }
            };
            self.at = next;
            Some(ch)
        } else {
            None
        }
    }

    fn skip_whitespace(&mut self)
        requires
            old(self).wf(),
        ensures
            final(self).wf(),
            final(self).text() == old(self).text(),
            final(self).pos() == ws_end(old(self).text(), old(self).pos()),
    {
        while self.at.position < self.input.len() && is_whitespace(self.input[self.at.position])
            invariant
                self.wf(),
                self.text() == old(self).text(),
                ws_end(self.text(), self.pos()) == ws_end(old(self).text(), old(self).pos()),
            decreases self.text().len() - self.pos(),
        {
            self.advance();
        }
    }

    fn skip_line_comment(&mut self)
        requires
            old(self).wf(),
        ensures
            final(self).wf(),
            final(self).text() == old(self).text(),
            final(self).pos() == line_comment_end(old(self).text(), old(self).pos()),
    {
        let ghost target = line_comment_end(old(self).text(), old(self).pos());
        let mut done = false;
        while !done && self.at.position < self.input.len()
            invariant
                self.wf(),
                self.text() == old(self).text(),
                target == line_comment_end(old(self).text(), old(self).pos()),
                !done ==> line_comment_end(self.text(), self.pos()) == target,
                done ==> self.pos() == target,
            decreases self.text().len() - self.pos(),
        {
            let ch = self.input[self.at.position];
            self.advance();
            if ch == '\n' {
                done = true;
            }
        }
    }

    /// Skips `/* ... */` (the current characters are `/*`).
    fn skip_block_comment(&mut self) -> (r: FlatZincResult<()>)
        requires
            old(self).wf(),
            old(self).pos() + 1 < old(self).text().len(),
        ensures
            final(self).wf(),
            final(self).text() == old(self).text(),
            match r {
                Ok(()) => block_comment_end(old(self).text(), old(self).pos() + 2) == Some(final(self).pos()),
                Err(e) => block_comment_end(old(self).text(), old(self).pos() + 2) is None && e@ == lex_error(
                    "Unterminated block comment"@,
                    loc_at(old(self).text(), old(self).pos()),
                ) && final(self).pos() == old(self).text().len(),
            },
    {
        let ghost target = block_comment_end(old(self).text(), old(self).pos() + 2);
        let start_loc = self.current_location();
        self.advance();
        self.advance();
        let mut done = false;
        while !done
            invariant
                self.wf(),
                self.text() == old(self).text(),
                start_loc == loc_at(old(self).text(), old(self).pos()),
                target == block_comment_end(old(self).text(), old(self).pos() + 2),
                !done ==> block_comment_end(self.text(), self.pos()) == target,
                done ==> target == Some(self.pos()),
            decreases self.text().len() - self.pos(), if done { 0nat } else { 1nat },
        {
            if self.at.position >= self.input.len() {
                assert(block_comment_end(self.text(), self.pos()) is None);
                return Err(
                    FlatZincError::LexError {
                        message: String::from_str("Unterminated block comment"),
                        line: start_loc.line,
                        column: start_loc.column,
                    },
                );
            }
            let c = self.input[self.at.position];
            if c == '*' && self.peek_ahead(1) == Some('/') {
                self.advance();
                self.advance();
                done = true;
            } else {
                self.advance();
            }
        }
        Ok(())
    }

    /// Reads an identifier (the current character is a letter or `_`).
    fn read_identifier(&mut self) -> (r: String)
        requires
            old(self).wf(),
            old(self).pos() < old(self).text().len(),
            char_alphabetic(old(self).text()[old(self).pos()]) || old(self).text()[old(self).pos()] == '_',
        ensures
            final(self).wf(),
            final(self).text() == old(self).text(),
            final(self).pos() == ident_end(old(self).text(), old(self).pos() + 1),
            r@ == old(self).text().subrange(old(self).pos(), final(self).pos()),
    {
        let ghost s = self.text();
        let ghost p0 = self.pos();
        let mut result: Vec<char> = Vec::new();
        let first = self.input[self.at.position];
        let ok = is_alphanumeric(first) || first == '_';
        assert(ok);
        result.push(first);
        self.advance();
        proof {
            lemma_ident_end(s, p0 + 1);
            assert(result@ =~= s.subrange(p0, self.pos()));
        }
        while self.at.position < self.input.len() && (is_alphanumeric(self.input[self.at.position]) || self.input[self.at.position] == '_')
            invariant
                self.wf(),
                self.text() == s,
                0 <= p0 < self.pos(),
                ident_end(s, self.pos()) == ident_end(s, p0 + 1),
                result@ == s.subrange(p0, self.pos()),
            decreases s.len() - self.pos(),
        {
            let ghost q = self.pos();
            let c = self.input[self.at.position];
            result.push(c);
            self.advance();
            assert(s.subrange(p0, q + 1) =~= s.subrange(p0, q).push(c));
        }
        string_from_chars(&result)
    }
}

/// A result seen through `f`, the error through its view.
pub open spec fn lift_fz<T, V>(r: FlatZincResult<T>, f: spec_fn(T) -> V) -> core::result::Result<V, LexErrorV> {
    match r {
        Ok(x) => Ok(f(x)),
        Err(e) => Err(e@),
    }
}

/// End of the digits of `v` from `i`.
fn digits_end_exec(v: &Vec<char>, i: usize) -> (r: usize)
    requires
        i <= v.len(),
    ensures
        r == digits_end(v@, i as int),
        i <= r <= v.len(),
{
    proof {
        lemma_digits_end(v@, i as int);
    }
    let mut k = i;
    while k < v.len() && is_ascii_digit(v[k])
        invariant
            i <= k <= v.len(),
            digits_end(v@, k as int) == digits_end(v@, i as int),
        decreases v.len() - k,
    {
        k = k + 1;
    }
    k
}

/// Whether `f64` parsing accepts the text of a number.
fn float_syntax_valid(v: &Vec<char>) -> (b: bool)
    ensures
        b == float_syntax_ok(v@),
{
    let n = v.len();
    let a: usize = if n > 0 && v[0] == '-' { 1 } else { 0 };
    let d1 = digits_end_exec(v, a);
    if d1 <= a {
        return false;
    }
    let p = if d1 < n && v[d1] == '.' { digits_end_exec(v, d1 + 1) } else { d1 };
    if !(p == d1 || p > d1 + 1) {
        return false;
    }
    if p == n {
        return true;
    }
    if !(v[p] == 'e' || v[p] == 'E') {
        return false;
    }
    let q = if p + 1 < n && (v[p + 1] == '+' || v[p + 1] == '-') { p + 2 } else { p + 1 };
    let r = digits_end_exec(v, q);
    r > q && r == n
}

/// Keyword for a word, or an identifier.
fn fz_keyword_of(w: String) -> (t: TokenType)
    ensures
        t@ == fz_keyword(w@),
{
    let x = w.as_str();
    if str_eq(x, "predicate") { TokenType::Predicate }
    else if str_eq(x, "var") { TokenType::Var }
    else if str_eq(x, "array") { TokenType::Array }
    else if str_eq(x, "of") { TokenType::Of }
    else if str_eq(x, "constraint") { TokenType::Constraint }
    else if str_eq(x, "solve") { TokenType::Solve }
    else if str_eq(x, "satisfy") { TokenType::Satisfy }
    else if str_eq(x, "minimize") { TokenType::Minimize }
    else if str_eq(x, "maximize") { TokenType::Maximize }
    else if str_eq(x, "int") { TokenType::Int }
    else if str_eq(x, "bool") { TokenType::Bool }
    else if str_eq(x, "float") { TokenType::Float }
    else if str_eq(x, "set") { TokenType::SetKw }
    else if str_eq(x, "true") { TokenType::True }
    else if str_eq(x, "false") { TokenType::False }
    else { TokenType::Identifier(w) }
}

fn lex_err(message: String, loc: Location) -> (e: FlatZincError)
    ensures
        e@ == lex_error(message@, loc),
{
    FlatZincError::LexError { message, line: loc.line, column: loc.column }
}

impl Tokenizer {
    /// Reads a number (a digit, or `-` and a digit, is current).
    #[verifier::spinoff_prover]
    fn read_number(&mut self) -> (r: FlatZincResult<TokenType>)
        requires
            old(self).wf(),
            old(self).pos() < old(self).text().len(),
            is_digit(old(self).text()[old(self).pos()]) || (old(self).text()[old(self).pos()] == '-'
                && old(self).pos() + 1 < old(self).text().len() && is_digit(old(self).text()[old(self).pos() + 1])),
        ensures
            final(self).wf(),
            final(self).text() == old(self).text(),
            (lift_fz(r, |t: TokenType| t@), final(self).pos()) == read_number_spec(old(self).text(), old(self).pos()),
    {
        let ghost s = self.text();
        let ghost i0 = self.pos();
        let start_loc = self.current_location();
        let start = self.at.position;
        let mut num_str: Vec<char> = Vec::new();
        let mut is_float = false;
        if self.input[self.at.position] == '-' {
            num_str.push('-');
            self.advance();
        }
        let p = self.at.position;
        proof {
            lemma_num_scan(s, p as int, false);
            assert(num_str@ =~= s.subrange(i0, p as int));
        }
        let mut done = false;
        while !done
            invariant
                self.wf(),
                self.text() == s,
                0 <= i0 <= p <= self.pos() <= s.len(),
                num_str@ == s.subrange(i0, self.pos()),
                !done ==> num_scan(s, self.pos(), is_float) == num_scan(s, p as int, false),
                done ==> (self.pos(), is_float) == num_scan(s, p as int, false),
            decreases s.len() - self.pos(), if done { 0nat } else { 1nat },
        {
            if self.at.position >= self.input.len() {
                done = true;
            } else {
                let ghost q = self.pos();
                let ch = self.input[self.at.position];
                if is_ascii_digit(ch) {
                    num_str.push(ch);
                    self.advance();
                    assert(num_str@ =~= s.subrange(i0, self.pos()));
                } else if ch == '.' && !is_float && self.at.position + 1 < self.input.len() && is_ascii_digit(
                    self.input[self.at.position + 1],
                ) {
                    is_float = true;
                    num_str.push(ch);
                    self.advance();
                    assert(num_str@ =~= s.subrange(i0, self.pos()));
                } else if ch == 'e' || ch == 'E' {
                    is_float = true;
                    num_str.push(ch);
                    self.advance();
                    assert(num_str@ =~= s.subrange(i0, self.pos()));
                    if self.at.position < self.input.len() && (self.input[self.at.position] == '+'
                        || self.input[self.at.position] == '-') {
                        let c = self.advance();
                        num_str.push(c.unwrap());
                        assert(num_str@ =~= s.subrange(i0, self.pos()));
                    }
                } else {
                    done = true;
                }
            }
        }
        let end = self.at.position;
        proof {
            lemma_num_scan(s, p as int, false);
        }
        if is_float {
            if float_syntax_valid(&num_str) {
                Ok(TokenType::FloatLiteral(string_from_chars(&num_str)))
            } else {
                let mut msg: Vec<char> = Vec::new();
                push_str(&mut msg, "Invalid float literal: ");
                push_chars(&mut msg, &num_str);
                Err(lex_err(string_from_chars(&msg), start_loc))
            }
        } else {
            let v = digits_u64(&self.input, p, end);
            let ok = match v {
                Some(x) => if p == start {
                    x <= 9223372036854775807u64
                } else {
                    x <= 9223372036854775808u64
                },
                None => false,
            };
            if ok {
                let x = v.unwrap();
                if p == start {
                    Ok(TokenType::IntLiteral(x as i64))
                } else if x == 9223372036854775808u64 {
                    Ok(TokenType::IntLiteral(i64::MIN))
                } else {
                    Ok(TokenType::IntLiteral(-(x as i64)))
                }
            } else {
                let mut msg: Vec<char> = Vec::new();
                push_str(&mut msg, "Invalid integer literal: ");
                push_chars(&mut msg, &num_str);
                Err(lex_err(string_from_chars(&msg), start_loc))
            }
        }
    }
}

impl Tokenizer {
    /// Reads a string literal (the current character is `"`).
    fn read_string(&mut self) -> (r: FlatZincResult<String>)
        requires
            old(self).wf(),
            old(self).pos() < old(self).text().len(),
            old(self).text()[old(self).pos()] == '"',
        ensures
            final(self).wf(),
            final(self).text() == old(self).text(),
            (lift_fz(r, |t: String| t@), final(self).pos()) == string_scan(
                old(self).text(),
                old(self).pos(),
                old(self).pos() + 1,
                Seq::empty(),
            ),
    {
        let ghost s = self.text();
        let ghost i0 = self.pos();
        let start_loc = self.current_location();
        self.advance();
        let mut result: Vec<char> = Vec::new();
        loop
            invariant
                self.wf(),
                self.text() == s,
                s == old(self).text(),
                i0 == old(self).pos(),
                0 <= i0 < self.pos() <= s.len(),
                start_loc == loc_at(s, i0),
                string_scan(s, i0, self.pos(), result@) == string_scan(s, i0, i0 + 1, Seq::empty()),
            decreases s.len() - self.pos(),
        {
            match self.peek() {
                None => {
                    return Err(lex_err(String::from_str("Unterminated string literal"), start_loc));
                },
                Some(c) => {
                    if c == '\n' {
                        return Err(lex_err(String::from_str("Unterminated string literal"), start_loc));
                    } else if c == '"' {
                        self.advance();
                        return Ok(string_from_chars(&result));
                    } else if c == '\\' {
                        self.advance();
                        let e = match self.peek() {
                            Some('n') => Some('\n'),
                            Some('t') => Some('\t'),
                            Some('\\') => Some('\\'),
                            Some('"') => Some('"'),
                            _ => None,
                        };
                        match e {
                            Some(x) => {
                                result.push(x);
                                self.advance();
                            },
                            None => {
                                let loc = self.current_location();
                                return Err(lex_err(String::from_str("Invalid escape sequence"), loc));
                            },
                        }
                    } else {
                        result.push(c);
                        self.advance();
                    }
                },
            }
        }
    }

    /// Reads the next token. The result and the offset left are those of
    /// `fz_next_spec`.
    pub fn next_token(&mut self) -> (r: FlatZincResult<Token>)
        ensures
            final(self).wf(),
            final(self).text() == old(self).text(),
            (lift_fz(r, |t: Token| t@), final(self).pos()) == fz_next_spec(old(self).text(), old(self).pos()),
    {
        proof {
            use_type_invariant(&*self);
        }
        let ghost s = self.text();
        let ghost p0 = self.pos();
        self.skip_whitespace();
        let ghost mut i: int = p0;
        proof {
            lemma_ws_end(s, p0);
        }
        while self.peek() == Some('%') || (self.peek() == Some('/') && self.peek_ahead(1) == Some('*'))
            invariant
                self.wf(),
                self.text() == s,
                s == old(self).text(),
                p0 == old(self).pos(),
                0 <= p0 <= i <= self.pos() <= s.len(),
                self.pos() == ws_end(s, i),
                fz_trivia(s, i) == fz_trivia(s, p0),
            decreases s.len() - self.pos(),
        {
            let ghost j = self.pos();
            if self.peek() == Some('%') {
                proof {
                    lemma_line_comment_end(s, j);
                }
                self.skip_line_comment();
            } else {
                proof {
                    lemma_block_comment_end(s, j + 2);
                }
                match self.skip_block_comment() {
                    Ok(()) => {},
                    Err(e) => {
                        return Err(e);
                    },
                }
            }
            proof {
                i = self.pos();
                lemma_ws_end(s, i);
            }
            self.skip_whitespace();
        }
        let loc = self.current_location();
        let ghost j = self.pos();
        assert(fz_trivia(s, p0) == Ok::<int, int>(j));
        let c = match self.peek() {
            None => {
                return Ok(Token::new(TokenType::Eof, loc));
            },
            Some(c) => c,
        };
        if is_alphabetic(c) || c == '_' {
            let ident = self.read_identifier();
            return Ok(Token::new(fz_keyword_of(ident), loc));
        }
        if is_ascii_digit(c) || (c == '-' && self.at.position + 1 < self.input.len() && is_ascii_digit(
            self.input[self.at.position + 1],
        )) {
            return match self.read_number() {
                Ok(t) => Ok(Token::new(t, loc)),
                Err(e) => Err(e),
            };
        }
        if c == '"' {
            return match self.read_string() {
                Ok(t) => Ok(Token::new(TokenType::StringLiteral(t), loc)),
                Err(e) => Err(e),
            };
        }
        if c == ':' {
            self.advance();
            if self.peek() == Some(':') {
                self.advance();
                return Ok(Token::new(TokenType::DoubleColon, loc));
            }
            return Ok(Token::new(TokenType::Colon, loc));
        }
        if c == '.' {
            self.advance();
            if self.peek() == Some('.') {
                self.advance();
                return Ok(Token::new(TokenType::DoubleDot, loc));
            }
            return Ok(Token::new(TokenType::Dot, loc));
        }
        let p = if c == ';' {
            Some(TokenType::Semicolon)
        } else if c == ',' {
            Some(TokenType::Comma)
        } else if c == '(' {
            Some(TokenType::LeftParen)
        } else if c == ')' {
            Some(TokenType::RightParen)
        } else if c == '[' {
            Some(TokenType::LeftBracket)
        } else if c == ']' {
            Some(TokenType::RightBracket)
        } else if c == '{' {
            Some(TokenType::LeftBrace)
        } else if c == '}' {
            Some(TokenType::RightBrace)
        } else if c == '=' {
            Some(TokenType::Equals)
        } else {
            None
        };
        match p {
            Some(t) => {
                self.advance();
                Ok(Token::new(t, loc))
            },
            None => {
                let mut msg: Vec<char> = Vec::new();
                push_str(&mut msg, "Unexpected character: '");
                msg.push(c);
                push_str(&mut msg, "'");
                assert(msg@ =~= "Unexpected character: '"@ + seq![c] + "'"@);
                Err(lex_err(string_from_chars(&msg), loc))
            },
        }
    }
}

pub open spec fn view_tokens(v: Seq<Token>) -> Seq<FzTokenV> {
    Seq::new(v.len(), |i: int| v[i]@)
}

/// Tokens of a FlatZinc text through end-of-file, or the first error: the
/// result is `tokenize_spec` of the text.
pub fn tokenize(input: &str) -> (r: FlatZincResult<Vec<Token>>)
    ensures
        lift_fz(r, |v: Vec<Token>| view_tokens(v@)) == tokenize_spec(input@),
{
    let mut tokenizer = Tokenizer::new(input);
    let ghost s = input@;
    let mut tokens: Vec<Token> = Vec::new();
    assert(view_tokens(tokens@) =~= Seq::<FzTokenV>::empty());
    loop
        invariant
            tokenizer.wf(),
            tokenizer.text() == s,
            s == input@,
            fz_tokens(s, tokenizer.pos(), view_tokens(tokens@)) == tokenize_spec(s),
        decreases s.len() - tokenizer.pos(),
    {
        let ghost p = tokenizer.pos();
        proof {
            lemma_fz_next_progress(s, p);
        }
        let token = match tokenizer.next_token() {
            Ok(t) => t,
            Err(e) => {
                return Err(e);
            },
        };
        let is_eof = match token.token_type {
            TokenType::Eof => true,
            _ => false,
        };
        let ghost before = tokens@;
        tokens.push(token);
        assert(view_tokens(tokens@) =~= view_tokens(before).push(token@));
        if is_eof {
            return Ok(tokens);
        }
    }
}

} // verus!
