//! The meaning of tokenization: which token starts at an offset of a source
//! text, and where the next one begins.
use vstd::prelude::*;
use crate::text::{column_at, in_word, is_digit, is_space, is_upper, line_at, starts_word};
use crate::token::{is_end, pair_token, single_token, word_token, Lexed, TextKind, Token};

verus! {

/// The first offset at or after `p` that does not hold whitespace.
pub open spec fn skip_spaces(s: Seq<char>, p: int) -> int
    decreases s.len() - p,
{
    if 0 <= p < s.len() && is_space(s[p]) {
        skip_spaces(s, p + 1)
    } else {
        p
    }
}

/// The end of the run of word characters that starts at `p`.
pub open spec fn word_end(s: Seq<char>, p: int) -> int
    decreases s.len() - p,
{
    if 0 <= p < s.len() && in_word(s[p]) {
        word_end(s, p + 1)
    } else {
        p
    }
}

/// The end of the run of digits that starts at `p`.
pub open spec fn digits_end(s: Seq<char>, p: int) -> int
    decreases s.len() - p,
{
    if 0 <= p < s.len() && is_digit(s[p]) {
        digits_end(s, p + 1)
    } else {
        p
    }
}

/// The value of a decimal numeral.
pub open spec fn decimal_value(d: Seq<char>) -> int
    decreases d.len(),
{
    if d.len() == 0 {
        0
    } else {
        decimal_value(d.drop_last()) * 10 + (d.last() as int - '0' as int)
    }
}

/// The escapes of a string literal: `\n`, `\t`, `\\` and `\"`.
pub open spec fn escaped(c: char) -> Option<char> {
    if c == 'n' {
        Some('\n')
    } else if c == 't' {
        Some('\t')
    } else if c == '\\' {
        Some('\\')
    } else if c == '"' {
        Some('"')
    } else {
        None
    }
}

/// The escapes of a character literal: those of a string literal and `\'`.
pub open spec fn char_escaped(c: char) -> Option<char> {
    if c == '\'' {
        Some('\'')
    } else {
        escaped(c)
    }
}

/// The outcome of reading the body of a string literal.
pub enum Quoted {
    /// The decoded characters, and the offset just past the closing quote.
    Closed(Seq<char>, int),
    /// The input ended first.
    Unterminated,
    /// A backslash was followed by a character that is no escape.
    BadEscape,
}

pub open spec fn prefixed(a: Seq<char>, r: Quoted) -> Quoted {
    match r {
        Quoted::Closed(d, e) => Quoted::Closed(a + d, e),
        _ => r,
    }
}

/// Reads the body of a string literal from offset `i` (past the opening quote).
pub open spec fn quoted(s: Seq<char>, i: int) -> Quoted
    decreases s.len() - i,
{
    if i < 0 || i >= s.len() {
        Quoted::Unterminated
    } else if s[i] == '"' {
        Quoted::Closed(Seq::empty(), i + 1)
    } else if s[i] == '\\' {
        if i + 1 >= s.len() {
            Quoted::Unterminated
        } else {
            match escaped(s[i + 1]) {
                Some(c) => prefixed(seq![c], quoted(s, i + 2)),
                None => Quoted::BadEscape,
            }
        }
    } else {
        prefixed(seq![s[i]], quoted(s, i + 1))
    }
}

/// The token of a word that starts at `q`, at `line` and `column`, and its end.
pub open spec fn lex_word(s: Seq<char>, q: int, line: i64, column: i64) -> (Lexed, int) {
    let e = word_end(s, q);
    let w = s.subrange(q, e);
    match word_token(w, line, column) {
        Some(t) => (Lexed::Plain(t), e),
        None => if is_upper(s[q]) {
            (Lexed::Text(TextKind::Type, line, column, w), e)
        } else if e < s.len() && s[e] == '(' {
            (Lexed::Text(TextKind::Function, line, column, w), e)
        } else {
            (Lexed::Text(TextKind::Variable, line, column, w), e)
        },
    }
}

/// The token of a number that starts at `q`, and its end. A number whose
/// value does not fit in an `i64` is `Unknown`.
pub open spec fn lex_number(s: Seq<char>, q: int, line: i64, column: i64) -> (Lexed, int) {
    let e = digits_end(s, q);
    if e + 1 < s.len() && s[e] == '.' && is_digit(s[e + 1]) {
        let f = digits_end(s, e + 1);
        let m = decimal_value(s.subrange(q, e) + s.subrange(e + 1, f));
        if m <= i64::MAX {
            (Lexed::Plain(Token::FloatLiteral(line, column, m as i64, (f - e - 1) as i64)), f)
        } else {
            (Lexed::Plain(Token::Unknown(line, column)), f)
        }
    } else {
        let v = decimal_value(s.subrange(q, e));
        if v <= i64::MAX {
            (Lexed::Plain(Token::IntLiteral(line, column, v as i64)), e)
        } else {
            (Lexed::Plain(Token::Unknown(line, column)), e)
        }
    }
}

/// The token of a string literal that opens at `q`, and its end. An
/// unterminated literal is `Unknown` and takes the rest of the input; one with
/// a bad escape is `Unknown` and takes the opening quote only.
pub open spec fn lex_string(s: Seq<char>, q: int, line: i64, column: i64) -> (Lexed, int) {
    match quoted(s, q + 1) {
        Quoted::Closed(d, e) => (Lexed::Text(TextKind::Str, line, column, d), e),
        Quoted::Unterminated => (Lexed::Plain(Token::Unknown(line, column)), s.len() as int),
        Quoted::BadEscape => (Lexed::Plain(Token::Unknown(line, column)), q + 1),
    }
}

/// The token of a character literal that opens at `q`, and its end. Any
/// other shape is `Unknown` and takes the opening quote only.
pub open spec fn lex_char(s: Seq<char>, q: int, line: i64, column: i64) -> (Lexed, int) {
    if q + 1 < s.len() && s[q + 1] == '\\' {
        if q + 3 < s.len() && char_escaped(s[q + 2]) is Some && s[q + 3] == '\'' {
            (Lexed::Plain(Token::CharLiteral(line, column, char_escaped(s[q + 2])->0)), q + 4)
        } else {
            (Lexed::Plain(Token::Unknown(line, column)), q + 1)
        }
    } else if q + 2 < s.len() && s[q + 1] != '\'' && s[q + 2] == '\'' {
        (Lexed::Plain(Token::CharLiteral(line, column, s[q + 1])), q + 3)
    } else {
        (Lexed::Plain(Token::Unknown(line, column)), q + 1)
    }
}

/// The punctuation token at `q`, longest form first, and its end; `Unknown`
/// for a character that starts no token.
pub open spec fn lex_symbol(s: Seq<char>, q: int, line: i64, column: i64) -> (Lexed, int) {
    if q + 1 < s.len() && pair_token(s[q], s[q + 1], line, column) is Some {
        (Lexed::Plain(pair_token(s[q], s[q + 1], line, column)->0), q + 2)
    } else {
        match single_token(s[q], line, column) {
            Some(t) => (Lexed::Plain(t), q + 1),
            None => (Lexed::Plain(Token::Unknown(line, column)), q + 1),
        }
    }
}

/// The next token of `s` from offset `p`, and the offset where the one after
/// it begins.
pub open spec fn next_lexed(s: Seq<char>, p: int) -> (Lexed, int) {
    let q = skip_spaces(s, p);
    let line = line_at(s, q) as i64;
    let column = column_at(s, q) as i64;
    if q >= s.len() {
        (Lexed::Plain(Token::EndOfFile(line, column)), q)
    } else if starts_word(s[q]) {
        lex_word(s, q, line, column)
    } else if is_digit(s[q]) {
        lex_number(s, q, line, column)
    } else if s[q] == '"' {
        lex_string(s, q, line, column)
    } else if s[q] == '\'' {
        lex_char(s, q, line, column)
    } else {
        lex_symbol(s, q, line, column)
    }
}

/// The tokens of `s` from offset `p` on, up to and including the end marker.
pub open spec fn lex_from(s: Seq<char>, p: int) -> Seq<Lexed>
    decreases s.len() - p,
    when 0 <= p <= s.len()
    via lex_from_decreases
{
    let (x, e) = next_lexed(s, p);
    if is_end(x) {
        seq![x]
    } else {
        seq![x] + lex_from(s, e)
    }
}

#[via_fn]
proof fn lex_from_decreases(s: Seq<char>, p: int) {
    lemma_next_bounds(s, p);
}

pub proof fn lemma_skip_bounds(s: Seq<char>, p: int)
    requires
        0 <= p <= s.len(),
    ensures
        p <= skip_spaces(s, p) <= s.len(),
        skip_spaces(s, p) < s.len() ==> !is_space(s[skip_spaces(s, p)]),
    decreases s.len() - p,
{
    if p < s.len() && is_space(s[p]) {
        lemma_skip_bounds(s, p + 1);
    }
}

pub proof fn lemma_word_end_bounds(s: Seq<char>, p: int)
    requires
        0 <= p <= s.len(),
    ensures
        p <= word_end(s, p) <= s.len(),
        word_end(s, p) < s.len() ==> !in_word(s[word_end(s, p)]),
    decreases s.len() - p,
{
    if p < s.len() && in_word(s[p]) {
        lemma_word_end_bounds(s, p + 1);
    }
}

pub proof fn lemma_digits_end_bounds(s: Seq<char>, p: int)
    requires
        0 <= p <= s.len(),
    ensures
        p <= digits_end(s, p) <= s.len(),
        digits_end(s, p) < s.len() ==> !is_digit(s[digits_end(s, p)]),
    decreases s.len() - p,
{
    if p < s.len() && is_digit(s[p]) {
        lemma_digits_end_bounds(s, p + 1);
    }
}

pub proof fn lemma_quoted_bounds(s: Seq<char>, i: int)
    requires
        0 <= i,
    ensures
        quoted(s, i) matches Quoted::Closed(d, e) ==> i < e <= s.len(),
    decreases s.len() - i,
{
    if 0 <= i < s.len() && s[i] != '"' {
        if s[i] == '\\' {
            if i + 1 < s.len() {
                lemma_quoted_bounds(s, i + 2);
            }
        } else {
            lemma_quoted_bounds(s, i + 1);
        }
    }
}

/// Each token but the end marker takes at least one character; the end
/// marker stands at the end of the input.
pub proof fn lemma_next_bounds(s: Seq<char>, p: int)
    requires
        0 <= p <= s.len(),
    ensures
        p <= skip_spaces(s, p) <= next_lexed(s, p).1 <= s.len(),
        is_end(next_lexed(s, p).0) ==> next_lexed(s, p).1 == s.len(),
        !is_end(next_lexed(s, p).0) ==> p < next_lexed(s, p).1,
{
    let q = skip_spaces(s, p);
    lemma_skip_bounds(s, p);
    if q < s.len() {
        lemma_word_end_bounds(s, q);
        lemma_digits_end_bounds(s, q);
        let e = digits_end(s, q);
        if e + 1 < s.len() {
            lemma_digits_end_bounds(s, e + 1);
        }
        lemma_quoted_bounds(s, q + 1);
    }
}

} // verus!
