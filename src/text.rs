//! Character classes and line/column positions over a source text.
use vstd::prelude::*;

verus! {

/// The characters with Unicode's White_Space property.
pub open spec fn is_space(c: char) -> bool {
    let u = c as u32;
    (0x9 <= u <= 0xd) || u == 0x20 || u == 0x85 || u == 0xa0 || u == 0x1680 || (0x2000 <= u
        <= 0x200a) || u == 0x2028 || u == 0x2029 || u == 0x202f || u == 0x205f || u == 0x3000
}

/// Letters and digits are those of ASCII.
pub open spec fn is_upper(c: char) -> bool {
    'A' <= c <= 'Z'
}

pub open spec fn is_lower(c: char) -> bool {
    'a' <= c <= 'z'
}

pub open spec fn is_digit(c: char) -> bool {
    '0' <= c <= '9'
}

/// A character that may begin a word (a keyword or an identifier).
pub open spec fn starts_word(c: char) -> bool {
    is_upper(c) || is_lower(c) || c == '_'
}

/// A character that may continue a word.
pub open spec fn in_word(c: char) -> bool {
    starts_word(c) || is_digit(c)
}

/// The 1-based line of offset `p` in `s`.
pub open spec fn line_at(s: Seq<char>, p: int) -> int
    decreases p,
{
    if p <= 0 {
        1
    } else if s[p - 1] == '\n' {
        line_at(s, p - 1) + 1
    } else {
        line_at(s, p - 1)
    }
}

/// The 1-based column of offset `p` in `s`.
pub open spec fn column_at(s: Seq<char>, p: int) -> int
    decreases p,
{
    if p <= 0 {
        1
    } else if s[p - 1] == '\n' {
        1
    } else {
        column_at(s, p - 1) + 1
    }
}

pub proof fn lemma_position_bounds(s: Seq<char>, p: int)
    requires
        0 <= p,
    ensures
        1 <= line_at(s, p) <= p + 1,
        1 <= column_at(s, p) <= p + 1,
    decreases p,
{
    if p > 0 {
        lemma_position_bounds(s, p - 1);
    }
}

/// Position `a` comes strictly before position `b`: on an earlier line, or
/// on the same line at an earlier column.
pub open spec fn precedes(a: (i64, i64), b: (i64, i64)) -> bool {
    a.0 < b.0 || (a.0 == b.0 && a.1 < b.1)
}

/// Later offsets have later positions.
pub proof fn lemma_position_order(s: Seq<char>, i: int, j: int)
    requires
        0 <= i < j <= s.len(),
    ensures
        line_at(s, i) < line_at(s, j) || (line_at(s, i) == line_at(s, j) && column_at(s, i)
            < column_at(s, j)),
    decreases j - i,
{
    if i + 1 < j {
        lemma_position_order(s, i, j - 1);
    }
}

pub fn is_space_char(c: char) -> (r: bool)
    ensures
        r == is_space(c),
{
    let u = c as u32;
    (0x9 <= u && u <= 0xd) || u == 0x20 || u == 0x85 || u == 0xa0 || u == 0x1680 || (0x2000 <= u
        && u <= 0x200a) || u == 0x2028 || u == 0x2029 || u == 0x202f || u == 0x205f || u == 0x3000
}

pub fn is_digit_char(c: char) -> (r: bool)
    ensures
        r == is_digit(c),
{
    '0' <= c && c <= '9'
}

pub fn starts_word_char(c: char) -> (r: bool)
    ensures
        r == starts_word(c),
{
    ('A' <= c && c <= 'Z') || ('a' <= c && c <= 'z') || c == '_'
}

pub fn in_word_char(c: char) -> (r: bool)
    ensures
        r == in_word(c),
{
    starts_word_char(c) || is_digit_char(c)
}

} // verus!
