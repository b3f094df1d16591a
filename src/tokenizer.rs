//! The tokenizer: a cursor over the characters of a source text that hands
//! out one token per call.
use vstd::prelude::*;
use crate::lex::{
    char_escaped, decimal_value, digits_end, escaped, lemma_next_bounds, lex_char, lex_from,
    lex_number, lex_string, lex_symbol, lex_word, next_lexed, prefixed, quoted, skip_spaces,
    word_end, Quoted,
};
use crate::text::{
    column_at, in_word_char, is_digit, is_digit_char, is_space_char, lemma_position_bounds,
    line_at, starts_word_char,
};
use crate::token::{views, Token};
use vstd::std_specs::iter::IteratorSpec;

verus! {

broadcast use vstd::string::group_string_axioms;

/// Relies on `String::push`: appends one character to the end.
#[verifier::external_body]
fn push_char(s: &mut String, c: char)
    ensures
        final(s)@ == old(s)@.push(c),
{
    s.push(c)
}

/// A `String` that holds the characters of `v`.
fn string_of(v: &Vec<char>) -> (r: String)
    ensures
        r@ == v@,
{
    let mut r = String::new();
    let mut i: usize = 0;
    while i < v.len()
        invariant
            0 <= i <= v.len(),
            r@ == v@.subrange(0, i as int),
        decreases v.len() - i,
    {
        push_char(&mut r, v[i]);
        assert(v@.subrange(0, i + 1) =~= v@.subrange(0, i as int).push(v@[i as int]));
        i = i + 1;
    }
    assert(v@ =~= v@.subrange(0, v.len() as int));
    r
}

/// The characters of `s`, in order.
fn chars_of(s: &str) -> (r: Vec<char>)
    ensures
        r@ == s@,
{
    let mut it = s.chars();
    let mut r: Vec<char> = Vec::new();
    loop
        invariant
            r@ + it.remaining() == s@,
            it.decrease() is Some,
        ensures
            r@ == s@,
        decreases it.decrease()->0,
    {
        let ghost before = it;
        let next = it.next();
        proof {
            vstd::string::next_postcondition(&before, &it, next);
        }
        match next {
            Some(c) => {
                assert(r@.push(c) + it.remaining() =~= r@ + seq![c] + it.remaining());
                r.push(c);
            },
            None => {
                assert(it.remaining().len() == 0);
                assert(r@ + it.remaining() =~= r@);
                break;
            },
        }
    }
    r
}

fn escaped_char(c: char) -> (r: Option<char>)
    ensures
        r == escaped(c),
{
    if c == 'n' {
        Some('\n')
    } else if c == 't' {
        Some('\t')
    } else if c == '\\' {
        Some('\\')
    } else if c == '"' {
        Some('"')
    } else {
        None
    }
}

fn char_escaped_char(c: char) -> (r: Option<char>)
    ensures
        r == char_escaped(c),
{
    if c == '\'' {
        Some('\'')
    } else {
        escaped_char(c)
    }
}

proof fn lemma_decimal_nonneg(d: Seq<char>)
    requires
        forall|k: int| 0 <= k < d.len() ==> is_digit(#[trigger] d[k]),
    ensures
        decimal_value(d) >= 0,
    decreases d.len(),
{
    if d.len() > 0 {
        lemma_decimal_nonneg(d.drop_last());
    }
}

proof fn lemma_decimal_monotone(d: Seq<char>, i: int, j: int)
    requires
        0 <= i <= j <= d.len(),
        forall|k: int| 0 <= k < d.len() ==> is_digit(#[trigger] d[k]),
    ensures
        decimal_value(d.subrange(0, i)) <= decimal_value(d.subrange(0, j)),
    decreases j - i,
{
    if i < j {
        lemma_decimal_monotone(d, i, j - 1);
        assert(d.subrange(0, j).drop_last() =~= d.subrange(0, j - 1));
        lemma_decimal_nonneg(d.subrange(0, j - 1));
    }
}

/// The value of the numeral `d`, if it fits in an `i64`.
fn decimal_of(d: &Vec<char>) -> (r: Option<i64>)
    requires
        forall|k: int| 0 <= k < d@.len() ==> is_digit(#[trigger] d@[k]),
    ensures
        r == (if decimal_value(d@) <= i64::MAX {
            Some(decimal_value(d@) as i64)
        } else {
            None
        }),
{
    let mut acc: i64 = 0;
    let mut i: usize = 0;
    while i < d.len()
        invariant
            0 <= i <= d.len(),
            forall|k: int| 0 <= k < d@.len() ==> is_digit(#[trigger] d@[k]),
            acc == decimal_value(d@.subrange(0, i as int)),
            acc >= 0,
        decreases d.len() - i,
    {
        let v = (d[i] as u32 - '0' as u32) as i64;
        assert(d@.subrange(0, i + 1).drop_last() =~= d@.subrange(0, i as int));
        assert(decimal_value(d@.subrange(0, i + 1)) == acc * 10 + v);
        if acc > (i64::MAX - v) / 10 {
            assert(acc * 10 + v > i64::MAX) by (nonlinear_arith)
                requires
                    acc > (i64::MAX - v) / 10,
                    0 <= v <= 9,
            ;
            proof {
                lemma_decimal_monotone(d@, i + 1, d@.len() as int);
                assert(d@.subrange(0, d@.len() as int) =~= d@);
            }
            return None;
        }
        assert(acc * 10 + v <= i64::MAX) by (nonlinear_arith)
            requires
                acc <= (i64::MAX - v) / 10,
                0 <= v <= 9,
                acc >= 0,
        ;
        acc = acc * 10 + v;
        i = i + 1;
    }
    assert(d@.subrange(0, d@.len() as int) =~= d@);
    Some(acc)
}

proof fn lemma_prefixed_push(a: Seq<char>, c: char, r: Quoted)
    ensures
        prefixed(a, prefixed(seq![c], r)) == prefixed(a.push(c), r),
{
    if let Quoted::Closed(d, e) = r {
        assert(a + (seq![c] + d) =~= a.push(c) + d);
    }
}

/// A cursor over a source text that produces its tokens one call at a time.
pub struct Tokenizer {
    chars: Vec<char>,
    current_position: usize,
    line: i64,
    column: i64,
}

#[allow(non_snake_case)]
impl Tokenizer {
    /// The characters of the source text.
    pub closed spec fn text(&self) -> Seq<char> {
        self.chars@
    }

    /// The offset of the next character to read.
    pub closed spec fn offset(&self) -> int {
        self.current_position as int
    }

    /// The line of the next character to read.
    pub closed spec fn line(&self) -> int {
        self.line as int
    }

    /// The column of the next character to read.
    pub closed spec fn column(&self) -> int {
        self.column as int
    }

    /// The offset lies within the text, and the line and column are those of
    /// the offset.
    pub open spec fn wf(&self) -> bool {
        &&& self.text().len() < i64::MAX
        &&& self.text().len() <= usize::MAX
        &&& 0 <= self.offset() <= self.text().len()
        &&& self.line() == line_at(self.text(), self.offset())
        &&& self.column() == column_at(self.text(), self.offset())
    }

    /// A tokenizer at the start of `contents`; `None` when the text holds too
    /// many characters for an `i64` position.
    pub fn from_string(contents: String) -> (r: Option<Tokenizer>)
        ensures
            r is Some <==> contents@.len() < i64::MAX,
            r matches Some(t) ==> t.wf() && t.text() == contents@ && t.offset() == 0,
    {
        let chars = chars_of(contents.as_str());
        if chars.len() as u64 >= i64::MAX as u64 {
            return None;
        }
        Some(Tokenizer { chars, current_position: 0, line: 1, column: 1 })
    }

    /// Whether the whole text has been read.
    pub fn eof(&self) -> (r: bool)
        ensures
            r == (self.offset() >= self.text().len()),
    {
        self.current_position >= self.chars.len()
    }

    /// The character `n` places past the offset, if there is one.
    pub fn peek_ahead(&self, n: usize) -> (r: Option<char>)
        requires
            self.wf(),
        ensures
            r == (if self.offset() + n < self.text().len() {
                Some(self.text()[self.offset() + n])
            } else {
                None
            }),
    {
        if n < self.chars.len() - self.current_position {
            Some(self.chars[self.current_position + n])
        } else {
            None
        }
    }

    /// The character at the offset, if there is one.
    pub fn currentChar(&self) -> (r: Option<char>)
        requires
            self.wf(),
        ensures
            r == (if self.offset() < self.text().len() {
                Some(self.text()[self.offset()])
            } else {
                None
            }),
    {
        self.peek_ahead(0)
    }

    /// The character just after the one at the offset, if there is one.
    pub fn lookAheadChar(&self) -> (r: Option<char>)
        requires
            self.wf(),
        ensures
            r == (if self.offset() + 1 < self.text().len() {
                Some(self.text()[self.offset() + 1])
            } else {
                None
            }),
    {
        self.peek_ahead(1)
    }

    /// Reads the character at the offset, if there is one, and moves past it;
    /// a newline starts the next line.
    pub fn nextChar(&mut self) -> (r: Option<char>)
        requires
            old(self).wf(),
        ensures
            final(self).wf(),
            final(self).text() == old(self).text(),
            r == (if old(self).offset() < old(self).text().len() {
                Some(old(self).text()[old(self).offset()])
            } else {
                None
            }),
            final(self).offset() == (if old(self).offset() < old(self).text().len() {
                old(self).offset() + 1
            } else {
                old(self).offset()
            }),
    {
        if self.current_position >= self.chars.len() {
            return None;
        }
        let ch = self.chars[self.current_position];
        proof {
            lemma_position_bounds(self.chars@, self.current_position + 1);
        }
        if ch == '\n' {
            self.line = self.line + 1;
            self.column = 1;
        } else {
            self.column = self.column + 1;
        }
        self.current_position = self.current_position + 1;
        Some(ch)
    }

    /// Moves past all whitespace at the offset.
    pub fn consumeWhiteSpace(&mut self)
        requires
            old(self).wf(),
        ensures
            final(self).wf(),
            final(self).text() == old(self).text(),
            final(self).offset() == skip_spaces(old(self).text(), old(self).offset()),
    {
        while self.current_position < self.chars.len() && is_space_char(
            self.chars[self.current_position],
        )
            invariant
                self.wf(),
                self.text() == old(self).text(),
                skip_spaces(self.text(), self.offset()) == skip_spaces(
                    old(self).text(),
                    old(self).offset(),
                ),
            decreases self.text().len() - self.offset(),
        {
            self.nextChar();
        }
    }

    /// Moves forward to offset `end`.
    fn advance_to(&mut self, end: usize)
        requires
            old(self).wf(),
            old(self).offset() <= end <= old(self).text().len(),
        ensures
            final(self).wf(),
            final(self).text() == old(self).text(),
            final(self).offset() == end,
    {
        while self.current_position < end
            invariant
                self.wf(),
                self.text() == old(self).text(),
                self.offset() <= end <= self.text().len(),
            decreases end - self.offset(),
        {
            self.nextChar();
        }
    }

    /// The word at the offset: a reserved word or an identifier.
    fn scan_word(&self) -> (r: (Token, usize))
        requires
            self.wf(),
            self.offset() < self.text().len(),
        ensures
            r.0@ == lex_word(self.text(), self.offset(), self.line as i64, self.column as i64).0,
            r.1 == lex_word(self.text(), self.offset(), self.line as i64, self.column as i64).1,
    {
        let q = self.current_position;
        let mut e = q;
        let mut w: Vec<char> = Vec::new();
        while e < self.chars.len() && in_word_char(self.chars[e])
            invariant
                q <= e <= self.chars@.len(),
                word_end(self.chars@, q as int) == word_end(self.chars@, e as int),
                w@ == self.chars@.subrange(q as int, e as int),
            decreases self.chars@.len() - e,
        {
            w.push(self.chars[e]);
            assert(self.chars@.subrange(q as int, e + 1) =~= self.chars@.subrange(
                q as int,
                e as int,
            ).push(self.chars@[e as int]));
            e = e + 1;
        }
        let name = string_of(&w);
        match Token::new(self.line, self.column, name.as_str()) {
            Some(t) => (t, e),
            None => {
                let first = self.chars[q];
                if 'A' <= first && first <= 'Z' {
                    (Token::TypeIdent(self.line, self.column, name), e)
                } else if e < self.chars.len() && self.chars[e] == '(' {
                    (Token::FunctionIdent(self.line, self.column, name), e)
                } else {
                    (Token::VariableIdent(self.line, self.column, name), e)
                }
            },
        }
    }

    /// The number at the offset: an integer, or a decimal when a point and a
    /// digit follow the integer part.
    fn scan_number(&self) -> (r: (Token, usize))
        requires
            self.wf(),
            self.offset() < self.text().len(),
        ensures
            r.0@ == lex_number(self.text(), self.offset(), self.line as i64, self.column as i64).0,
            r.1 == lex_number(self.text(), self.offset(), self.line as i64, self.column as i64).1,
    {
        let ghost s = self.chars@;
        let len = self.chars.len();
        let q = self.current_position;
        let mut e = q;
        let mut d: Vec<char> = Vec::new();
        while e < len && is_digit_char(self.chars[e])
            invariant
                len == s.len(),
                s == self.chars@,
                q <= e <= len,
                digits_end(s, q as int) == digits_end(s, e as int),
                d@ == s.subrange(q as int, e as int),
                forall|k: int| 0 <= k < d@.len() ==> is_digit(#[trigger] d@[k]),
            decreases len - e,
        {
            d.push(self.chars[e]);
            assert(s.subrange(q as int, e + 1) =~= s.subrange(q as int, e as int).push(s[e as int]));
            e = e + 1;
        }
        if e < len && e + 1 < len && self.chars[e] == '.' && is_digit_char(self.chars[e + 1]) {
            let mut f = e + 1;
            while f < len && is_digit_char(self.chars[f])
                invariant
                    len == s.len(),
                    s == self.chars@,
                    e + 1 <= f <= len,
                    digits_end(s, e + 1) == digits_end(s, f as int),
                    d@ == s.subrange(q as int, e as int) + s.subrange(e + 1, f as int),
                    forall|k: int| 0 <= k < d@.len() ==> is_digit(#[trigger] d@[k]),
                decreases len - f,
            {
                let ghost before = d@;
                d.push(self.chars[f]);
                assert(s.subrange(e + 1, f + 1) =~= s.subrange(e + 1, f as int).push(s[f as int]));
                assert(d@ =~= s.subrange(q as int, e as int) + s.subrange(e + 1, f + 1));
                f = f + 1;
            }
            match decimal_of(&d) {
                Some(m) => (Token::FloatLiteral(self.line, self.column, m, (f - e - 1) as i64), f),
                None => (Token::Unknown(self.line, self.column), f),
            }
        } else {
            match decimal_of(&d) {
                Some(v) => (Token::IntLiteral(self.line, self.column, v), e),
                None => (Token::Unknown(self.line, self.column), e),
            }
        }
    }

    /// The string literal that opens at the offset.
    fn scan_string(&self) -> (r: (Token, usize))
        requires
            self.wf(),
            self.offset() < self.text().len(),
        ensures
            r.0@ == lex_string(self.text(), self.offset(), self.line as i64, self.column as i64).0,
            r.1 == lex_string(self.text(), self.offset(), self.line as i64, self.column as i64).1,
    {
        let ghost s = self.chars@;
        let len = self.chars.len();
        let q = self.current_position;
        let mut i = q + 1;
        let mut acc: Vec<char> = Vec::new();
        loop
            invariant
                len == s.len(),
                s == self.chars@,
                q == self.current_position,
                q + 1 <= i <= len,
                quoted(s, q + 1) == prefixed(acc@, quoted(s, i as int)),
            decreases len - i,
        {
            if i >= len {
                return (Token::Unknown(self.line, self.column), len);
            }
            let c = self.chars[i];
            if c == '"' {
                assert(acc@ + Seq::<char>::empty() =~= acc@);
                let text = string_of(&acc);
                return (Token::StringLiteral(self.line, self.column, text), i + 1);
            }
            if c == '\\' {
                if i + 1 >= len {
                    return (Token::Unknown(self.line, self.column), len);
                }
                match escaped_char(self.chars[i + 1]) {
                    Some(x) => {
                        proof {
                            lemma_prefixed_push(acc@, x, quoted(s, i + 2));
                        }
                        acc.push(x);
                        i = i + 2;
                    },
                    None => {
                        return (Token::Unknown(self.line, self.column), q + 1);
                    },
                }
            } else {
                proof {
                    lemma_prefixed_push(acc@, c, quoted(s, i + 1));
                }
                acc.push(c);
                i = i + 1;
            }
        }
    }

    /// The character literal that opens at the offset.
    fn scan_char(&self) -> (r: (Token, usize))
        requires
            self.wf(),
            self.offset() < self.text().len(),
        ensures
            r.0@ == lex_char(self.text(), self.offset(), self.line as i64, self.column as i64).0,
            r.1 == lex_char(self.text(), self.offset(), self.line as i64, self.column as i64).1,
    {
        let q = self.current_position;
        let unknown = Token::Unknown(self.line, self.column);
        match (self.peek_ahead(1), self.peek_ahead(2), self.peek_ahead(3)) {
            (Some('\\'), Some(x), Some('\'')) => match char_escaped_char(x) {
                Some(v) => (Token::CharLiteral(self.line, self.column, v), q + 4),
                None => (unknown, q + 1),
            },
            (Some('\\'), _, _) => (unknown, q + 1),
            (Some(x), Some('\''), _) => if x != '\'' {
                (Token::CharLiteral(self.line, self.column, x), q + 3)
            } else {
                (unknown, q + 1)
            },
            _ => (unknown, q + 1),
        }
    }

    /// The punctuation at the offset, longest form first.
    fn scan_symbol(&self) -> (r: (Token, usize))
        requires
            self.wf(),
            self.offset() < self.text().len(),
        ensures
            r.0@ == lex_symbol(self.text(), self.offset(), self.line as i64, self.column as i64).0,
            r.1 == lex_symbol(self.text(), self.offset(), self.line as i64, self.column as i64).1,
    {
        let q = self.current_position;
        let a = self.chars[q];
        if let Some(b) = self.peek_ahead(1) {
            if let Some(t) = Token::pair(a, b, self.line, self.column) {
                return (t, q + 2);
            }
        }
        match Token::single(a, self.line, self.column) {
            Some(t) => (t, q + 1),
            None => (Token::Unknown(self.line, self.column), q + 1),
        }
    }

    /// Skips whitespace and reads the next token. At the end of the text
    /// this is `EndOfFile`, at the same position on every call.
    pub fn nextToken(&mut self) -> (r: Token)
        requires
            old(self).wf(),
        ensures
            final(self).wf(),
            final(self).text() == old(self).text(),
            r@ == next_lexed(old(self).text(), old(self).offset()).0,
            final(self).offset() == next_lexed(old(self).text(), old(self).offset()).1,
    {
        proof {
            lemma_next_bounds(self.text(), self.offset());
        }
        self.consumeWhiteSpace();
        if self.eof() {
            return Token::EndOfFile(self.line, self.column);
        }
        let c = self.chars[self.current_position];
        let (t, end) = if starts_word_char(c) {
            self.scan_word()
        } else if is_digit_char(c) {
            self.scan_number()
        } else if c == '"' {
            self.scan_string()
        } else if c == '\'' {
            self.scan_char()
        } else {
            self.scan_symbol()
        };
        self.advance_to(end);
        t
    }
}

/// The tokens of `contents`, ending with the one `EndOfFile`; `None` when the
/// text holds too many characters for an `i64` position.
pub fn tokenize(contents: String) -> (r: Option<Vec<Token>>)
    ensures
        r is Some <==> contents@.len() < i64::MAX,
        r matches Some(ts) ==> views(ts@) == lex_from(contents@, 0),
{
    let mut t = match Tokenizer::from_string(contents) {
        Some(t) => t,
        None => return None,
    };
    let ghost s = t.text();
    let mut out: Vec<Token> = Vec::new();
    assert(views(out@) + lex_from(s, 0) =~= lex_from(s, 0));
    loop
        invariant_except_break
            lex_from(s, 0) == views(out@) + lex_from(s, t.offset()),
        invariant
            t.wf(),
            t.text() == s,
        ensures
            lex_from(s, 0) == views(out@),
        decreases s.len() - t.offset(),
    {
        let ghost p = t.offset();
        proof {
            lemma_next_bounds(s, p);
        }
        let tok = t.nextToken();
        let done = matches!(tok, Token::EndOfFile(_, _));
        let ghost before = out@;
        out.push(tok);
        assert(views(out@) =~= views(before).push(tok@));
        if done {
            assert(views(before) + lex_from(s, p) =~= views(out@));
            break;
        }
        assert(views(before) + lex_from(s, p) =~= views(out@) + lex_from(s, t.offset()));
    }
    Some(out)
}

} // verus!
