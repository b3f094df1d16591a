//! Properties of tokenization as a whole.
use vstd::prelude::*;
use crate::lex::{lemma_next_bounds, lemma_skip_bounds, lex_from, next_lexed, skip_spaces};
use crate::text::{column_at, is_space, lemma_position_bounds, lemma_position_order, line_at, precedes};
use crate::token::{is_end, position_of, views, Lexed, Token};

verus! {

/// Reading tokens from any offset ends: the stream holds at most one token
/// per remaining character plus the end marker, the end marker comes last and
/// only there, and reading again after the end marker yields the same end
/// marker at the same position.
pub proof fn lemma_stream_ends(s: Seq<char>, p: int)
    requires
        0 <= p <= s.len(),
    ensures
        1 <= lex_from(s, p).len() <= s.len() - p + 1,
        is_end(lex_from(s, p).last()),
        forall|i: int| 0 <= i < lex_from(s, p).len() - 1 ==> !is_end(#[trigger] lex_from(s, p)[i]),
        is_end(next_lexed(s, p).0) ==> next_lexed(s, next_lexed(s, p).1) == next_lexed(s, p),
    decreases s.len() - p,
{
    let (x, e) = next_lexed(s, p);
    lemma_next_bounds(s, p);
    if is_end(x) {
        lemma_skip_bounds(s, p);
        assert(skip_spaces(s, e) == e);
    } else {
        lemma_stream_ends(s, e);
        let rest = lex_from(s, e);
        let ts = lex_from(s, p);
        assert(ts == seq![x] + rest);
        assert forall|i: int| 0 <= i < ts.len() - 1 implies !is_end(#[trigger] ts[i]) by {
            if i > 0 {
                assert(ts[i] == rest[i - 1]);
            }
        }
    }
}

/// Tokenizing one text twice gives the same tokens: any two token sequences
/// that both meet the contract of `tokenize` on a text have the same length
/// and hold equal tokens, position for position.
pub proof fn lemma_tokenize_deterministic(s: Seq<char>, a: Seq<Token>, b: Seq<Token>)
    requires
        views(a) == lex_from(s, 0),
        views(b) == lex_from(s, 0),
    ensures
        a.len() == b.len(),
        forall|i: int| 0 <= i < a.len() ==> #[trigger] a[i]@ == b[i]@,
{
    assert(views(a).len() == a.len());
    assert(views(b).len() == b.len());
    assert forall|i: int| 0 <= i < a.len() implies #[trigger] a[i]@ == b[i]@ by {
        assert(views(a)[i] == a[i]@);
        assert(views(b)[i] == b[i]@);
    }
}

proof fn lemma_blank_skip(s: Seq<char>, p: int)
    requires
        0 <= p <= s.len(),
        forall|i: int| 0 <= i < s.len() ==> is_space(#[trigger] s[i]),
    ensures
        skip_spaces(s, p) == s.len(),
    decreases s.len() - p,
{
    if p < s.len() {
        lemma_blank_skip(s, p + 1);
    }
}

/// A text of whitespace alone, the empty text included, has one token: the
/// end marker, at the position just past the last character.
pub proof fn lemma_blank_text(s: Seq<char>)
    requires
        forall|i: int| 0 <= i < s.len() ==> is_space(#[trigger] s[i]),
    ensures
        lex_from(s, 0) == seq![
            Lexed::Plain(
                Token::EndOfFile(line_at(s, s.len() as int) as i64, column_at(s, s.len() as int) as i64),
            ),
        ],
{
    lemma_blank_skip(s, 0);
}

/// Each token's position is that of its first character, after the
/// whitespace that precedes it.
pub proof fn lemma_next_position(s: Seq<char>, p: int)
    requires
        0 <= p <= s.len(),
    ensures
        position_of(next_lexed(s, p).0) == (
            line_at(s, skip_spaces(s, p)) as i64,
            column_at(s, skip_spaces(s, p)) as i64,
        ),
{
}

/// Along the stream, each token stands strictly before the next one: on an
/// earlier line, or on the same line at an earlier column.
pub proof fn lemma_positions_increase(s: Seq<char>, p: int)
    requires
        0 <= p <= s.len(),
        s.len() < i64::MAX,
    ensures
        forall|k: int|
            0 <= k < lex_from(s, p).len() - 1 ==> precedes(
                position_of(#[trigger] lex_from(s, p)[k]),
                position_of(lex_from(s, p)[k + 1]),
            ),
    decreases s.len() - p,
{
    let (x, e) = next_lexed(s, p);
    lemma_next_bounds(s, p);
    if !is_end(x) {
        lemma_positions_increase(s, e);
        lemma_next_bounds(s, e);
        let q = skip_spaces(s, p);
        let r = skip_spaces(s, e);
        lemma_next_position(s, p);
        lemma_next_position(s, e);
        lemma_position_order(s, q, r);
        lemma_position_bounds(s, q);
        lemma_position_bounds(s, r);
        let rest = lex_from(s, e);
        let ts = lex_from(s, p);
        assert(ts == seq![x] + rest);
        assert(rest[0] == next_lexed(s, e).0);
        assert forall|k: int| 0 <= k < ts.len() - 1 implies precedes(
            position_of(#[trigger] ts[k]),
            position_of(ts[k + 1]),
        ) by {
            if k > 0 {
                assert(ts[k] == rest[k - 1]);
                assert(ts[k + 1] == rest[k]);
            }
        }
    }
}

} // verus!
