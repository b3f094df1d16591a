use janus::token::Token;
use janus::tokenizer::{tokenize, Tokenizer};

fn toks(s: &str) -> Vec<Token> {
    tokenize(s.to_string()).unwrap()
}

fn ident(kind: fn(i64, i64, String) -> Token, line: i64, column: i64, name: &str) -> Token {
    kind(line, column, name.to_string())
}

#[test]
fn maximal_munch_less_than_or_equal() {
    assert_eq!(toks("<="), vec![Token::LessThanOrEqual(1, 1), Token::EndOfFile(1, 3)]);
}

#[test]
fn keyword_and_identifier() {
    assert_eq!(toks("let"), vec![Token::Let(1, 1), Token::EndOfFile(1, 4)]);
    assert_eq!(
        toks("lett"),
        vec![ident(Token::VariableIdent, 1, 1, "lett"), Token::EndOfFile(1, 5)]
    );
}

#[test]
fn positions_across_newlines() {
    assert_eq!(
        toks("a\nbb"),
        vec![
            ident(Token::VariableIdent, 1, 1, "a"),
            ident(Token::VariableIdent, 2, 1, "bb"),
            Token::EndOfFile(2, 3),
        ]
    );
}

#[test]
fn integer_then_dot() {
    assert_eq!(
        toks("3."),
        vec![Token::IntLiteral(1, 1, 3), Token::Dot(1, 2), Token::EndOfFile(1, 3)]
    );
}

#[test]
fn unterminated_string_is_unknown() {
    assert_eq!(toks("\"abc"), vec![Token::Unknown(1, 1), Token::EndOfFile(1, 5)]);
}

#[test]
fn same_text_same_tokens() {
    let text = "let x = foo(1.5, \"s\\n\") -> 'c' # Bar\n  <= 42";
    assert_eq!(toks(text), toks(text));
}

#[test]
fn whitespace_only_text() {
    assert_eq!(toks(" \t\n  \n"), vec![Token::EndOfFile(3, 1)]);
    assert_eq!(toks("   "), vec![Token::EndOfFile(1, 4)]);
    assert_eq!(toks(""), vec![Token::EndOfFile(1, 1)]);
}

#[test]
fn end_of_file_repeats() {
    let mut t = Tokenizer::from_string("x ".to_string()).unwrap();
    assert_eq!(t.nextToken(), ident(Token::VariableIdent, 1, 1, "x"));
    assert_eq!(t.nextToken(), Token::EndOfFile(1, 3));
    assert_eq!(t.nextToken(), Token::EndOfFile(1, 3));
    assert_eq!(t.nextToken(), Token::EndOfFile(1, 3));
    assert!(t.eof());
}

#[test]
fn stream_has_one_end_marker_last() {
    let ts = toks("if a then b else c");
    let ends = ts.iter().filter(|t| matches!(t, Token::EndOfFile(_, _))).count();
    assert_eq!(ends, 1);
    assert_eq!(ts.last(), Some(&Token::EndOfFile(1, 19)));
    assert_eq!(ts.len(), 7);
}

#[test]
fn all_keywords_and_type_names() {
    assert_eq!(
        toks("let if then else for fun type match sig char bool float int string"),
        vec![
            Token::Let(1, 1),
            Token::If(1, 5),
            Token::Then(1, 8),
            Token::Else(1, 13),
            Token::For(1, 18),
            Token::Fun(1, 22),
            Token::Type(1, 26),
            Token::Match(1, 31),
            Token::Sig(1, 37),
            Token::Char(1, 41),
            Token::Bool(1, 46),
            Token::Float(1, 51),
            Token::Int(1, 57),
            Token::String(1, 61),
            Token::EndOfFile(1, 67),
        ]
    );
}

#[test]
fn booleans_and_underscore() {
    assert_eq!(
        toks("true false _ _x"),
        vec![
            Token::BoolLiteral(1, 1, true),
            Token::BoolLiteral(1, 6, false),
            Token::UnderLine(1, 12),
            ident(Token::VariableIdent, 1, 14, "_x"),
            Token::EndOfFile(1, 16),
        ]
    );
}

#[test]
fn identifier_classes() {
    assert_eq!(
        toks("Foo foo(x) foo (x2"),
        vec![
            ident(Token::TypeIdent, 1, 1, "Foo"),
            ident(Token::FunctionIdent, 1, 5, "foo"),
            Token::OpenParen(1, 8),
            ident(Token::VariableIdent, 1, 9, "x"),
            Token::CloseParen(1, 10),
            ident(Token::VariableIdent, 1, 12, "foo"),
            Token::OpenParen(1, 16),
            ident(Token::VariableIdent, 1, 17, "x2"),
            Token::EndOfFile(1, 19),
        ]
    );
}

#[test]
fn keyword_prefix_is_identifier() {
    assert_eq!(
        toks("Let iff"),
        vec![
            ident(Token::TypeIdent, 1, 1, "Let"),
            ident(Token::VariableIdent, 1, 5, "iff"),
            Token::EndOfFile(1, 8),
        ]
    );
}

#[test]
fn two_character_punctuation() {
    assert_eq!(
        toks(":: -> <- => <= >= != == && || ++ -- **"),
        vec![
            Token::DoubleColon(1, 1),
            Token::RightArrow(1, 4),
            Token::LeftArrow(1, 7),
            Token::RightDoubleArrow(1, 10),
            Token::LessThanOrEqual(1, 13),
            Token::GreaterThanOrEqual(1, 16),
            Token::NotEqual(1, 19),
            Token::Equality(1, 22),
            Token::DoubleAmpersand(1, 25),
            Token::DoublePipe(1, 28),
            Token::DoubleAdd(1, 31),
            Token::DoubleSub(1, 34),
            Token::DoubleMul(1, 37),
            Token::EndOfFile(1, 39),
        ]
    );
}

#[test]
fn one_character_punctuation() {
    assert_eq!(
        toks("(){}[],;:&|~`#$^%=+-*/.<>"),
        vec![
            Token::OpenParen(1, 1),
            Token::CloseParen(1, 2),
            Token::OpenBrace(1, 3),
            Token::CloseBrace(1, 4),
            Token::OpenBracket(1, 5),
            Token::CloseBracket(1, 6),
            Token::Comma(1, 7),
            Token::SemiColon(1, 8),
            Token::Colon(1, 9),
            Token::Ampersand(1, 10),
            Token::Pipe(1, 11),
            Token::Tilde(1, 12),
            Token::Accent(1, 13),
            Token::PoundSign(1, 14),
            Token::DollarSign(1, 15),
            Token::Caret(1, 16),
            Token::Percent(1, 17),
            Token::Assign(1, 18),
            Token::Add(1, 19),
            Token::Sub(1, 20),
            Token::Mul(1, 21),
            Token::Div(1, 22),
            Token::Dot(1, 23),
            Token::LessThan(1, 24),
            Token::GreaterThan(1, 25),
            Token::EndOfFile(1, 26),
        ]
    );
}

#[test]
fn longest_form_first() {
    assert_eq!(
        toks("<<=-->"),
        vec![
            Token::LessThan(1, 1),
            Token::LessThanOrEqual(1, 2),
            Token::DoubleSub(1, 4),
            Token::GreaterThan(1, 6),
            Token::EndOfFile(1, 7),
        ]
    );
}

#[test]
fn unrecognized_characters() {
    assert_eq!(
        toks("@ ! é"),
        vec![
            Token::Unknown(1, 1),
            Token::Unknown(1, 3),
            Token::Unknown(1, 5),
            Token::EndOfFile(1, 6),
        ]
    );
}

#[test]
fn integer_literals() {
    assert_eq!(toks("0 42 007"), vec![
        Token::IntLiteral(1, 1, 0),
        Token::IntLiteral(1, 3, 42),
        Token::IntLiteral(1, 6, 7),
        Token::EndOfFile(1, 9),
    ]);
    assert_eq!(
        toks("12abc"),
        vec![
            Token::IntLiteral(1, 1, 12),
            ident(Token::VariableIdent, 1, 3, "abc"),
            Token::EndOfFile(1, 6),
        ]
    );
}

#[test]
fn largest_integer_and_overflow() {
    assert_eq!(
        toks("9223372036854775807"),
        vec![Token::IntLiteral(1, 1, i64::MAX), Token::EndOfFile(1, 20)]
    );
    assert_eq!(
        toks("9223372036854775808 1"),
        vec![Token::Unknown(1, 1), Token::IntLiteral(1, 21, 1), Token::EndOfFile(1, 22)]
    );
}

#[test]
fn decimal_literals() {
    assert_eq!(
        toks("3.14 0.05 1.2.3"),
        vec![
            Token::FloatLiteral(1, 1, 314, 2),
            Token::FloatLiteral(1, 6, 5, 2),
            Token::FloatLiteral(1, 11, 12, 1),
            Token::Dot(1, 14),
            Token::IntLiteral(1, 15, 3),
            Token::EndOfFile(1, 16),
        ]
    );
    assert_eq!(
        toks("92233720368547758.080"),
        vec![Token::Unknown(1, 1), Token::EndOfFile(1, 22)]
    );
    assert_eq!(
        toks("3.x"),
        vec![
            Token::IntLiteral(1, 1, 3),
            Token::Dot(1, 2),
            ident(Token::VariableIdent, 1, 3, "x"),
            Token::EndOfFile(1, 4),
        ]
    );
}

#[test]
fn string_literals_and_escapes() {
    assert_eq!(
        toks("\"hi there\" \"a\\n\\t\\\\\\\"b\" \"\""),
        vec![
            ident(Token::StringLiteral, 1, 1, "hi there"),
            ident(Token::StringLiteral, 1, 12, "a\n\t\\\"b"),
            ident(Token::StringLiteral, 1, 25, ""),
            Token::EndOfFile(1, 27),
        ]
    );
}

#[test]
fn string_across_lines() {
    assert_eq!(
        toks("\"a\nb\" x"),
        vec![
            ident(Token::StringLiteral, 1, 1, "a\nb"),
            ident(Token::VariableIdent, 2, 4, "x"),
            Token::EndOfFile(2, 5),
        ]
    );
}

#[test]
fn string_with_bad_escape() {
    assert_eq!(
        toks("\"a\\qb\""),
        vec![
            Token::Unknown(1, 1),
            ident(Token::VariableIdent, 1, 2, "a"),
            Token::Unknown(1, 3),
            ident(Token::VariableIdent, 1, 4, "qb"),
            Token::Unknown(1, 6),
            Token::EndOfFile(1, 7),
        ]
    );
}

#[test]
fn string_ending_in_backslash() {
    assert_eq!(toks("\"ab\\"), vec![Token::Unknown(1, 1), Token::EndOfFile(1, 5)]);
}

#[test]
fn char_literals() {
    assert_eq!(
        toks("'x' '\\n' '\\'' 'é'"),
        vec![
            Token::CharLiteral(1, 1, 'x'),
            Token::CharLiteral(1, 5, '\n'),
            Token::CharLiteral(1, 10, '\''),
            Token::CharLiteral(1, 15, 'é'),
            Token::EndOfFile(1, 18),
        ]
    );
}

#[test]
fn malformed_char_literals() {
    assert_eq!(
        toks("''"),
        vec![Token::Unknown(1, 1), Token::Unknown(1, 2), Token::EndOfFile(1, 3)]
    );
    assert_eq!(
        toks("'ab'"),
        vec![
            Token::Unknown(1, 1),
            ident(Token::VariableIdent, 1, 2, "ab"),
            Token::Unknown(1, 4),
            Token::EndOfFile(1, 5),
        ]
    );
    assert_eq!(
        toks("'\\q'"),
        vec![
            Token::Unknown(1, 1),
            Token::Unknown(1, 2),
            ident(Token::VariableIdent, 1, 3, "q"),
            Token::Unknown(1, 4),
            Token::EndOfFile(1, 5),
        ]
    );
}

#[test]
fn unicode_whitespace_is_skipped() {
    assert_eq!(
        toks("\u{3000}x\u{a0}\r\ny"),
        vec![
            ident(Token::VariableIdent, 1, 2, "x"),
            ident(Token::VariableIdent, 2, 1, "y"),
            Token::EndOfFile(2, 2),
        ]
    );
}

#[test]
fn cursor_reads_and_tracks_position() {
    let mut t = Tokenizer::from_string("ab\n c".to_string()).unwrap();
    assert_eq!(t.currentChar(), Some('a'));
    assert_eq!(t.lookAheadChar(), Some('b'));
    assert_eq!(t.peek_ahead(2), Some('\n'));
    assert_eq!(t.peek_ahead(5), None);
    assert_eq!(t.nextChar(), Some('a'));
    assert_eq!(t.nextChar(), Some('b'));
    assert_eq!(t.currentChar(), Some('\n'));
    t.consumeWhiteSpace();
    assert_eq!(t.currentChar(), Some('c'));
    assert_eq!(t.lookAheadChar(), None);
    assert_eq!(t.nextToken(), ident(Token::VariableIdent, 2, 2, "c"));
    assert!(t.eof());
    assert_eq!(t.nextChar(), None);
    assert_eq!(t.currentChar(), None);
}

#[test]
fn reserved_word_lookup() {
    assert_eq!(Token::new(3, 4, "match"), Some(Token::Match(3, 4)));
    assert_eq!(Token::new(1, 1, "true"), Some(Token::BoolLiteral(1, 1, true)));
    assert_eq!(Token::new(1, 1, "matches"), None);
    assert_eq!(Token::pair('=', '>', 2, 5), Some(Token::RightDoubleArrow(2, 5)));
    assert_eq!(Token::pair('>', '=', 2, 5), Some(Token::GreaterThanOrEqual(2, 5)));
    assert_eq!(Token::pair('=', '<', 2, 5), None);
    assert_eq!(Token::single('%', 1, 9), Some(Token::Percent(1, 9)));
    assert_eq!(Token::single('!', 1, 9), None);
}

#[test]
fn a_small_program() {
    assert_eq!(
        toks("fun add(a: Int) -> int {\n  a + 1\n}"),
        vec![
            Token::Fun(1, 1),
            ident(Token::FunctionIdent, 1, 5, "add"),
            Token::OpenParen(1, 8),
            ident(Token::VariableIdent, 1, 9, "a"),
            Token::Colon(1, 10),
            ident(Token::TypeIdent, 1, 12, "Int"),
            Token::CloseParen(1, 15),
            Token::RightArrow(1, 17),
            Token::Int(1, 20),
            Token::OpenBrace(1, 24),
            ident(Token::VariableIdent, 2, 3, "a"),
            Token::Add(2, 5),
            Token::IntLiteral(2, 7, 1),
            Token::CloseBrace(3, 1),
            Token::EndOfFile(3, 2),
        ]
    );
}

#[test]
fn token_positions() {
    assert_eq!(Token::Let(3, 7).position(), (3, 7));
    assert_eq!(ident(Token::FunctionIdent, 2, 9, "f").position(), (2, 9));
    assert_eq!(Token::FloatLiteral(4, 1, 15, 1).position(), (4, 1));
    assert_eq!(Token::CharLiteral(5, 2, 'z').position(), (5, 2));
    assert_eq!(Token::EndOfFile(6, 3).position(), (6, 3));
}

#[test]
fn positions_strictly_increase() {
    let ts = toks("match x {\n  Some(y) => \"a\\tb\" ,\n\n  _ => 'q'\n}\n");
    for w in ts.windows(2) {
        let (a, b) = (w[0].position(), w[1].position());
        assert!(a.0 < b.0 || (a.0 == b.0 && a.1 < b.1), "{:?} then {:?}", w[0], w[1]);
    }
    assert_eq!(ts.last(), Some(&Token::EndOfFile(6, 1)));
}
