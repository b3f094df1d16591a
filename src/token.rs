//! Tokens, their mathematical model, and the fixed tables of reserved words
//! and punctuation.
use vstd::prelude::*;

verus! {

/// A lexical token. Every variant carries the 1-based line and column of the
/// first character of its lexeme.
#[derive(Debug, Clone, PartialEq)]
pub enum Token {
    // Keywords
    Let(i64, i64),
    If(i64, i64),
    Then(i64, i64),
    Else(i64, i64),
    For(i64, i64),
    Fun(i64, i64),
    Type(i64, i64),
    Match(i64, i64),
    Sig(i64, i64),
    // Built-in type names
    Char(i64, i64),
    Bool(i64, i64),
    Float(i64, i64),
    Int(i64, i64),
    String(i64, i64),
    // Punctuation
    Equality(i64, i64),
    OpenParen(i64, i64),
    CloseParen(i64, i64),
    OpenBrace(i64, i64),
    CloseBrace(i64, i64),
    OpenBracket(i64, i64),
    CloseBracket(i64, i64),
    // A quote always opens a literal, and `<=` is always `LessThanOrEqual`:
    // `DoubleQuote`, `SingleQuote` and `LeftDoubleArrow` name those symbols
    // for other stages and never come out of the tokenizer.
    DoubleQuote(i64, i64),
    SingleQuote(i64, i64),
    Comma(i64, i64),
    SemiColon(i64, i64),
    DoubleColon(i64, i64),
    Colon(i64, i64),
    RightArrow(i64, i64),
    LeftArrow(i64, i64),
    RightDoubleArrow(i64, i64),
    LeftDoubleArrow(i64, i64),
    DoubleAmpersand(i64, i64),
    Ampersand(i64, i64),
    Tilde(i64, i64),
    Accent(i64, i64),
    PoundSign(i64, i64),
    DollarSign(i64, i64),
    Caret(i64, i64),
    Percent(i64, i64),
    Assign(i64, i64),
    DoubleAdd(i64, i64),
    Add(i64, i64),
    DoubleSub(i64, i64),
    Sub(i64, i64),
    DoubleMul(i64, i64),
    UnderLine(i64, i64),
    DoublePipe(i64, i64),
    Pipe(i64, i64),
    Mul(i64, i64),
    Div(i64, i64),
    Dot(i64, i64),
    LessThan(i64, i64),
    LessThanOrEqual(i64, i64),
    GreaterThan(i64, i64),
    GreaterThanOrEqual(i64, i64),
    NotEqual(i64, i64),
    // Identifiers
    VariableIdent(i64, i64, String),
    TypeIdent(i64, i64, String),
    FunctionIdent(i64, i64, String),
    // Literals
    StringLiteral(i64, i64, String),
    IntLiteral(i64, i64, i64),
    /// A decimal literal: its value is the mantissa (third field) divided by
    /// ten to the power of the scale (fourth field, the number of digits after
    /// the point).
    FloatLiteral(i64, i64, i64, i64),
    CharLiteral(i64, i64, char),
    BoolLiteral(i64, i64, bool),
    // Markers
    EndOfFile(i64, i64),
    Unknown(i64, i64),
}

/// The kinds of token whose payload is text.
pub enum TextKind {
    Variable,
    Type,
    Function,
    Str,
}

/// The model of a token: a token without text, as it is, or the kind,
/// line, column and characters of a token with text.
pub enum Lexed {
    Plain(Token),
    Text(TextKind, i64, i64, Seq<char>),
}

impl View for Token {
    type V = Lexed;

    open spec fn view(&self) -> Lexed {
        match *self {
            Token::VariableIdent(l, c, n) => Lexed::Text(TextKind::Variable, l, c, n@),
            Token::TypeIdent(l, c, n) => Lexed::Text(TextKind::Type, l, c, n@),
            Token::FunctionIdent(l, c, n) => Lexed::Text(TextKind::Function, l, c, n@),
            Token::StringLiteral(l, c, n) => Lexed::Text(TextKind::Str, l, c, n@),
            _ => Lexed::Plain(*self),
        }
    }
}

/// The models of a sequence of tokens.
pub open spec fn views(ts: Seq<Token>) -> Seq<Lexed> {
    ts.map_values(|t: Token| t@)
}

/// The end-of-input marker.
pub open spec fn is_end(x: Lexed) -> bool {
    x is Plain && x->Plain_0 is EndOfFile
}

/// The line and column of a token.
pub open spec fn token_position(t: Token) -> (i64, i64) {
    match t {
        Token::Let(l, c) => (l, c),
        Token::If(l, c) => (l, c),
        Token::Then(l, c) => (l, c),
        Token::Else(l, c) => (l, c),
        Token::For(l, c) => (l, c),
        Token::Fun(l, c) => (l, c),
        Token::Type(l, c) => (l, c),
        Token::Match(l, c) => (l, c),
        Token::Sig(l, c) => (l, c),
        Token::Char(l, c) => (l, c),
        Token::Bool(l, c) => (l, c),
        Token::Float(l, c) => (l, c),
        Token::Int(l, c) => (l, c),
        Token::String(l, c) => (l, c),
        Token::Equality(l, c) => (l, c),
        Token::OpenParen(l, c) => (l, c),
        Token::CloseParen(l, c) => (l, c),
        Token::OpenBrace(l, c) => (l, c),
        Token::CloseBrace(l, c) => (l, c),
        Token::OpenBracket(l, c) => (l, c),
        Token::CloseBracket(l, c) => (l, c),
        Token::DoubleQuote(l, c) => (l, c),
        Token::SingleQuote(l, c) => (l, c),
        Token::Comma(l, c) => (l, c),
        Token::SemiColon(l, c) => (l, c),
        Token::DoubleColon(l, c) => (l, c),
        Token::Colon(l, c) => (l, c),
        Token::RightArrow(l, c) => (l, c),
        Token::LeftArrow(l, c) => (l, c),
        Token::RightDoubleArrow(l, c) => (l, c),
        Token::LeftDoubleArrow(l, c) => (l, c),
        Token::DoubleAmpersand(l, c) => (l, c),
        Token::Ampersand(l, c) => (l, c),
        Token::Tilde(l, c) => (l, c),
        Token::Accent(l, c) => (l, c),
        Token::PoundSign(l, c) => (l, c),
        Token::DollarSign(l, c) => (l, c),
        Token::Caret(l, c) => (l, c),
        Token::Percent(l, c) => (l, c),
        Token::Assign(l, c) => (l, c),
        Token::DoubleAdd(l, c) => (l, c),
        Token::Add(l, c) => (l, c),
        Token::DoubleSub(l, c) => (l, c),
        Token::Sub(l, c) => (l, c),
        Token::DoubleMul(l, c) => (l, c),
        Token::UnderLine(l, c) => (l, c),
        Token::DoublePipe(l, c) => (l, c),
        Token::Pipe(l, c) => (l, c),
        Token::Mul(l, c) => (l, c),
        Token::Div(l, c) => (l, c),
        Token::Dot(l, c) => (l, c),
        Token::LessThan(l, c) => (l, c),
        Token::LessThanOrEqual(l, c) => (l, c),
        Token::GreaterThan(l, c) => (l, c),
        Token::GreaterThanOrEqual(l, c) => (l, c),
        Token::NotEqual(l, c) => (l, c),
        Token::VariableIdent(l, c, _) => (l, c),
        Token::TypeIdent(l, c, _) => (l, c),
        Token::FunctionIdent(l, c, _) => (l, c),
        Token::StringLiteral(l, c, _) => (l, c),
        Token::IntLiteral(l, c, _) => (l, c),
        Token::FloatLiteral(l, c, _, _) => (l, c),
        Token::CharLiteral(l, c, _) => (l, c),
        Token::BoolLiteral(l, c, _) => (l, c),
        Token::EndOfFile(l, c) => (l, c),
        Token::Unknown(l, c) => (l, c),
    }
}

/// The line and column of a token's model.
pub open spec fn position_of(x: Lexed) -> (i64, i64) {
    match x {
        Lexed::Plain(t) => token_position(t),
        Lexed::Text(_, l, c, _) => (l, c),
    }
}

/// Reserved words: keywords, built-in type names, the boolean literals and
/// the lone underscore.
pub open spec fn word_token(w: Seq<char>, line: i64, column: i64) -> Option<Token> {
    if w == "let"@ {
        Some(Token::Let(line, column))
    }     else if w == "if"@ {
        Some(Token::If(line, column))
    }     else if w == "then"@ {
        Some(Token::Then(line, column))
    }     else if w == "else"@ {
        Some(Token::Else(line, column))
    }     else if w == "for"@ {
        Some(Token::For(line, column))
    }     else if w == "fun"@ {
        Some(Token::Fun(line, column))
    }     else if w == "type"@ {
        Some(Token::Type(line, column))
    }     else if w == "match"@ {
        Some(Token::Match(line, column))
    }     else if w == "sig"@ {
        Some(Token::Sig(line, column))
    }     else if w == "char"@ {
        Some(Token::Char(line, column))
    }     else if w == "bool"@ {
        Some(Token::Bool(line, column))
    }     else if w == "float"@ {
        Some(Token::Float(line, column))
    }     else if w == "int"@ {
        Some(Token::Int(line, column))
    }     else if w == "string"@ {
        Some(Token::String(line, column))
    }     else if w == "true"@ {
        Some(Token::BoolLiteral(line, column, true))
    }     else if w == "false"@ {
        Some(Token::BoolLiteral(line, column, false))
    }     else if w == "_"@ {
        Some(Token::UnderLine(line, column))
    } else {
        None
    }
}

/// Two-character punctuation.
pub open spec fn pair_token(a: char, b: char, line: i64, column: i64) -> Option<Token> {
    if a == ':' && b == ':' {
        Some(Token::DoubleColon(line, column))
    }     else if a == '-' && b == '>' {
        Some(Token::RightArrow(line, column))
    }     else if a == '<' && b == '-' {
        Some(Token::LeftArrow(line, column))
    }     else if a == '=' && b == '>' {
        Some(Token::RightDoubleArrow(line, column))
    }     else if a == '<' && b == '=' {
        Some(Token::LessThanOrEqual(line, column))
    }     else if a == '>' && b == '=' {
        Some(Token::GreaterThanOrEqual(line, column))
    }     else if a == '!' && b == '=' {
        Some(Token::NotEqual(line, column))
    }     else if a == '=' && b == '=' {
        Some(Token::Equality(line, column))
    }     else if a == '&' && b == '&' {
        Some(Token::DoubleAmpersand(line, column))
    }     else if a == '|' && b == '|' {
        Some(Token::DoublePipe(line, column))
    }     else if a == '+' && b == '+' {
        Some(Token::DoubleAdd(line, column))
    }     else if a == '-' && b == '-' {
        Some(Token::DoubleSub(line, column))
    }     else if a == '*' && b == '*' {
        Some(Token::DoubleMul(line, column))
    } else {
        None
    }
}

/// One-character punctuation.
pub open spec fn single_token(a: char, line: i64, column: i64) -> Option<Token> {
    if a == '(' {
        Some(Token::OpenParen(line, column))
    }     else if a == ')' {
        Some(Token::CloseParen(line, column))
    }     else if a == '{' {
        Some(Token::OpenBrace(line, column))
    }     else if a == '}' {
        Some(Token::CloseBrace(line, column))
    }     else if a == '[' {
        Some(Token::OpenBracket(line, column))
    }     else if a == ']' {
        Some(Token::CloseBracket(line, column))
    }     else if a == ',' {
        Some(Token::Comma(line, column))
    }     else if a == ';' {
        Some(Token::SemiColon(line, column))
    }     else if a == ':' {
        Some(Token::Colon(line, column))
    }     else if a == '&' {
        Some(Token::Ampersand(line, column))
    }     else if a == '|' {
        Some(Token::Pipe(line, column))
    }     else if a == '~' {
        Some(Token::Tilde(line, column))
    }     else if a == '`' {
        Some(Token::Accent(line, column))
    }     else if a == '#' {
        Some(Token::PoundSign(line, column))
    }     else if a == '$' {
        Some(Token::DollarSign(line, column))
    }     else if a == '^' {
        Some(Token::Caret(line, column))
    }     else if a == '%' {
        Some(Token::Percent(line, column))
    }     else if a == '=' {
        Some(Token::Assign(line, column))
    }     else if a == '+' {
        Some(Token::Add(line, column))
    }     else if a == '-' {
        Some(Token::Sub(line, column))
    }     else if a == '*' {
        Some(Token::Mul(line, column))
    }     else if a == '/' {
        Some(Token::Div(line, column))
    }     else if a == '.' {
        Some(Token::Dot(line, column))
    }     else if a == '<' {
        Some(Token::LessThan(line, column))
    }     else if a == '>' {
        Some(Token::GreaterThan(line, column))
    } else {
        None
    }
}

/// Whether `a` and `b` hold the same characters.
fn same_text(a: &str, b: &str) -> (r: bool)
    ensures
        r == (a@ == b@),
{
    let n = a.unicode_len();
    if n != b.unicode_len() {
        return false;
    }
    let mut i: usize = 0;
    while i < n
        invariant
            n == a@.len() == b@.len(),
            0 <= i <= n,
            a@.subrange(0, i as int) == b@.subrange(0, i as int),
        decreases n - i,
    {
        if a.get_char(i) != b.get_char(i) {
            assert(a@[i as int] != b@[i as int]);
            return false;
        }
        assert(a@.subrange(0, i + 1) =~= a@.subrange(0, i as int).push(a@[i as int]));
        assert(b@.subrange(0, i + 1) =~= b@.subrange(0, i as int).push(b@[i as int]));
        i = i + 1;
    }
    assert(a@ =~= a@.subrange(0, n as int));
    assert(b@ =~= b@.subrange(0, n as int));
    true
}

impl Token {
    /// The line and column of the first character of the token.
    pub fn position(&self) -> (r: (i64, i64))
        ensures
            r == token_position(*self),
            r == position_of(self@),
    {
        match self {
            Token::Let(l, c) => (*l, *c),
            Token::If(l, c) => (*l, *c),
            Token::Then(l, c) => (*l, *c),
            Token::Else(l, c) => (*l, *c),
            Token::For(l, c) => (*l, *c),
            Token::Fun(l, c) => (*l, *c),
            Token::Type(l, c) => (*l, *c),
            Token::Match(l, c) => (*l, *c),
            Token::Sig(l, c) => (*l, *c),
            Token::Char(l, c) => (*l, *c),
            Token::Bool(l, c) => (*l, *c),
            Token::Float(l, c) => (*l, *c),
            Token::Int(l, c) => (*l, *c),
            Token::String(l, c) => (*l, *c),
            Token::Equality(l, c) => (*l, *c),
            Token::OpenParen(l, c) => (*l, *c),
            Token::CloseParen(l, c) => (*l, *c),
            Token::OpenBrace(l, c) => (*l, *c),
            Token::CloseBrace(l, c) => (*l, *c),
            Token::OpenBracket(l, c) => (*l, *c),
            Token::CloseBracket(l, c) => (*l, *c),
            Token::DoubleQuote(l, c) => (*l, *c),
            Token::SingleQuote(l, c) => (*l, *c),
            Token::Comma(l, c) => (*l, *c),
            Token::SemiColon(l, c) => (*l, *c),
            Token::DoubleColon(l, c) => (*l, *c),
            Token::Colon(l, c) => (*l, *c),
            Token::RightArrow(l, c) => (*l, *c),
            Token::LeftArrow(l, c) => (*l, *c),
            Token::RightDoubleArrow(l, c) => (*l, *c),
            Token::LeftDoubleArrow(l, c) => (*l, *c),
            Token::DoubleAmpersand(l, c) => (*l, *c),
            Token::Ampersand(l, c) => (*l, *c),
            Token::Tilde(l, c) => (*l, *c),
            Token::Accent(l, c) => (*l, *c),
            Token::PoundSign(l, c) => (*l, *c),
            Token::DollarSign(l, c) => (*l, *c),
            Token::Caret(l, c) => (*l, *c),
            Token::Percent(l, c) => (*l, *c),
            Token::Assign(l, c) => (*l, *c),
            Token::DoubleAdd(l, c) => (*l, *c),
            Token::Add(l, c) => (*l, *c),
            Token::DoubleSub(l, c) => (*l, *c),
            Token::Sub(l, c) => (*l, *c),
            Token::DoubleMul(l, c) => (*l, *c),
            Token::UnderLine(l, c) => (*l, *c),
            Token::DoublePipe(l, c) => (*l, *c),
            Token::Pipe(l, c) => (*l, *c),
            Token::Mul(l, c) => (*l, *c),
            Token::Div(l, c) => (*l, *c),
            Token::Dot(l, c) => (*l, *c),
            Token::LessThan(l, c) => (*l, *c),
            Token::LessThanOrEqual(l, c) => (*l, *c),
            Token::GreaterThan(l, c) => (*l, *c),
            Token::GreaterThanOrEqual(l, c) => (*l, *c),
            Token::NotEqual(l, c) => (*l, *c),
            Token::VariableIdent(l, c, _) => (*l, *c),
            Token::TypeIdent(l, c, _) => (*l, *c),
            Token::FunctionIdent(l, c, _) => (*l, *c),
            Token::StringLiteral(l, c, _) => (*l, *c),
            Token::IntLiteral(l, c, _) => (*l, *c),
            Token::FloatLiteral(l, c, _, _) => (*l, *c),
            Token::CharLiteral(l, c, _) => (*l, *c),
            Token::BoolLiteral(l, c, _) => (*l, *c),
            Token::EndOfFile(l, c) => (*l, *c),
            Token::Unknown(l, c) => (*l, *c),
        }
    }

    /// The reserved word spelled by `input`, at the given position, if it is one.
    pub fn new(line: i64, column: i64, input: &str) -> (r: Option<Token>)
        ensures
            r == word_token(input@, line, column),
    {
        proof {
            reveal_strlit("let");
            reveal_strlit("if");
            reveal_strlit("then");
            reveal_strlit("else");
            reveal_strlit("for");
            reveal_strlit("fun");
            reveal_strlit("type");
            reveal_strlit("match");
            reveal_strlit("sig");
            reveal_strlit("char");
            reveal_strlit("bool");
            reveal_strlit("float");
            reveal_strlit("int");
            reveal_strlit("string");
            reveal_strlit("true");
            reveal_strlit("false");
            reveal_strlit("_");
        }
        if same_text(input, "let") {
            Some(Token::Let(line, column))
        }         else if same_text(input, "if") {
            Some(Token::If(line, column))
        }         else if same_text(input, "then") {
            Some(Token::Then(line, column))
        }         else if same_text(input, "else") {
            Some(Token::Else(line, column))
        }         else if same_text(input, "for") {
            Some(Token::For(line, column))
        }         else if same_text(input, "fun") {
            Some(Token::Fun(line, column))
        }         else if same_text(input, "type") {
            Some(Token::Type(line, column))
        }         else if same_text(input, "match") {
            Some(Token::Match(line, column))
        }         else if same_text(input, "sig") {
            Some(Token::Sig(line, column))
        }         else if same_text(input, "char") {
            Some(Token::Char(line, column))
        }         else if same_text(input, "bool") {
            Some(Token::Bool(line, column))
        }         else if same_text(input, "float") {
            Some(Token::Float(line, column))
        }         else if same_text(input, "int") {
            Some(Token::Int(line, column))
        }         else if same_text(input, "string") {
            Some(Token::String(line, column))
        }         else if same_text(input, "true") {
            Some(Token::BoolLiteral(line, column, true))
        }         else if same_text(input, "false") {
            Some(Token::BoolLiteral(line, column, false))
        }         else if same_text(input, "_") {
            Some(Token::UnderLine(line, column))
        } else {
            None
        }
    }

    /// The two-character punctuation spelled by `a` and `b`, if any.
    pub fn pair(a: char, b: char, line: i64, column: i64) -> (r: Option<Token>)
        ensures
            r == pair_token(a, b, line, column),
    {
        if a == ':' && b == ':' {
            Some(Token::DoubleColon(line, column))
        }         else if a == '-' && b == '>' {
            Some(Token::RightArrow(line, column))
        }         else if a == '<' && b == '-' {
            Some(Token::LeftArrow(line, column))
        }         else if a == '=' && b == '>' {
            Some(Token::RightDoubleArrow(line, column))
        }         else if a == '<' && b == '=' {
            Some(Token::LessThanOrEqual(line, column))
        }         else if a == '>' && b == '=' {
            Some(Token::GreaterThanOrEqual(line, column))
        }         else if a == '!' && b == '=' {
            Some(Token::NotEqual(line, column))
        }         else if a == '=' && b == '=' {
            Some(Token::Equality(line, column))
        }         else if a == '&' && b == '&' {
            Some(Token::DoubleAmpersand(line, column))
        }         else if a == '|' && b == '|' {
            Some(Token::DoublePipe(line, column))
        }         else if a == '+' && b == '+' {
            Some(Token::DoubleAdd(line, column))
        }         else if a == '-' && b == '-' {
            Some(Token::DoubleSub(line, column))
        }         else if a == '*' && b == '*' {
            Some(Token::DoubleMul(line, column))
        } else {
            None
        }
    }

    /// The one-character punctuation spelled by `a`, if any.
    pub fn single(a: char, line: i64, column: i64) -> (r: Option<Token>)
        ensures
            r == single_token(a, line, column),
    {
        if a == '(' {
            Some(Token::OpenParen(line, column))
        }         else if a == ')' {
            Some(Token::CloseParen(line, column))
        }         else if a == '{' {
            Some(Token::OpenBrace(line, column))
        }         else if a == '}' {
            Some(Token::CloseBrace(line, column))
        }         else if a == '[' {
            Some(Token::OpenBracket(line, column))
        }         else if a == ']' {
            Some(Token::CloseBracket(line, column))
        }         else if a == ',' {
            Some(Token::Comma(line, column))
        }         else if a == ';' {
            Some(Token::SemiColon(line, column))
        }         else if a == ':' {
            Some(Token::Colon(line, column))
        }         else if a == '&' {
            Some(Token::Ampersand(line, column))
        }         else if a == '|' {
            Some(Token::Pipe(line, column))
        }         else if a == '~' {
            Some(Token::Tilde(line, column))
        }         else if a == '`' {
            Some(Token::Accent(line, column))
        }         else if a == '#' {
            Some(Token::PoundSign(line, column))
        }         else if a == '$' {
            Some(Token::DollarSign(line, column))
        }         else if a == '^' {
            Some(Token::Caret(line, column))
        }         else if a == '%' {
            Some(Token::Percent(line, column))
        }         else if a == '=' {
            Some(Token::Assign(line, column))
        }         else if a == '+' {
            Some(Token::Add(line, column))
        }         else if a == '-' {
            Some(Token::Sub(line, column))
        }         else if a == '*' {
            Some(Token::Mul(line, column))
        }         else if a == '/' {
            Some(Token::Div(line, column))
        }         else if a == '.' {
            Some(Token::Dot(line, column))
        }         else if a == '<' {
            Some(Token::LessThan(line, column))
        }         else if a == '>' {
            Some(Token::GreaterThan(line, column))
        } else {
            None
        }
    }
}

} // verus!
