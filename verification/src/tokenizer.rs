//! The lexer: source text to tokens.
//!
//! `lex` defines, over the characters of the text, which tokens a text
//! holds; `tokenizeFile` computes them.

use vstd::prelude::*;
use vstd::string::*;
use crate::text::{
    CharClass, byte_offset, byte_offset_of, char_is_digit, char_is_word_start, chars_of,
    decimal_value, is_digit, is_word_start, lemma_byte_offset_grows, lemma_run_end,
    parse_decimal, run_end, scan_run, slice_of, str_eq, text_of,
};

verus! {

/// A token of the language. Float literals carry their decimal text as it
/// was written, without the suffix.
#[derive(Debug, Clone, PartialEq)]
pub enum Token {
    String(String),
    Float64(String),
    Float32(String),
    DefaultFloat(String),
    Integer64(i64),
    Integer(i32),
    Bool(bool),
    Func,
    Return,
    Let,
    Use,
    Void,
    If,
    Else,
    Elif,
    Greater,
    Less,
    NotEq,
    LessEq,
    GreaterEq,
    EqEq,
    I32Type,
    I64Type,
    F32Type,
    F64Type,
    StringType,
    BoolType,
    LParen,
    RParen,
    LBrace,
    RBrace,
    Semicolon,
    Colon,
    Eq,
    Comma,
    Dot,
    Ident(String),
}

/// The mathematical value of a token: text is a sequence of characters.
pub enum TokenView {
    String(Seq<char>),
    Float64(Seq<char>),
    Float32(Seq<char>),
    DefaultFloat(Seq<char>),
    Integer64(i64),
    Integer(i32),
    Bool(bool),
    Func,
    Return,
    Let,
    Use,
    Void,
    If,
    Else,
    Elif,
    Greater,
    Less,
    NotEq,
    LessEq,
    GreaterEq,
    EqEq,
    I32Type,
    I64Type,
    F32Type,
    F64Type,
    StringType,
    BoolType,
    LParen,
    RParen,
    LBrace,
    RBrace,
    Semicolon,
    Colon,
    Eq,
    Comma,
    Dot,
    Ident(Seq<char>),
}

impl View for Token {
    type V = TokenView;

    open spec fn view(&self) -> TokenView {
        match self {
            Token::String(s) => TokenView::String(s@),
            Token::Float64(s) => TokenView::Float64(s@),
            Token::Float32(s) => TokenView::Float32(s@),
            Token::DefaultFloat(s) => TokenView::DefaultFloat(s@),
            Token::Integer64(n) => TokenView::Integer64(*n),
            Token::Integer(n) => TokenView::Integer(*n),
            Token::Bool(b) => TokenView::Bool(*b),
            Token::Func => TokenView::Func,
            Token::Return => TokenView::Return,
            Token::Let => TokenView::Let,
            Token::Use => TokenView::Use,
            Token::Void => TokenView::Void,
            Token::If => TokenView::If,
            Token::Else => TokenView::Else,
            Token::Elif => TokenView::Elif,
            Token::Greater => TokenView::Greater,
            Token::Less => TokenView::Less,
            Token::NotEq => TokenView::NotEq,
            Token::LessEq => TokenView::LessEq,
            Token::GreaterEq => TokenView::GreaterEq,
            Token::EqEq => TokenView::EqEq,
            Token::I32Type => TokenView::I32Type,
            Token::I64Type => TokenView::I64Type,
            Token::F32Type => TokenView::F32Type,
            Token::F64Type => TokenView::F64Type,
            Token::StringType => TokenView::StringType,
            Token::BoolType => TokenView::BoolType,
            Token::LParen => TokenView::LParen,
            Token::RParen => TokenView::RParen,
            Token::LBrace => TokenView::LBrace,
            Token::RBrace => TokenView::RBrace,
            Token::Semicolon => TokenView::Semicolon,
            Token::Colon => TokenView::Colon,
            Token::Eq => TokenView::Eq,
            Token::Comma => TokenView::Comma,
            Token::Dot => TokenView::Dot,
            Token::Ident(s) => TokenView::Ident(s@),
        }
    }
}

/// The values of a sequence of tokens.
pub open spec fn view_tokens(ts: Seq<Token>) -> Seq<TokenView> {
    Seq::new(ts.len(), |i: int| ts[i]@)
}

/// Why a text holds no token sequence.
#[derive(Clone, Copy, Debug, PartialEq, Eq, Structural)]
pub enum LexErrorKind {
    /// A character that starts no token.
    UnrecognizedCharacter,
    /// A string literal without its closing quote.
    UnterminatedString,
    /// An integer literal too large for its type.
    IntegerOutOfRange,
}

/// A lexing failure with the byte range of the offending text.
#[derive(Clone, Copy, Debug, PartialEq, Eq, Structural)]
pub struct LexError {
    pub kind: LexErrorKind,
    pub start: usize,
    pub end: usize,
}

/// A lexing failure with the offending range in character positions.
pub struct LexFailure {
    pub kind: LexErrorKind,
    pub start: int,
    pub end: int,
}

/// The error that reports the failure `f` in a text with characters `s`:
/// the same kind, with the range counted in bytes of the UTF-8 encoding.
pub open spec fn located(s: Seq<char>, f: LexFailure) -> LexError {
    LexError {
        kind: f.kind,
        start: byte_offset(s, f.start) as usize,
        end: byte_offset(s, f.end) as usize,
    }
}

/// The token that a maximal run of word characters stands for: a boolean
/// literal, a keyword, or else an identifier.
pub open spec fn keyword_or_ident(word: Seq<char>) -> TokenView {
    if word == "true"@ {
        TokenView::Bool(true)
    } else if word == "false"@ {
        TokenView::Bool(false)
    } else if word == "fn"@ || word == "func"@ || word == "Fn"@ || word == "Func"@ {
        TokenView::Func
    } else if word == "return"@ || word == "Return"@ {
        TokenView::Return
    } else if word == "let"@ {
        TokenView::Let
    } else if word == "use"@ {
        TokenView::Use
    } else if word == "void"@ || word == "Void"@ {
        TokenView::Void
    } else if word == "if"@ {
        TokenView::If
    } else if word == "else"@ {
        TokenView::Else
    } else if word == "elif"@ {
        TokenView::Elif
    } else if word == "i32"@ {
        TokenView::I32Type
    } else if word == "i64"@ {
        TokenView::I64Type
    } else if word == "f32"@ {
        TokenView::F32Type
    } else if word == "f64"@ {
        TokenView::F64Type
    } else if word == "String"@ || word == "string"@ {
        TokenView::StringType
    } else if word == "bool"@ || word == "Bool"@ {
        TokenView::BoolType
    } else {
        TokenView::Ident(word)
    }
}

/// Whether position `i` of `s` holds the character `c`.
pub open spec fn char_at(s: Seq<char>, i: int, c: char) -> bool {
    0 <= i < s.len() && s[i] == c
}

/// Whether the three characters `a`, `b`, `c` stand at position `i` of `s`.
pub open spec fn suffix_at(s: Seq<char>, i: int, a: char, b: char, c: char) -> bool {
    char_at(s, i, a) && char_at(s, i + 1, b) && char_at(s, i + 2, c)
}

/// The numeric literal that starts at the digit at position `i`, and the
/// position after it. Digits, a dot and more digits make a float, with the
/// suffix `f64` or `f32` or without one; digits alone make an integer, of 64
/// bits with the suffix `i64` and of 32 bits without.
pub open spec fn scan_number(s: Seq<char>, i: int) -> Result<(TokenView, int), LexFailure> {
    let d = run_end(s, i, CharClass::Digit);
    if char_at(s, d, '.') && d + 1 < s.len() && is_digit(s[d + 1]) {
        let f = run_end(s, d + 1, CharClass::Digit);
        let text = s.subrange(i, f);
        if suffix_at(s, f, 'f', '6', '4') {
            Ok((TokenView::Float64(text), f + 3))
        } else if suffix_at(s, f, 'f', '3', '2') {
            Ok((TokenView::Float32(text), f + 3))
        } else {
            Ok((TokenView::DefaultFloat(text), f))
        }
    } else if suffix_at(s, d, 'i', '6', '4') {
        let value = decimal_value(s.subrange(i, d));
        if value <= i64::MAX {
            Ok((TokenView::Integer64(value as i64), d + 3))
        } else {
            Err(LexFailure { kind: LexErrorKind::IntegerOutOfRange, start: i, end: d + 3 })
        }
    } else {
        let value = decimal_value(s.subrange(i, d));
        if value <= i32::MAX {
            Ok((TokenView::Integer(value as i32), d))
        } else {
            Err(LexFailure { kind: LexErrorKind::IntegerOutOfRange, start: i, end: d })
        }
    }
}

/// The string literal that starts at the quote at position `i`: the text up
/// to the next quote, with no escapes.
pub open spec fn scan_string(s: Seq<char>, i: int) -> Result<(TokenView, int), LexFailure> {
    let j = run_end(s, i + 1, CharClass::Quoted);
    if j < s.len() {
        Ok((TokenView::String(s.subrange(i + 1, j)), j + 1))
    } else {
        Err(LexFailure { kind: LexErrorKind::UnterminatedString, start: i, end: s.len() as int })
    }
}

/// The punctuation or operator token at position `i`.
pub open spec fn scan_symbol(s: Seq<char>, i: int) -> Result<(TokenView, int), LexFailure> {
    let c = s[i];
    let followed = char_at(s, i + 1, '=');
    if c == '(' {
        Ok((TokenView::LParen, i + 1))
    } else if c == ')' {
        Ok((TokenView::RParen, i + 1))
    } else if c == '{' {
        Ok((TokenView::LBrace, i + 1))
    } else if c == '}' {
        Ok((TokenView::RBrace, i + 1))
    } else if c == ';' {
        Ok((TokenView::Semicolon, i + 1))
    } else if c == ':' {
        Ok((TokenView::Colon, i + 1))
    } else if c == ',' {
        Ok((TokenView::Comma, i + 1))
    } else if c == '.' {
        Ok((TokenView::Dot, i + 1))
    } else if c == '=' {
        if followed {
            Ok((TokenView::EqEq, i + 2))
        } else {
            Ok((TokenView::Eq, i + 1))
        }
    } else if c == '<' {
        if followed {
            Ok((TokenView::LessEq, i + 2))
        } else {
            Ok((TokenView::Less, i + 1))
        }
    } else if c == '>' {
        if followed {
            Ok((TokenView::GreaterEq, i + 2))
        } else {
            Ok((TokenView::Greater, i + 1))
        }
    } else if c == '!' && followed {
        Ok((TokenView::NotEq, i + 2))
    } else {
        Err(LexFailure { kind: LexErrorKind::UnrecognizedCharacter, start: i, end: i + 1 })
    }
}

/// The longest token that starts at position `i` of `s`, which holds a
/// character that is no white space, together with the position after it.
pub open spec fn scan_token(s: Seq<char>, i: int) -> Result<(TokenView, int), LexFailure> {
    let c = s[i];
    if c == '"' {
        scan_string(s, i)
    } else if is_digit(c) {
        scan_number(s, i)
    } else if is_word_start(c) {
        let e = run_end(s, i, CharClass::Word);
        Ok((keyword_or_ident(s.subrange(i, e)), e))
    } else {
        scan_symbol(s, i)
    }
}

/// A token ends after the position it starts at, and inside the text; a
/// failure covers a range that is not empty.
pub proof fn lemma_scan_token_advances(s: Seq<char>, i: int)
    requires
        0 <= i < s.len(),
    ensures
        match scan_token(s, i) {
            Ok((_, next)) => i < next <= s.len(),
            Err(f) => i == f.start && f.start < f.end <= s.len(),
        },
{
    lemma_run_end(s, i, CharClass::Digit);
    lemma_run_end(s, i, CharClass::Word);
    lemma_run_end(s, i + 1, CharClass::Quoted);
    let d = run_end(s, i, CharClass::Digit);
    if d + 1 <= s.len() {
        lemma_run_end(s, d + 1, CharClass::Digit);
    }
}

/// The tokens of `s` from position `i` on, appended to `acc`: white space is
/// skipped, and each token is the longest one at its position.
pub open spec fn lex_from(s: Seq<char>, i: int, acc: Seq<TokenView>) -> Result<
    Seq<TokenView>,
    LexFailure,
>
    decreases s.len() - i,
    when 0 <= i <= s.len()
{
    let j = run_end(s, i, CharClass::Space);
    if j >= s.len() {
        Ok(acc)
    } else {
        match scan_token(s, j) {
            Err(f) => Err(f),
            Ok((t, next)) => {
                proof {
                    lemma_run_end(s, i, CharClass::Space);
                    lemma_scan_token_advances(s, j);
                }
                lex_from(s, next, acc.push(t))
            },
        }
    }
}

/// The tokens of a text, or the first failure.
pub open spec fn lex(s: Seq<char>) -> Result<Seq<TokenView>, LexFailure> {
    lex_from(s, 0, Seq::empty())
}

/// The token for a maximal run of word characters.
pub fn classify_word(word: &str) -> (t: Token)
    ensures
        t@ == keyword_or_ident(word@),
{
    if str_eq(word, "true") {
        Token::Bool(true)
    } else if str_eq(word, "false") {
        Token::Bool(false)
    } else if str_eq(word, "fn") || str_eq(word, "func") || str_eq(word, "Fn") || str_eq(
        word,
        "Func",
    ) {
        Token::Func
    } else if str_eq(word, "return") || str_eq(word, "Return") {
        Token::Return
    } else if str_eq(word, "let") {
        Token::Let
    } else if str_eq(word, "use") {
        Token::Use
    } else if str_eq(word, "void") || str_eq(word, "Void") {
        Token::Void
    } else if str_eq(word, "if") {
        Token::If
    } else if str_eq(word, "else") {
        Token::Else
    } else if str_eq(word, "elif") {
        Token::Elif
    } else if str_eq(word, "i32") {
        Token::I32Type
    } else if str_eq(word, "i64") {
        Token::I64Type
    } else if str_eq(word, "f32") {
        Token::F32Type
    } else if str_eq(word, "f64") {
        Token::F64Type
    } else if str_eq(word, "String") || str_eq(word, "string") {
        Token::StringType
    } else if str_eq(word, "bool") || str_eq(word, "Bool") {
        Token::BoolType
    } else {
        Token::Ident(String::from_str(word))
    }
}

fn has_char(chars: &Vec<char>, i: usize, c: char) -> (r: bool)
    ensures
        r == char_at(chars@, i as int, c),
{
    i < chars.len() && chars[i] == c
}

fn has_suffix(chars: &Vec<char>, i: usize, a: char, b: char, c: char) -> (r: bool)
    ensures
        r == suffix_at(chars@, i as int, a, b, c),
{
    chars.len() >= 3 && i <= chars.len() - 3 && chars[i] == a && chars[i + 1] == b && chars[i
        + 2] == c
}

/// A failure in character positions, as the scanner finds it.
#[derive(Clone, Copy, Debug, PartialEq, Eq, Structural)]
pub struct Span {
    pub kind: LexErrorKind,
    pub start: usize,
    pub end: usize,
}

impl View for Span {
    type V = LexFailure;

    open spec fn view(&self) -> LexFailure {
        LexFailure { kind: self.kind, start: self.start as int, end: self.end as int }
    }
}

fn number_token(input: &str, chars: &Vec<char>, ascii: bool, i: usize) -> (r: Result<
    (Token, usize),
    Span,
>)
    requires
        chars@ == input@,
        ascii == input.is_ascii(),
        i < chars.len(),
        is_digit(chars@[i as int]),
    ensures
        match r {
            Ok((t, next)) => scan_number(chars@, i as int) == Ok::<_, LexFailure>(
                (t@, next as int),
            ),
            Err(e) => scan_number(chars@, i as int) == Err::<(TokenView, int), _>(e@),
        },
{
    let d = scan_run(chars, i, CharClass::Digit);
    proof {
        lemma_run_end(chars@, i as int, CharClass::Digit);
    }
    if has_char(chars, d, '.') && d + 1 < chars.len() && char_is_digit(chars[d + 1]) {
        let f = scan_run(chars, d + 1, CharClass::Digit);
        if has_suffix(chars, f, 'f', '6', '4') {
            Ok((Token::Float64(text_of(input, ascii, i, f)), f + 3))
        } else if has_suffix(chars, f, 'f', '3', '2') {
            Ok((Token::Float32(text_of(input, ascii, i, f)), f + 3))
        } else {
            Ok((Token::DefaultFloat(text_of(input, ascii, i, f)), f))
        }
    } else if has_suffix(chars, d, 'i', '6', '4') {
        match parse_decimal(chars, i, d, 0x7fff_ffff_ffff_ffff) {
            Some(v) => Ok((Token::Integer64(v as i64), d + 3)),
            None => Err(Span { kind: LexErrorKind::IntegerOutOfRange, start: i, end: d + 3 }),
        }
    } else {
        match parse_decimal(chars, i, d, 0x7fff_ffff) {
            Some(v) => Ok((Token::Integer(v as i32), d)),
            None => Err(Span { kind: LexErrorKind::IntegerOutOfRange, start: i, end: d }),
        }
    }
}

fn symbol_token(chars: &Vec<char>, i: usize) -> (r: Result<(Token, usize), Span>)
    requires
        i < chars.len(),
    ensures
        match r {
            Ok((t, next)) => scan_symbol(chars@, i as int) == Ok::<_, LexFailure>(
                (t@, next as int),
            ),
            Err(e) => scan_symbol(chars@, i as int) == Err::<(TokenView, int), _>(e@),
        },
{
    let c = chars[i];
    let followed = has_char(chars, i + 1, '=');
    if c == '(' {
        Ok((Token::LParen, i + 1))
    } else if c == ')' {
        Ok((Token::RParen, i + 1))
    } else if c == '{' {
        Ok((Token::LBrace, i + 1))
    } else if c == '}' {
        Ok((Token::RBrace, i + 1))
    } else if c == ';' {
        Ok((Token::Semicolon, i + 1))
    } else if c == ':' {
        Ok((Token::Colon, i + 1))
    } else if c == ',' {
        Ok((Token::Comma, i + 1))
    } else if c == '.' {
        Ok((Token::Dot, i + 1))
    } else if c == '=' {
        if followed {
            Ok((Token::EqEq, i + 2))
        } else {
            Ok((Token::Eq, i + 1))
        }
    } else if c == '<' {
        if followed {
            Ok((Token::LessEq, i + 2))
        } else {
            Ok((Token::Less, i + 1))
        }
    } else if c == '>' {
        if followed {
            Ok((Token::GreaterEq, i + 2))
        } else {
            Ok((Token::Greater, i + 1))
        }
    } else if c == '!' && followed {
        Ok((Token::NotEq, i + 2))
    } else {
        Err(Span { kind: LexErrorKind::UnrecognizedCharacter, start: i, end: i + 1 })
    }
}

/// The longest token at position `i` of the text and the position after it.
/// `chars` holds the characters of `input`.
pub fn next_token(input: &str, chars: &Vec<char>, ascii: bool, i: usize) -> (r: Result<
    (Token, usize),
    Span,
>)
    requires
        chars@ == input@,
        ascii == input.is_ascii(),
        i < chars.len(),
    ensures
        match r {
            Ok((t, next)) => scan_token(chars@, i as int) == Ok::<_, LexFailure>(
                (t@, next as int),
            ),
            Err(e) => scan_token(chars@, i as int) == Err::<(TokenView, int), _>(e@),
        },
{
    let c = chars[i];
    if c == '"' {
        let j = scan_run(chars, i + 1, CharClass::Quoted);
        if j < chars.len() {
            Ok((Token::String(text_of(input, ascii, i + 1, j)), j + 1))
        } else {
            Err(Span { kind: LexErrorKind::UnterminatedString, start: i, end: chars.len() })
        }
    } else if char_is_digit(c) {
        number_token(input, chars, ascii, i)
    } else if char_is_word_start(c) {
        let e = scan_run(chars, i, CharClass::Word);
        Ok((classify_word(slice_of(input, ascii, i, e)), e))
    } else {
        symbol_token(chars, i)
    }
}

/// Splits a source text into its tokens.
///
/// The result is the token sequence that `lex` defines for the characters of
/// the text. Where the text holds a character that starts no token, a string
/// literal that is not closed or an integer literal that does not fit its
/// type, the result is the first such failure with its byte range, which is
/// not empty and lies within the text.
#[allow(non_snake_case)]
pub fn tokenizeFile(input: &str) -> (r: Result<Vec<Token>, LexError>)
    ensures
        match r {
            Ok(tokens) => lex(input@) == Ok::<_, LexFailure>(view_tokens(tokens@)),
            Err(e) => match lex(input@) {
                Ok(_) => false,
                Err(f) => e == located(input@, f),
            },
        },
        r matches Err(e) ==> e.start < e.end <= byte_offset(input@, input@.len() as int),
{
    let chars = chars_of(input);
    let ascii = input.is_ascii();
    let mut tokens: Vec<Token> = Vec::new();
    let mut i: usize = 0;
    assert(view_tokens(tokens@) =~= Seq::<TokenView>::empty());
    loop
        invariant
            chars@ == input@,
            ascii == input.is_ascii(),
            i <= chars.len(),
            lex_from(chars@, i as int, view_tokens(tokens@)) == lex(chars@),
        decreases chars.len() - i,
    {
        let j = scan_run(&chars, i, CharClass::Space);
        if j >= chars.len() {
            return Ok(tokens);
        }
        proof {
            lemma_scan_token_advances(chars@, j as int);
        }
        match next_token(input, &chars, ascii, j) {
            Ok((t, next)) => {
                let ghost before = view_tokens(tokens@);
                tokens.push(t);
                assert(view_tokens(tokens@) =~= before.push(t@));
                i = next;
            },
            Err(e) => {
                let start = byte_offset_of(input, e.start);
                let end = byte_offset_of(input, e.end);
                proof {
                    lemma_byte_offset_grows(input@, e.start as int, e.end as int);
                    lemma_byte_offset_grows(input@, e.end as int, input@.len() as int);
                }
                return Err(LexError { kind: e.kind, start, end });
            },
        }
    }
}

} // verus!
