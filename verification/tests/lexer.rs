use magolor_compiler::tokenizer::{tokenizeFile, LexError, LexErrorKind, Token};

fn lex(src: &str) -> Vec<Token> {
    tokenizeFile(src).expect("the text should lex")
}

#[test]
fn lexes_a_declaration() {
    assert_eq!(
        lex("let i32 x = 5;"),
        vec![
            Token::Let,
            Token::I32Type,
            Token::Ident("x".to_string()),
            Token::Eq,
            Token::Integer(5),
            Token::Semicolon,
        ]
    );
}

#[test]
fn empty_text_has_no_tokens() {
    assert_eq!(lex(""), Vec::<Token>::new());
    assert_eq!(lex(" \t\n\r\u{c} "), Vec::<Token>::new());
}

#[test]
fn integer_without_suffix_is_32_bit() {
    assert_eq!(lex("0"), vec![Token::Integer(0)]);
    assert_eq!(lex("42"), vec![Token::Integer(42)]);
    assert_eq!(lex("007"), vec![Token::Integer(7)]);
    assert_eq!(lex("2147483647"), vec![Token::Integer(2147483647)]);
}

#[test]
fn integer_with_suffix_is_64_bit() {
    assert_eq!(lex("42i64"), vec![Token::Integer64(42)]);
    assert_eq!(lex("2147483648i64"), vec![Token::Integer64(2147483648)]);
    assert_eq!(
        lex("9223372036854775807i64"),
        vec![Token::Integer64(9223372036854775807)]
    );
}

#[test]
fn integer_out_of_range_is_reported() {
    assert_eq!(
        tokenizeFile("x 2147483648"),
        Err(LexError { kind: LexErrorKind::IntegerOutOfRange, start: 2, end: 12 })
    );
    assert_eq!(
        tokenizeFile("9223372036854775808i64"),
        Err(LexError { kind: LexErrorKind::IntegerOutOfRange, start: 0, end: 22 })
    );
}

#[test]
fn floats_keep_their_text() {
    assert_eq!(lex("1.5"), vec![Token::DefaultFloat("1.5".to_string())]);
    assert_eq!(lex("1.5f32"), vec![Token::Float32("1.5".to_string())]);
    assert_eq!(lex("10.25f64"), vec![Token::Float64("10.25".to_string())]);
}

#[test]
fn number_boundaries_follow_the_longest_match() {
    assert_eq!(lex("1."), vec![Token::Integer(1), Token::Dot]);
    assert_eq!(
        lex("1.5f"),
        vec![Token::DefaultFloat("1.5".to_string()), Token::Ident("f".to_string())]
    );
    assert_eq!(lex("12i6"), vec![Token::Integer(12), Token::Ident("i6".to_string())]);
    assert_eq!(
        lex("12i64x"),
        vec![Token::Integer64(12), Token::Ident("x".to_string())]
    );
    assert_eq!(lex("12abc"), vec![Token::Integer(12), Token::Ident("abc".to_string())]);
}

#[test]
fn keywords_win_over_identifiers_of_the_same_length() {
    assert_eq!(
        lex("fn func Fn Func return Return let use void Void if else elif"),
        vec![
            Token::Func,
            Token::Func,
            Token::Func,
            Token::Func,
            Token::Return,
            Token::Return,
            Token::Let,
            Token::Use,
            Token::Void,
            Token::Void,
            Token::If,
            Token::Else,
            Token::Elif,
        ]
    );
    assert_eq!(
        lex("i32 i64 f32 f64 String string bool Bool true false"),
        vec![
            Token::I32Type,
            Token::I64Type,
            Token::F32Type,
            Token::F64Type,
            Token::StringType,
            Token::StringType,
            Token::BoolType,
            Token::BoolType,
            Token::Bool(true),
            Token::Bool(false),
        ]
    );
}

#[test]
fn longer_words_are_identifiers() {
    assert_eq!(
        lex("fnx truex _let i32x"),
        vec![
            Token::Ident("fnx".to_string()),
            Token::Ident("truex".to_string()),
            Token::Ident("_let".to_string()),
            Token::Ident("i32x".to_string()),
        ]
    );
}

#[test]
fn punctuation_and_comparison_operators() {
    assert_eq!(
        lex("( ) { } ; : = , . < > <= >= == !="),
        vec![
            Token::LParen,
            Token::RParen,
            Token::LBrace,
            Token::RBrace,
            Token::Semicolon,
            Token::Colon,
            Token::Eq,
            Token::Comma,
            Token::Dot,
            Token::Less,
            Token::Greater,
            Token::LessEq,
            Token::GreaterEq,
            Token::EqEq,
            Token::NotEq,
        ]
    );
    assert_eq!(lex("<=="), vec![Token::LessEq, Token::Eq]);
    assert_eq!(lex("==="), vec![Token::EqEq, Token::Eq]);
}

#[test]
fn string_literal_has_no_escapes() {
    assert_eq!(lex("\"hi there\""), vec![Token::String("hi there".to_string())]);
    assert_eq!(lex("\"\""), vec![Token::String(String::new())]);
    assert_eq!(lex("\"a\\n\""), vec![Token::String("a\\n".to_string())]);
    assert_eq!(lex("\"h\u{e9}llo \u{4e16}\""), vec![Token::String("h\u{e9}llo \u{4e16}".to_string())]);
}

#[test]
fn unterminated_string_is_reported() {
    assert_eq!(
        tokenizeFile("let s = \"abc"),
        Err(LexError { kind: LexErrorKind::UnterminatedString, start: 8, end: 12 })
    );
}

#[test]
fn unrecognized_character_is_reported_with_its_byte_range() {
    assert_eq!(
        tokenizeFile("x @ y"),
        Err(LexError { kind: LexErrorKind::UnrecognizedCharacter, start: 2, end: 3 })
    );
    assert_eq!(
        tokenizeFile("!"),
        Err(LexError { kind: LexErrorKind::UnrecognizedCharacter, start: 0, end: 1 })
    );
    assert_eq!(
        tokenizeFile("\"\u{e9}\" \u{e9}"),
        Err(LexError { kind: LexErrorKind::UnrecognizedCharacter, start: 5, end: 7 })
    );
    assert_eq!(
        tokenizeFile("a\u{b}b"),
        Err(LexError { kind: LexErrorKind::UnrecognizedCharacter, start: 1, end: 2 })
    );
}

#[test]
fn the_first_lex_failure_is_reported() {
    assert_eq!(
        tokenizeFile("@ \"open"),
        Err(LexError { kind: LexErrorKind::UnrecognizedCharacter, start: 0, end: 1 })
    );
}

#[test]
fn carriage_return_is_white_space() {
    assert_eq!(
        lex("let x = 1;\r\nlet y = 2;\r\n"),
        lex("let x = 1;\nlet y = 2;\n")
    );
    assert_eq!(
        lex("a\r\nb"),
        vec![Token::Ident("a".to_string()), Token::Ident("b".to_string())]
    );
    assert_eq!(lex("\r"), Vec::<Token>::new());
}
