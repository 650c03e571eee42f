use magolor_compiler::canonical::{canonical, decimal_string, is_well_formed};
use magolor_compiler::tokenizer::{tokenizeFile, Token};

fn every_kind() -> Vec<Token> {
    vec![
        Token::String("hi there".to_string()),
        Token::String(String::new()),
        Token::Float64("10.25".to_string()),
        Token::Float32("0.5".to_string()),
        Token::DefaultFloat("3.0".to_string()),
        Token::Integer64(9223372036854775807),
        Token::Integer64(0),
        Token::Integer(2147483647),
        Token::Integer(0),
        Token::Bool(true),
        Token::Bool(false),
        Token::Func,
        Token::Return,
        Token::Let,
        Token::Use,
        Token::Void,
        Token::If,
        Token::Else,
        Token::Elif,
        Token::Greater,
        Token::Less,
        Token::NotEq,
        Token::LessEq,
        Token::GreaterEq,
        Token::EqEq,
        Token::I32Type,
        Token::I64Type,
        Token::F32Type,
        Token::F64Type,
        Token::StringType,
        Token::BoolType,
        Token::LParen,
        Token::RParen,
        Token::LBrace,
        Token::RBrace,
        Token::Semicolon,
        Token::Colon,
        Token::Eq,
        Token::Comma,
        Token::Dot,
        Token::Ident("x".to_string()),
        Token::Ident("_snake_case9".to_string()),
    ]
}

#[test]
fn canonical_text_of_every_kind() {
    let texts: Vec<String> = every_kind()
        .iter()
        .map(|t| canonical(t).expect("the token is well formed"))
        .collect();
    assert_eq!(
        texts,
        vec![
            "\"hi there\"",
            "\"\"",
            "10.25f64",
            "0.5f32",
            "3.0",
            "9223372036854775807i64",
            "0i64",
            "2147483647",
            "0",
            "true",
            "false",
            "fn",
            "return",
            "let",
            "use",
            "void",
            "if",
            "else",
            "elif",
            ">",
            "<",
            "!=",
            "<=",
            ">=",
            "==",
            "i32",
            "i64",
            "f32",
            "f64",
            "string",
            "bool",
            "(",
            ")",
            "{",
            "}",
            ";",
            ":",
            "=",
            ",",
            ".",
            "x",
            "_snake_case9",
        ]
    );
}

#[test]
fn lexing_the_canonical_text_gives_the_token_back() {
    for t in every_kind() {
        let text = canonical(&t).expect("the token is well formed");
        assert_eq!(tokenizeFile(&text), Ok(vec![t]));
    }
}

#[test]
fn lexing_the_spaced_canonical_texts_gives_the_tokens_back() {
    let tokens = every_kind();
    let mut text = String::new();
    for t in &tokens {
        text.push_str(&canonical(t).expect("the token is well formed"));
        text.push(' ');
    }
    assert_eq!(tokenizeFile(&text), Ok(tokens));
}

#[test]
fn lexing_twice_gives_the_same_tokens() {
    let source = "i32 fn add(i32: a, i64: b) {\n\tlet f = 1.5f64; if (a <= 2) { return \"x\"; }\n}";
    let first = tokenizeFile(source).unwrap();
    let mut text = String::new();
    for t in &first {
        assert!(is_well_formed(t));
        text.push_str(&canonical(t).unwrap());
        text.push(' ');
    }
    assert_eq!(tokenizeFile(&text), Ok(first));
}

#[test]
fn tokens_that_the_lexer_never_gives_have_no_canonical_text() {
    let odd = vec![
        Token::String("a\"b".to_string()),
        Token::Float32("1".to_string()),
        Token::Float64(".5".to_string()),
        Token::DefaultFloat("1.".to_string()),
        Token::DefaultFloat("1.5x".to_string()),
        Token::DefaultFloat(String::new()),
        Token::Integer(-1),
        Token::Integer64(-5),
        Token::Ident(String::new()),
        Token::Ident("9lives".to_string()),
        Token::Ident("two words".to_string()),
        Token::Ident("let".to_string()),
        Token::Ident("Func".to_string()),
        Token::Ident("true".to_string()),
    ];
    for t in odd {
        assert!(!is_well_formed(&t), "{:?}", t);
        assert_eq!(canonical(&t), None);
    }
}

#[test]
fn decimal_numerals() {
    assert_eq!(decimal_string(0), "0");
    assert_eq!(decimal_string(7), "7");
    assert_eq!(decimal_string(10), "10");
    assert_eq!(decimal_string(1234567890), "1234567890");
    assert_eq!(decimal_string(18446744073709551615), "18446744073709551615");
}
