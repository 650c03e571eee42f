use magolor_compiler::ast::{ASTValue, AST};
use magolor_compiler::grammar::{Expected, ParseError};
use magolor_compiler::parser::{
    found_token, parseTokens, parse_condition, parse_let_statement, parse_single_statement,
    parse_value, token_to_type_string,
};
use magolor_compiler::tokenizer::{tokenizeFile, Token};

fn tokens(src: &str) -> Vec<Token> {
    tokenizeFile(src).expect("the text should lex")
}

fn parse(src: &str) -> Result<Vec<AST>, ParseError> {
    parseTokens(&tokens(src))
}

fn failure(expected: Expected, position: usize) -> Result<Vec<AST>, ParseError> {
    Err(ParseError { expected, position })
}

fn var(name: &str) -> ASTValue {
    ASTValue::VarRef(name.to_string())
}

fn decl(ty: &str, name: &str, value: ASTValue) -> AST {
    AST::VarDecl(ty.to_string(), name.to_string(), value)
}

#[test]
fn declaration_with_type_and_separator() {
    assert_eq!(
        parse("let i32 x = 5;"),
        Ok(vec![decl("i32", "x", ASTValue::Int(5)), AST::NewLine])
    );
}

#[test]
fn declaration_from_explicit_tokens() {
    let ts = vec![
        Token::Let,
        Token::I32Type,
        Token::Ident("x".to_string()),
        Token::Eq,
        Token::Integer(5),
        Token::Semicolon,
    ];
    assert_eq!(
        parseTokens(&ts),
        Ok(vec![decl("i32", "x", ASTValue::Int(5)), AST::NewLine])
    );
    assert_eq!(
        parse_let_statement(&ts, 0),
        Ok((decl("i32", "x", ASTValue::Int(5)), 5))
    );
}

#[test]
fn empty_input_is_an_empty_program() {
    assert_eq!(parse(""), Ok(vec![]));
}

#[test]
fn declaration_infers_the_type_of_a_literal() {
    assert_eq!(parse("let x = 5"), Ok(vec![decl("i32", "x", ASTValue::Int(5))]));
    assert_eq!(parse("let y = 7i64"), Ok(vec![decl("i64", "y", ASTValue::Int64(7))]));
    assert_eq!(
        parse("let f = 1.5"),
        Ok(vec![decl("f32", "f", ASTValue::Float32("1.5".to_string()))])
    );
    assert_eq!(
        parse("let f = 1.5f32"),
        Ok(vec![decl("f32", "f", ASTValue::Float32("1.5".to_string()))])
    );
    assert_eq!(
        parse("let g = 2.5f64"),
        Ok(vec![decl("f64", "g", ASTValue::Float64("2.5".to_string()))])
    );
    assert_eq!(
        parse("let s = \"hi\""),
        Ok(vec![decl("string", "s", ASTValue::Str("hi".to_string()))])
    );
    assert_eq!(parse("let b = true"), Ok(vec![decl("bool", "b", ASTValue::Bool(true))]));
}

#[test]
fn declaration_from_a_variable_or_a_call_is_auto() {
    assert_eq!(parse("let v = w"), Ok(vec![decl("auto", "v", var("w"))]));
    assert_eq!(
        parse("let r = add(1, 2)"),
        Ok(vec![decl(
            "auto",
            "r",
            ASTValue::FuncCall {
                name: "add".to_string(),
                args: vec![ASTValue::Int(1), ASTValue::Int(2)],
            }
        )])
    );
}

#[test]
fn declaration_with_a_named_type() {
    assert_eq!(parse("let str s = t"), Ok(vec![decl("str", "s", var("t"))]));
    assert_eq!(
        parse("let String s = \"a\""),
        Ok(vec![decl("string", "s", ASTValue::Str("a".to_string()))])
    );
}

#[test]
fn declaration_takes_a_comparison() {
    assert_eq!(
        parse("let i32 c = a < b;"),
        Ok(vec![
            decl("i32", "c", ASTValue::LessThan(Box::new(var("a")), Box::new(var("b")))),
            AST::NewLine,
        ])
    );
    assert_eq!(
        parse("let c = a == 1"),
        Ok(vec![decl(
            "auto",
            "c",
            ASTValue::EqualEqual(Box::new(var("a")), Box::new(ASTValue::Int(1)))
        )])
    );
}

#[test]
fn each_comparison_operator_has_its_node() {
    let ts = tokens("a < b a > b a = b a == b a != b a <= b a >= b");
    let a = || Box::new(var("a"));
    let b = || Box::new(var("b"));
    assert_eq!(parse_condition(&ts, 0), Ok((ASTValue::LessThan(a(), b()), 3)));
    assert_eq!(parse_condition(&ts, 3), Ok((ASTValue::GreaterThan(a(), b()), 6)));
    assert_eq!(parse_condition(&ts, 6), Ok((ASTValue::Equal(a(), b()), 9)));
    assert_eq!(parse_condition(&ts, 9), Ok((ASTValue::EqualEqual(a(), b()), 12)));
    assert_eq!(parse_condition(&ts, 12), Ok((ASTValue::NotEqual(a(), b()), 15)));
    assert_eq!(parse_condition(&ts, 15), Ok((ASTValue::LessEqual(a(), b()), 18)));
    assert_eq!(parse_condition(&ts, 18), Ok((ASTValue::GreaterEqual(a(), b()), 21)));
}

#[test]
fn comparisons_do_not_chain() {
    let ts = tokens("a < b < c");
    assert_eq!(
        parse_condition(&ts, 0),
        Ok((ASTValue::LessThan(Box::new(var("a")), Box::new(var("b"))), 3))
    );
}

#[test]
fn condition_may_stand_in_parentheses() {
    let ts = tokens("(a < 5)");
    assert_eq!(
        parse_condition(&ts, 0),
        Ok((ASTValue::LessThan(Box::new(var("a")), Box::new(ASTValue::Int(5))), 5))
    );
    let ts = tokens("(a)");
    assert_eq!(parse_condition(&ts, 0), Ok((var("a"), 3)));
    let ts = tokens("(a < 5 {");
    assert_eq!(
        parse_condition(&ts, 0),
        Err(ParseError { expected: Expected::CloseParen, position: 4 })
    );
}

#[test]
fn import_statement() {
    assert_eq!(
        parse("use io;"),
        Ok(vec![AST::Import("io".to_string()), AST::NewLine])
    );
    assert_eq!(parse("use 5"), failure(Expected::PackageName, 1));
    assert_eq!(parse("use"), failure(Expected::PackageName, 1));
}

#[test]
fn conditional_with_elif_and_else() {
    let ast = parse("if (x < 5) { y } elif x == 1 { z } else { w }").unwrap();
    assert_eq!(
        ast,
        vec![AST::If {
            condition: ASTValue::LessThan(Box::new(var("x")), Box::new(ASTValue::Int(5))),
            then_body: vec![AST::VarRef("y".to_string())],
            elif_branches: vec![(
                ASTValue::EqualEqual(Box::new(var("x")), Box::new(ASTValue::Int(1))),
                vec![AST::VarRef("z".to_string())],
            )],
            else_body: Some(vec![AST::VarRef("w".to_string())]),
        }]
    );
    match &ast[0] {
        AST::If { elif_branches, else_body, .. } => {
            assert_eq!(elif_branches.len(), 1);
            assert!(else_body.is_some());
        }
        other => panic!("not a conditional: {:?}", other),
    }
}

#[test]
fn conditional_without_else() {
    assert_eq!(
        parse("if true { } x"),
        Ok(vec![
            AST::If {
                condition: ASTValue::Bool(true),
                then_body: vec![],
                elif_branches: vec![],
                else_body: None,
            },
            AST::VarRef("x".to_string()),
        ])
    );
}

#[test]
fn conditional_with_two_elifs() {
    let ast = parse("if a { } elif b { 1 } elif c { 2 }").unwrap();
    assert_eq!(
        ast,
        vec![AST::If {
            condition: var("a"),
            then_body: vec![],
            elif_branches: vec![
                (var("b"), vec![AST::Literal(ASTValue::Int(1))]),
                (var("c"), vec![AST::Literal(ASTValue::Int(2))]),
            ],
            else_body: None,
        }]
    );
}

#[test]
fn nested_conditional() {
    assert_eq!(
        parse("if a { if b { x } else { y } }"),
        Ok(vec![AST::If {
            condition: var("a"),
            then_body: vec![AST::If {
                condition: var("b"),
                then_body: vec![AST::VarRef("x".to_string())],
                elif_branches: vec![],
                else_body: Some(vec![AST::VarRef("y".to_string())]),
            }],
            elif_branches: vec![],
            else_body: None,
        }])
    );
}

#[test]
fn bare_braces_are_counted_and_flattened() {
    assert_eq!(
        parse("fn f() { { x } y }"),
        Ok(vec![AST::FuncDef {
            name: "f".to_string(),
            params: vec![],
            return_type: None,
            body: vec![AST::VarRef("x".to_string()), AST::VarRef("y".to_string())],
        }])
    );
}

#[test]
fn unterminated_body_is_a_failure() {
    assert_eq!(parse("fn f() { x"), failure(Expected::CloseBrace, 6));
    assert_eq!(parse("fn f() { { x }"), failure(Expected::CloseBrace, 8));
    assert_eq!(parse("if a { x"), failure(Expected::CloseBrace, 4));
    assert_eq!(parse("i32 fn f() { x"), failure(Expected::CloseBrace, 7));
}

#[test]
fn function_with_return_type_and_parameters() {
    assert_eq!(
        parse("i32 fn add(i32: a, i64: b) { return a; }"),
        Ok(vec![AST::FuncDef {
            name: "add".to_string(),
            params: vec![
                ("a".to_string(), "i32".to_string()),
                ("b".to_string(), "i64".to_string()),
            ],
            return_type: Some("i32".to_string()),
            body: vec![AST::Return(var("a")), AST::NewLine],
        }])
    );
}

#[test]
fn function_without_return_type() {
    assert_eq!(
        parse("fn main() {}"),
        Ok(vec![AST::FuncDef {
            name: "main".to_string(),
            params: vec![],
            return_type: None,
            body: vec![],
        }])
    );
}

#[test]
fn every_return_type_keyword() {
    for (src, name) in [
        ("i32", "i32"),
        ("i64", "i64"),
        ("f32", "f32"),
        ("f64", "f64"),
        ("void", "void"),
        ("string", "string"),
        ("bool", "bool"),
    ] {
        assert_eq!(
            parse(&format!("{} func f() {{}}", src)),
            Ok(vec![AST::FuncDef {
                name: "f".to_string(),
                params: vec![],
                return_type: Some(name.to_string()),
                body: vec![],
            }])
        );
    }
}

#[test]
fn parameters_need_no_comma() {
    assert_eq!(
        parse("fn f(i32: a bool: b) {}"),
        Ok(vec![AST::FuncDef {
            name: "f".to_string(),
            params: vec![
                ("a".to_string(), "i32".to_string()),
                ("b".to_string(), "bool".to_string()),
            ],
            return_type: None,
            body: vec![],
        }])
    );
}

#[test]
fn two_functions() {
    let ast = parse("fn a() {} fn b() {}").unwrap();
    assert_eq!(ast.len(), 2);
}

#[test]
fn return_takes_a_literal_a_variable_or_a_call() {
    assert_eq!(parse("return 5"), Ok(vec![AST::Return(ASTValue::Int(5))]));
    assert_eq!(parse("return 5i64"), Ok(vec![AST::Return(ASTValue::Int64(5))]));
    assert_eq!(
        parse("return \"s\""),
        Ok(vec![AST::Return(ASTValue::Str("s".to_string()))])
    );
    assert_eq!(parse("return false"), Ok(vec![AST::Return(ASTValue::Bool(false))]));
    assert_eq!(
        parse("return 1.5"),
        Ok(vec![AST::Return(ASTValue::Float32("1.5".to_string()))])
    );
    assert_eq!(
        parse("return 1.5f64"),
        Ok(vec![AST::Return(ASTValue::Float64("1.5".to_string()))])
    );
    assert_eq!(parse("return x"), Ok(vec![AST::Return(var("x"))]));
    assert_eq!(
        parse("return f(1, g(2), y)"),
        Ok(vec![AST::Return(ASTValue::FuncCall {
            name: "f".to_string(),
            args: vec![
                ASTValue::Int(1),
                ASTValue::FuncCall { name: "g".to_string(), args: vec![ASTValue::Int(2)] },
                var("y"),
            ],
        })])
    );
}

#[test]
fn return_takes_no_comparison() {
    assert_eq!(parse("return a < b"), failure(Expected::Statement, 2));
    assert_eq!(parse("return"), failure(Expected::Value, 1));
    assert_eq!(parse("return ;"), failure(Expected::Value, 1));
}

#[test]
fn call_arguments_take_comparisons_and_need_no_comma() {
    let ts = tokens("f(a < 1, 2 3)");
    assert_eq!(
        parse_value(&ts, 0),
        Ok((
            ASTValue::FuncCall {
                name: "f".to_string(),
                args: vec![
                    ASTValue::LessThan(Box::new(var("a")), Box::new(ASTValue::Int(1))),
                    ASTValue::Int(2),
                    ASTValue::Int(3),
                ],
            },
            9
        ))
    );
    let ts = tokens("f()");
    assert_eq!(
        parse_value(&ts, 0),
        Ok((ASTValue::FuncCall { name: "f".to_string(), args: vec![] }, 3))
    );
}

#[test]
fn built_in_call_statement() {
    assert_eq!(
        parse("console.print(\"hi\", x, 5, 6i64, 1.5, 2.5f64, true);"),
        Ok(vec![
            AST::Call {
                object: "console".to_string(),
                method: "print".to_string(),
                args: vec![
                    AST::Literal(ASTValue::Str("hi".to_string())),
                    AST::VarRef("x".to_string()),
                    AST::Literal(ASTValue::Int(5)),
                    AST::Literal(ASTValue::Int64(6)),
                    AST::Literal(ASTValue::Float32("1.5".to_string())),
                    AST::Literal(ASTValue::Float64("2.5".to_string())),
                    AST::Literal(ASTValue::Bool(true)),
                ],
            },
            AST::NewLine,
        ])
    );
    assert_eq!(
        parse("other.thing()"),
        Ok(vec![AST::Call {
            object: "other".to_string(),
            method: "thing".to_string(),
            args: vec![],
        }])
    );
}

#[test]
fn built_in_call_takes_no_nested_call() {
    assert_eq!(parse("console.print(f(1))"), failure(Expected::Argument, 5));
    assert_eq!(parse("console.print(a < b)"), failure(Expected::Argument, 5));
    assert_eq!(parse("console.print(1"), failure(Expected::CloseParen, 5));
}

#[test]
fn expression_statements() {
    assert_eq!(
        parse("x 5 \"s\" true 1.5 2i64"),
        Ok(vec![
            AST::VarRef("x".to_string()),
            AST::Literal(ASTValue::Int(5)),
            AST::Literal(ASTValue::Str("s".to_string())),
            AST::Literal(ASTValue::Bool(true)),
            AST::Literal(ASTValue::Float32("1.5".to_string())),
            AST::Literal(ASTValue::Int64(2)),
        ])
    );
}

#[test]
fn single_statement_reports_where_it_ends() {
    let ts = tokens("x ; y");
    assert_eq!(parse_single_statement(&ts, 0), Ok((AST::VarRef("x".to_string()), 1)));
    assert_eq!(parse_single_statement(&ts, 1), Ok((AST::NewLine, 2)));
    assert_eq!(
        parse_single_statement(&ts, 3),
        Err(ParseError { expected: Expected::Statement, position: 3 })
    );
}

#[test]
fn type_names_of_tokens() {
    assert_eq!(token_to_type_string(&Token::I32Type), Some("i32".to_string()));
    assert_eq!(token_to_type_string(&Token::I64Type), Some("i64".to_string()));
    assert_eq!(token_to_type_string(&Token::F32Type), Some("f32".to_string()));
    assert_eq!(token_to_type_string(&Token::F64Type), Some("f64".to_string()));
    assert_eq!(token_to_type_string(&Token::StringType), Some("string".to_string()));
    assert_eq!(token_to_type_string(&Token::BoolType), Some("bool".to_string()));
    assert_eq!(
        token_to_type_string(&Token::Ident("T".to_string())),
        Some("T".to_string())
    );
    assert_eq!(token_to_type_string(&Token::Void), None);
    assert_eq!(token_to_type_string(&Token::Let), None);
}

#[test]
fn missing_value() {
    assert_eq!(parse("let x ="), failure(Expected::Value, 3));
    assert_eq!(parse("let x = )"), failure(Expected::Value, 3));
    assert_eq!(parse("let x = a <"), failure(Expected::Value, 5));
    assert_eq!(parse("if { }"), failure(Expected::Value, 1));
}

#[test]
fn malformed_declaration() {
    assert_eq!(parse("let"), failure(Expected::TypeOrName, 1));
    assert_eq!(parse("let 5"), failure(Expected::TypeOrName, 1));
    assert_eq!(parse("let x"), failure(Expected::NameOrAssign, 2));
    assert_eq!(parse("let x 5"), failure(Expected::NameOrAssign, 2));
    assert_eq!(parse("let i32 x 5"), failure(Expected::Assign, 3));
    assert_eq!(parse("let i32 x"), failure(Expected::Assign, 3));
}

#[test]
fn missing_punctuation() {
    assert_eq!(parse("let x = f(1"), failure(Expected::CloseParen, 6));
    assert_eq!(parse("if (a < b { }"), failure(Expected::CloseParen, 5));
    assert_eq!(parse("if a < b x"), failure(Expected::OpenBrace, 4));
    assert_eq!(parse("if a { } else x"), failure(Expected::OpenBrace, 5));
    assert_eq!(parse("if a { } elif b x"), failure(Expected::OpenBrace, 6));
    assert_eq!(parse("console.5"), failure(Expected::MethodName, 2));
    assert_eq!(parse("console."), failure(Expected::MethodName, 2));
    assert_eq!(parse("console.print x"), failure(Expected::OpenParen, 3));
}

#[test]
fn malformed_function() {
    assert_eq!(parse("fn ("), failure(Expected::FunctionName, 1));
    assert_eq!(parse("fn"), failure(Expected::FunctionName, 1));
    assert_eq!(parse("i32 fn 5"), failure(Expected::FunctionName, 2));
    assert_eq!(parse("fn f {"), failure(Expected::OpenParen, 2));
    assert_eq!(parse("fn f(5"), failure(Expected::ParameterType, 3));
    assert_eq!(parse("fn f("), failure(Expected::ParameterType, 3));
    assert_eq!(parse("fn f(i32 a)"), failure(Expected::Colon, 4));
    assert_eq!(parse("fn f(i32: 5)"), failure(Expected::ParameterName, 5));
    assert_eq!(parse("fn f() x"), failure(Expected::OpenBrace, 4));
}

#[test]
fn unexpected_token_in_statement_position() {
    assert_eq!(parse(")"), failure(Expected::Statement, 0));
    assert_eq!(parse("i32 x"), failure(Expected::Statement, 0));
    assert_eq!(parse("x = 5"), failure(Expected::Statement, 1));
    assert_eq!(parse("fn f() { fn g() {} }"), failure(Expected::Statement, 5));
    assert_eq!(parse("else { }"), failure(Expected::Statement, 0));
}

#[test]
fn the_first_parse_failure_is_reported() {
    assert_eq!(parse("let x = 1; ) let"), failure(Expected::Statement, 5));
}

#[test]
fn failure_names_the_token_found() {
    let ts = tokens("let i32 x 5");
    let e = parseTokens(&ts).unwrap_err();
    assert_eq!(e, ParseError { expected: Expected::Assign, position: 3 });
    assert_eq!(found_token(&ts, &e), Some(&Token::Integer(5)));
    let ts = tokens("let i32 x");
    let e = parseTokens(&ts).unwrap_err();
    assert_eq!(e, ParseError { expected: Expected::Assign, position: 3 });
    assert_eq!(found_token(&ts, &e), None);
}
