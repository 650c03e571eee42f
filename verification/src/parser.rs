//! The parser: tokens to syntax tree, by recursive descent with a cursor
//! that only moves forward. Each function computes what the grammar defines
//! at its position.

use vstd::prelude::*;
use vstd::string::*;
use crate::ast::{
    AST, ASTValue, NodeView, ValueView, lemma_call_view, lemma_if_view, lemma_nodes_view,
    view_clauses, view_nodes, view_opt_text, view_params, view_values,
};
use crate::grammar::{
    Comparison, Expected, ParseError, Parsed, arguments_at, at, block_at, braced_at, call_at,
    comparison_at, comparison_of, condition_at, declared_type, elifs_at, failure, function_at,
    if_at, inferred_type, item_at, lemma_program_failure, let_at, literal_of, params_at,
    print_argument, print_arguments_at, program, program_at, return_at, return_type_name,
    statement_at, value_at,
};
use crate::tokenizer::{Token, view_tokens};

verus! {

/// The model of a parsed expression and the position after it.
pub open spec fn value_result(r: Result<(ASTValue, usize), ParseError>) -> Parsed<ValueView> {
    match r {
        Ok((v, next)) => Ok((v@, next as int)),
        Err(e) => Err(e),
    }
}

/// The model of a parsed statement and the position after it.
pub open spec fn node_result(r: Result<(AST, usize), ParseError>) -> Parsed<NodeView> {
    match r {
        Ok((n, next)) => Ok((n@, next as int)),
        Err(e) => Err(e),
    }
}

/// The model of a parsed body and the position after it.
pub open spec fn body_result(r: Result<(Vec<AST>, usize), ParseError>) -> Parsed<Seq<NodeView>> {
    match r {
        Ok((b, next)) => Ok((view_nodes(b@), next as int)),
        Err(e) => Err(e),
    }
}

fn fail<T>(expected: Expected, position: usize) -> (r: Result<T, ParseError>)
    ensures
        r == Err::<T, _>(failure(expected, position as int)),
{
    Err(ParseError { expected, position })
}

/// The type name that a token gives in a declaration or a parameter list.
pub fn token_to_type_string(token: &Token) -> (r: Option<String>)
    ensures
        view_opt_text(r) == declared_type(token@),
{
    match token {
        Token::Ident(name) => Some(name.clone()),
        Token::I32Type => Some(String::from_str("i32")),
        Token::I64Type => Some(String::from_str("i64")),
        Token::F32Type => Some(String::from_str("f32")),
        Token::F64Type => Some(String::from_str("f64")),
        Token::StringType => Some(String::from_str("string")),
        Token::BoolType => Some(String::from_str("bool")),
        _ => None,
    }
}

/// The return type name that a token gives in front of a function keyword.
pub fn token_to_return_type(token: &Token) -> (r: Option<String>)
    ensures
        view_opt_text(r) == return_type_name(token@),
{
    match token {
        Token::I32Type => Some(String::from_str("i32")),
        Token::I64Type => Some(String::from_str("i64")),
        Token::F32Type => Some(String::from_str("f32")),
        Token::F64Type => Some(String::from_str("f64")),
        Token::Void => Some(String::from_str("void")),
        Token::StringType => Some(String::from_str("string")),
        Token::BoolType => Some(String::from_str("bool")),
        _ => None,
    }
}

/// The literal that a token stands for.
pub fn literal_value(token: &Token) -> (r: Option<ASTValue>)
    ensures
        match r {
            Some(v) => literal_of(token@) == Some(v@),
            None => literal_of(token@) is None,
        },
{
    match token {
        Token::String(s) => Some(ASTValue::Str(s.clone())),
        Token::Integer(n) => Some(ASTValue::Int(*n)),
        Token::Integer64(n) => Some(ASTValue::Int64(*n)),
        Token::Float32(s) => Some(ASTValue::Float32(s.clone())),
        Token::Float64(s) => Some(ASTValue::Float64(s.clone())),
        Token::DefaultFloat(s) => Some(ASTValue::Float32(s.clone())),
        Token::Bool(b) => Some(ASTValue::Bool(*b)),
        _ => None,
    }
}

/// The type name of a declaration without one.
pub fn infer_type(value: &ASTValue) -> (r: String)
    ensures
        r@ == inferred_type(value@),
{
    match value {
        ASTValue::Int(_) => String::from_str("i32"),
        ASTValue::Int64(_) => String::from_str("i64"),
        ASTValue::Float32(_) => String::from_str("f32"),
        ASTValue::Float64(_) => String::from_str("f64"),
        ASTValue::Str(_) => String::from_str("string"),
        ASTValue::Bool(_) => String::from_str("bool"),
        _ => String::from_str("auto"),
    }
}

fn comparison_token(token: &Token) -> (r: Option<Comparison>)
    ensures
        r == comparison_of(token@),
{
    match token {
        Token::Less => Some(Comparison::Less),
        Token::Greater => Some(Comparison::Greater),
        Token::Eq => Some(Comparison::Assign),
        Token::EqEq => Some(Comparison::EqEq),
        Token::NotEq => Some(Comparison::NotEq),
        Token::LessEq => Some(Comparison::LessEq),
        Token::GreaterEq => Some(Comparison::GreaterEq),
        _ => None,
    }
}

fn make_comparison(op: Comparison, left: ASTValue, right: ASTValue) -> (r: ASTValue)
    ensures
        r@ == crate::grammar::compare(op, left@, right@),
{
    match op {
        Comparison::Less => ASTValue::LessThan(Box::new(left), Box::new(right)),
        Comparison::Greater => ASTValue::GreaterThan(Box::new(left), Box::new(right)),
        Comparison::Assign => ASTValue::Equal(Box::new(left), Box::new(right)),
        Comparison::EqEq => ASTValue::EqualEqual(Box::new(left), Box::new(right)),
        Comparison::NotEq => ASTValue::NotEqual(Box::new(left), Box::new(right)),
        Comparison::LessEq => ASTValue::LessEqual(Box::new(left), Box::new(right)),
        Comparison::GreaterEq => ASTValue::GreaterEqual(Box::new(left), Box::new(right)),
    }
}

/// Parses a value at position `i`: a literal, a variable, or a call with its
/// arguments.
#[verifier::loop_isolation(false)]
pub fn parse_value(tokens: &[Token], i: usize) -> (r: Result<(ASTValue, usize), ParseError>)
    ensures
        value_result(r) == value_at(view_tokens(tokens@), i as int),
        r matches Ok((_, next)) ==> i < next <= tokens.len(),
    decreases tokens.len() - i, 0nat,
{
    let ghost ts = view_tokens(tokens@);
    if i >= tokens.len() {
        return fail(Expected::Value, i);
    }
    match &tokens[i] {
        Token::Ident(name) => {
            if i + 1 < tokens.len() && matches!(tokens[i + 1], Token::LParen) {
                let mut args: Vec<ASTValue> = Vec::new();
                let mut j: usize = i + 2;
                assert(view_values(args@) =~= Seq::<ValueView>::empty());
                loop
                    invariant
                        i + 2 <= j <= tokens.len(),
                        arguments_at(ts, j as int, view_values(args@)) == arguments_at(
                            ts,
                            i + 2,
                            Seq::empty(),
                        ),
                    decreases tokens.len() - j,
                {
                    if j >= tokens.len() {
                        return fail(Expected::CloseParen, j);
                    }
                    match &tokens[j] {
                        Token::RParen => {
                            proof {
                                lemma_call_view(*name, args);
                            }
                            return Ok((ASTValue::FuncCall { name: name.clone(), args }, j + 1));
                        },
                        Token::Comma => {
                            j += 1;
                        },
                        _ => match parse_comparison(tokens, j) {
                            Ok((v, next)) => {
                                let ghost before = view_values(args@);
                                args.push(v);
                                assert(view_values(args@) =~= before.push(v@));
                                j = next;
                            },
                            Err(e) => {
                                return Err(e);
                            },
                        },
                    }
                }
            } else {
                Ok((ASTValue::VarRef(name.clone()), i + 1))
            }
        },
        t => match literal_value(t) {
            Some(v) => Ok((v, i + 1)),
            None => fail(Expected::Value, i),
        },
    }
}

/// Parses a value, or two values with a comparison operator between them.
pub fn parse_comparison(tokens: &[Token], i: usize) -> (r: Result<(ASTValue, usize), ParseError>)
    ensures
        value_result(r) == comparison_at(view_tokens(tokens@), i as int),
        r matches Ok((_, next)) ==> i < next <= tokens.len(),
    decreases tokens.len() - i, 1nat,
{
    match parse_value(tokens, i) {
        Ok((left, j)) => {
            if j < tokens.len() {
                match comparison_token(&tokens[j]) {
                    Some(op) => match parse_value(tokens, j + 1) {
                        Ok((right, k)) => Ok((make_comparison(op, left, right), k)),
                        Err(e) => Err(e),
                    },
                    None => Ok((left, j)),
                }
            } else {
                Ok((left, j))
            }
        },
        Err(e) => Err(e),
    }
}

/// Parses a condition: a comparison, which may stand in parentheses.
pub fn parse_condition(tokens: &[Token], i: usize) -> (r: Result<(ASTValue, usize), ParseError>)
    ensures
        value_result(r) == condition_at(view_tokens(tokens@), i as int),
        r matches Ok((_, next)) ==> i < next <= tokens.len(),
{
    reveal(condition_at);
    if i < tokens.len() && matches!(tokens[i], Token::LParen) {
        match parse_comparison(tokens, i + 1) {
            Ok((c, k)) => {
                if k < tokens.len() && matches!(tokens[k], Token::RParen) {
                    Ok((c, k + 1))
                } else {
                    fail(Expected::CloseParen, k)
                }
            },
            Err(e) => Err(e),
        }
    } else {
        parse_comparison(tokens, i)
    }
}

/// Parses the declaration whose `let` is at `start_index`.
pub fn parse_let_statement(tokens: &[Token], start_index: usize) -> (r: Result<
    (AST, usize),
    ParseError,
>)
    requires
        start_index < tokens.len(),
    ensures
        node_result(r) == let_at(view_tokens(tokens@), start_index as int),
        r matches Ok((_, next)) ==> start_index < next <= tokens.len(),
{
    reveal(let_at);
    let j = start_index + 1;
    if j >= tokens.len() {
        return fail(Expected::TypeOrName, j);
    }
    let first = match token_to_type_string(&tokens[j]) {
        Some(s) => s,
        None => {
            return fail(Expected::TypeOrName, j);
        },
    };
    let k = j + 1;
    if k >= tokens.len() {
        return fail(Expected::NameOrAssign, k);
    }
    match &tokens[k] {
        Token::Ident(second) => {
            if k + 1 < tokens.len() && matches!(tokens[k + 1], Token::Eq) {
                match parse_comparison(tokens, k + 2) {
                    Ok((value, next)) => Ok((AST::VarDecl(first, second.clone(), value), next)),
                    Err(e) => Err(e),
                }
            } else {
                fail(Expected::Assign, k + 1)
            }
        },
        Token::Eq => match parse_comparison(tokens, k + 1) {
            Ok((value, next)) => {
                let ty = infer_type(&value);
                Ok((AST::VarDecl(ty, first, value), next))
            },
            Err(e) => Err(e),
        },
        _ => fail(Expected::NameOrAssign, k),
    }
}

fn print_argument_node(token: &Token) -> (r: Option<AST>)
    ensures
        match r {
            Some(n) => print_argument(token@) == Some(n@),
            None => print_argument(token@) is None,
        },
{
    match token {
        Token::Ident(name) => Some(AST::VarRef(name.clone())),
        t => match literal_value(t) {
            Some(v) => Some(AST::Literal(v)),
            None => None,
        },
    }
}

/// Parses the built-in call whose object name `object` is at position `i`,
/// followed by a dot.
#[verifier::loop_isolation(false)]
pub fn parse_call(tokens: &[Token], i: usize, object: &String) -> (r: Result<
    (AST, usize),
    ParseError,
>)
    requires
        i + 1 < tokens.len(),
    ensures
        node_result(r) == call_at(view_tokens(tokens@), i as int, object@),
        r matches Ok((_, next)) ==> i < next <= tokens.len(),
{
    reveal(call_at);
    let ghost ts = view_tokens(tokens@);
    if i + 2 >= tokens.len() {
        return fail(Expected::MethodName, i + 2);
    }
    match &tokens[i + 2] {
        Token::Ident(method) => {
            if !(i + 3 < tokens.len() && matches!(tokens[i + 3], Token::LParen)) {
                return fail(Expected::OpenParen, i + 3);
            }
            let mut args: Vec<AST> = Vec::new();
            let mut j: usize = i + 4;
            assert(view_nodes(args@) =~= Seq::<NodeView>::empty());
            loop
                invariant
                    i + 4 <= j <= tokens.len(),
                    print_arguments_at(ts, j as int, view_nodes(args@)) == print_arguments_at(
                        ts,
                        i + 4,
                        Seq::empty(),
                    ),
                decreases tokens.len() - j,
            {
                if j >= tokens.len() {
                    return fail(Expected::CloseParen, j);
                }
                match &tokens[j] {
                    Token::RParen => {
                        proof {
                            lemma_nodes_view(args);
                        }
                        return Ok(
                            (
                                AST::Call { object: object.clone(), method: method.clone(), args },
                                j + 1,
                            ),
                        );
                    },
                    Token::Comma => {
                        j += 1;
                    },
                    t => match print_argument_node(t) {
                        Some(a) => {
                            let ghost before = view_nodes(args@);
                            args.push(a);
                            assert(view_nodes(args@) =~= before.push(a@));
                            j += 1;
                        },
                        None => {
                            return fail(Expected::Argument, j);
                        },
                    },
                }
            }
        },
        _ => fail(Expected::MethodName, i + 2),
    }
}

/// Parses the statement that starts at position `i`.
pub fn parse_single_statement(tokens: &[Token], i: usize) -> (r: Result<(AST, usize), ParseError>)
    ensures
        node_result(r) == statement_at(view_tokens(tokens@), i as int),
        r matches Ok((_, next)) ==> i < next <= tokens.len(),
    decreases tokens.len() - i, 2nat,
{
    reveal(return_at);
    if i >= tokens.len() {
        return fail(Expected::Statement, i);
    }
    match &tokens[i] {
        Token::Let => parse_let_statement(tokens, i),
        Token::Semicolon => Ok((AST::NewLine, i + 1)),
        Token::Use => {
            if i + 1 < tokens.len() {
                match &tokens[i + 1] {
                    Token::Ident(package) => Ok((AST::Import(package.clone()), i + 2)),
                    _ => fail(Expected::PackageName, i + 1),
                }
            } else {
                fail(Expected::PackageName, i + 1)
            }
        },
        Token::If => parse_if_statement(tokens, i),
        Token::Return => match parse_value(tokens, i + 1) {
            Ok((v, next)) => Ok((AST::Return(v), next)),
            Err(e) => Err(e),
        },
        Token::Ident(name) => {
            if i + 1 < tokens.len() && matches!(tokens[i + 1], Token::Dot) {
                parse_call(tokens, i, name)
            } else {
                Ok((AST::VarRef(name.clone()), i + 1))
            }
        },
        t => match literal_value(t) {
            Some(v) => Ok((AST::Literal(v), i + 1)),
            None => fail(Expected::Statement, i),
        },
    }
}

/// Parses a body in braces whose `{` is expected at position `i`, counting
/// the braces that are open.
#[verifier::loop_isolation(false)]
pub fn parse_body(tokens: &[Token], i: usize) -> (r: Result<(Vec<AST>, usize), ParseError>)
    ensures
        body_result(r) == braced_at(view_tokens(tokens@), i as int),
        r matches Ok((_, next)) ==> i < next <= tokens.len(),
    decreases tokens.len() - i, 4nat,
{
    let ghost ts = view_tokens(tokens@);
    if !(i < tokens.len() && matches!(tokens[i], Token::LBrace)) {
        return fail(Expected::OpenBrace, i);
    }
    let mut body: Vec<AST> = Vec::new();
    let mut depth: usize = 1;
    let mut j: usize = i + 1;
    assert(view_nodes(body@) =~= Seq::<NodeView>::empty());
    loop
        invariant
            i < j <= tokens.len(),
            1 <= depth <= j - i,
            block_at(ts, j as int, depth as int, view_nodes(body@)) == block_at(
                ts,
                i + 1,
                1,
                Seq::empty(),
            ),
        decreases tokens.len() - j,
    {
        if j >= tokens.len() {
            return fail(Expected::CloseBrace, j);
        }
        match &tokens[j] {
            Token::LBrace => {
                depth += 1;
                j += 1;
            },
            Token::RBrace => {
                if depth <= 1 {
                    return Ok((body, j + 1));
                }
                depth -= 1;
                j += 1;
            },
            _ => match parse_single_statement(tokens, j) {
                Ok((node, next)) => {
                    let ghost before = view_nodes(body@);
                    body.push(node);
                    assert(view_nodes(body@) =~= before.push(node@));
                    j = next;
                },
                Err(e) => {
                    return Err(e);
                },
            },
        }
    }
}

/// Parses the conditional whose `if` is at `start_index`, with its `elif`
/// clauses and its `else` body.
#[verifier::loop_isolation(false)]
pub fn parse_if_statement(tokens: &[Token], start_index: usize) -> (r: Result<
    (AST, usize),
    ParseError,
>)
    requires
        start_index < tokens.len(),
    ensures
        node_result(r) == if_at(view_tokens(tokens@), start_index as int),
        r matches Ok((_, next)) ==> start_index < next <= tokens.len(),
    decreases tokens.len() - start_index, 1nat,
{
    let ghost ts = view_tokens(tokens@);
    let (condition, k) = match parse_condition(tokens, start_index + 1) {
        Ok(found) => found,
        Err(e) => {
            return Err(e);
        },
    };
    let (then_body, m) = match parse_body(tokens, k) {
        Ok(found) => found,
        Err(e) => {
            return Err(e);
        },
    };
    let mut elif_branches: Vec<(ASTValue, Vec<AST>)> = Vec::new();
    let mut n: usize = m;
    assert(view_clauses(elif_branches@) =~= Seq::<(ValueView, Seq<NodeView>)>::empty());
    while n < tokens.len() && matches!(tokens[n], Token::Elif)
        invariant
            m <= n <= tokens.len(),
            elifs_at(ts, n as int, view_clauses(elif_branches@)) == elifs_at(
                ts,
                m as int,
                Seq::empty(),
            ),
        decreases tokens.len() - n,
    {
        let (c, k2) = match parse_condition(tokens, n + 1) {
            Ok(found) => found,
            Err(e) => {
                return Err(e);
            },
        };
        let (body, m2) = match parse_body(tokens, k2) {
            Ok(found) => found,
            Err(e) => {
                return Err(e);
            },
        };
        let ghost before = view_clauses(elif_branches@);
        proof {
            lemma_nodes_view(body);
        }
        elif_branches.push((c, body));
        assert(view_clauses(elif_branches@) =~= before.push((c@, view_nodes(body@))));
        n = m2;
    }
    if n < tokens.len() && matches!(tokens[n], Token::Else) {
        match parse_body(tokens, n + 1) {
            Ok((else_statements, p)) => {
                proof {
                    lemma_if_view(condition, then_body, elif_branches, Some(else_statements));
                }
                Ok(
                    (
                        AST::If {
                            condition,
                            then_body,
                            elif_branches,
                            else_body: Some(else_statements),
                        },
                        p,
                    ),
                )
            },
            Err(e) => Err(e),
        }
    } else {
        proof {
            lemma_if_view(condition, then_body, elif_branches, None);
        }
        Ok((AST::If { condition, then_body, elif_branches, else_body: None }, n))
    }
}

/// The model of a parsed parameter list and the position after it.
pub open spec fn params_result(r: Result<(Vec<(String, String)>, usize), ParseError>) -> Parsed<
    Seq<(Seq<char>, Seq<char>)>,
> {
    match r {
        Ok((ps, next)) => Ok((view_params(ps@), next as int)),
        Err(e) => Err(e),
    }
}

/// Parses the parameters `type : name` from position `i` up to the closing
/// `)`.
#[verifier::loop_isolation(false)]
pub fn parse_params(tokens: &[Token], i: usize) -> (r: Result<
    (Vec<(String, String)>, usize),
    ParseError,
>)
    ensures
        params_result(r) == params_at(view_tokens(tokens@), i as int, Seq::empty()),
        r matches Ok((_, next)) ==> i < next <= tokens.len(),
{
    let ghost ts = view_tokens(tokens@);
    let mut params: Vec<(String, String)> = Vec::new();
    let mut j: usize = i;
    assert(view_params(params@) =~= Seq::<(Seq<char>, Seq<char>)>::empty());
    loop
        invariant
            i <= j,
            params_at(ts, j as int, view_params(params@)) == params_at(
                ts,
                i as int,
                Seq::empty(),
            ),
        decreases tokens.len() - j,
    {
        if j >= tokens.len() {
            return fail(Expected::ParameterType, j);
        }
        if matches!(tokens[j], Token::RParen) {
            return Ok((params, j + 1));
        }
        let ty = match token_to_type_string(&tokens[j]) {
            Some(s) => s,
            None => {
                return fail(Expected::ParameterType, j);
            },
        };
        if !(j + 1 < tokens.len() && matches!(tokens[j + 1], Token::Colon)) {
            return fail(Expected::Colon, j + 1);
        }
        if j + 2 >= tokens.len() {
            return fail(Expected::ParameterName, j + 2);
        }
        match &tokens[j + 2] {
            Token::Ident(param) => {
                let ghost before = view_params(params@);
                params.push((param.clone(), ty));
                assert(view_params(params@) =~= before.push((param@, ty@)));
            },
            _ => {
                return fail(Expected::ParameterName, j + 2);
            },
        }
        if j + 3 < tokens.len() && matches!(tokens[j + 3], Token::Comma) {
            j += 4;
        } else {
            j += 3;
        }
    }
}

/// Parses the function definition whose name is expected at position `i`.
pub fn parse_function(tokens: &[Token], i: usize, return_type: Option<String>) -> (r: Result<
    (AST, usize),
    ParseError,
>)
    ensures
        node_result(r) == function_at(
            view_tokens(tokens@),
            i as int,
            view_opt_text(return_type),
        ),
        r matches Ok((_, next)) ==> i < next <= tokens.len(),
{
    reveal(function_at);
    if i >= tokens.len() {
        return fail(Expected::FunctionName, i);
    }
    match &tokens[i] {
        Token::Ident(name) => {
            if !(i + 1 < tokens.len() && matches!(tokens[i + 1], Token::LParen)) {
                return fail(Expected::OpenParen, i + 1);
            }
            match parse_params(tokens, i + 2) {
                Ok((params, k)) => match parse_body(tokens, k) {
                    Ok((body, m)) => {
                        proof {
                            lemma_nodes_view(body);
                        }
                        Ok((AST::FuncDef { name: name.clone(), params, return_type, body }, m))
                    },
                    Err(e) => Err(e),
                },
                Err(e) => Err(e),
            }
        },
        _ => fail(Expected::FunctionName, i),
    }
}

/// Parses the top-level item at position `i`.
pub fn parse_item(tokens: &[Token], i: usize) -> (r: Result<(AST, usize), ParseError>)
    requires
        i < tokens.len(),
    ensures
        node_result(r) == item_at(view_tokens(tokens@), i as int),
        r matches Ok((_, next)) ==> i < next <= tokens.len(),
{
    reveal(item_at);
    if i + 1 < tokens.len() && matches!(tokens[i + 1], Token::Func) {
        match token_to_return_type(&tokens[i]) {
            Some(return_type) => {
                return parse_function(tokens, i + 2, Some(return_type));
            },
            None => {},
        }
    }
    if matches!(tokens[i], Token::Func) {
        parse_function(tokens, i + 1, None)
    } else {
        parse_single_statement(tokens, i)
    }
}

/// Parses a token sequence into the list of its top-level statements.
///
/// The result is the tree that `program` defines for the tokens, or the
/// first failure: what was expected, and at which token. The position of a
/// failure is the index of a token, or the number of tokens where the input
/// ended too early.
#[allow(non_snake_case)]
pub fn parseTokens(tokens: &[Token]) -> (r: Result<Vec<AST>, ParseError>)
    ensures
        match r {
            Ok(ast) => program(view_tokens(tokens@)) == Ok::<_, ParseError>(view_nodes(ast@)),
            Err(e) => program(view_tokens(tokens@)) == Err::<Seq<NodeView>, _>(e),
        },
        r matches Err(e) ==> e.position <= tokens.len(),
{
    let ghost ts = view_tokens(tokens@);
    proof {
        assert(ts.len() == tokens.len());
        lemma_program_failure(ts, 0, Seq::empty());
    }
    let mut ast: Vec<AST> = Vec::new();
    let mut i: usize = 0;
    assert(view_nodes(ast@) =~= Seq::<NodeView>::empty());
    while i < tokens.len()
        invariant
            i <= tokens.len(),
            ts == view_tokens(tokens@),
            program_at(ts, i as int, view_nodes(ast@)) == program(ts),
            program(ts) matches Err(e) ==> e.position <= tokens.len(),
        decreases tokens.len() - i,
    {
        match parse_item(tokens, i) {
            Ok((node, next)) => {
                let ghost before = view_nodes(ast@);
                ast.push(node);
                assert(view_nodes(ast@) =~= before.push(node@));
                i = next;
            },
            Err(e) => {
                return Err(e);
            },
        }
    }
    Ok(ast)
}

/// The token that stands where parsing failed, and `None` where the input
/// ended there.
pub fn found_token<'a>(tokens: &'a [Token], error: &ParseError) -> (r: Option<&'a Token>)
    ensures
        match r {
            Some(t) => error.position < tokens.len() && *t == tokens@[error.position as int],
            None => error.position >= tokens.len(),
        },
{
    if error.position < tokens.len() {
        Some(&tokens[error.position])
    } else {
        None
    }
}

} // verus!
