//! The grammar: which syntax tree a token sequence stands for.
//!
//! Each function here reads from a position of the token sequence and gives
//! the tree it finds there together with the position after it, or the
//! failure: what was expected, and where.

use vstd::prelude::*;
use crate::ast::{NodeView, ValueView};
use crate::tokenizer::TokenView;

verus! {

/// What the parser was looking for when it failed.
#[derive(Clone, Copy, Debug, PartialEq, Eq, Structural)]
pub enum Expected {
    /// A literal, a variable or a call.
    Value,
    /// The type or the name after `let`.
    TypeOrName,
    /// The name or the `=` of a declaration.
    NameOrAssign,
    /// The `=` of a declaration.
    Assign,
    /// A closing `)`.
    CloseParen,
    /// An opening `{`.
    OpenBrace,
    /// A closing `}`.
    CloseBrace,
    /// The module name after `use`.
    PackageName,
    /// The method name after a dot.
    MethodName,
    /// An opening `(`.
    OpenParen,
    /// The name of a function.
    FunctionName,
    /// The type of a parameter.
    ParameterType,
    /// The `:` between a parameter's type and its name.
    Colon,
    /// The name of a parameter.
    ParameterName,
    /// An argument of a built-in call.
    Argument,
    /// The start of a statement.
    Statement,
}

/// A parse failure: what was expected, and the index of the token found
/// instead (the number of tokens, where the input ended).
#[derive(Clone, Copy, Debug, PartialEq, Eq, Structural)]
pub struct ParseError {
    pub expected: Expected,
    pub position: usize,
}

/// The failure of finding something else than `expected` at position `i`.
pub open spec fn failure(expected: Expected, i: int) -> ParseError {
    ParseError { expected, position: i as usize }
}

/// What a part of the grammar gives: what it found and the position after
/// it, or the failure.
pub type Parsed<T> = Result<(T, int), ParseError>;

/// A result that ends after `from` and within `len` tokens, or else a
/// failure at `from`. Every result of the grammar ends after the position it
/// started from and within the input, so this changes none.
pub open spec fn forward<T>(r: Parsed<T>, from: int, len: nat) -> Parsed<T> {
    match r {
        Ok((_, next)) => if from < next <= len {
            r
        } else {
            Err(failure(Expected::Statement, from))
        },
        Err(_) => r,
    }
}

/// Whether token `i` exists and is `t`.
pub open spec fn at(ts: Seq<TokenView>, i: int, t: TokenView) -> bool {
    0 <= i < ts.len() && ts[i] == t
}

/// The literal that a token stands for.
pub open spec fn literal_of(t: TokenView) -> Option<ValueView> {
    match t {
        TokenView::String(s) => Some(ValueView::Str(s)),
        TokenView::Integer(n) => Some(ValueView::Int(n)),
        TokenView::Integer64(n) => Some(ValueView::Int64(n)),
        TokenView::Float32(s) => Some(ValueView::Float32(s)),
        TokenView::Float64(s) => Some(ValueView::Float64(s)),
        TokenView::DefaultFloat(s) => Some(ValueView::Float32(s)),
        TokenView::Bool(b) => Some(ValueView::Bool(b)),
        _ => None,
    }
}

/// The type name that a token gives in a declaration or a parameter list.
pub open spec fn declared_type(t: TokenView) -> Option<Seq<char>> {
    match t {
        TokenView::Ident(name) => Some(name),
        TokenView::I32Type => Some("i32"@),
        TokenView::I64Type => Some("i64"@),
        TokenView::F32Type => Some("f32"@),
        TokenView::F64Type => Some("f64"@),
        TokenView::StringType => Some("string"@),
        TokenView::BoolType => Some("bool"@),
        _ => None,
    }
}

/// The return type name that a token gives in front of a function keyword.
pub open spec fn return_type_name(t: TokenView) -> Option<Seq<char>> {
    match t {
        TokenView::I32Type => Some("i32"@),
        TokenView::I64Type => Some("i64"@),
        TokenView::F32Type => Some("f32"@),
        TokenView::F64Type => Some("f64"@),
        TokenView::Void => Some("void"@),
        TokenView::StringType => Some("string"@),
        TokenView::BoolType => Some("bool"@),
        _ => None,
    }
}

/// The type name of a declaration without one: that of a literal
/// initializer, and `auto` for everything else.
pub open spec fn inferred_type(v: ValueView) -> Seq<char> {
    match v {
        ValueView::Int(_) => "i32"@,
        ValueView::Int64(_) => "i64"@,
        ValueView::Float32(_) => "f32"@,
        ValueView::Float64(_) => "f64"@,
        ValueView::Str(_) => "string"@,
        ValueView::Bool(_) => "bool"@,
        _ => "auto"@,
    }
}

/// The six comparisons and the single `=`, which compares as `==` does.
#[derive(Clone, Copy, Debug, PartialEq, Eq, Structural)]
pub enum Comparison {
    Less,
    Greater,
    Assign,
    EqEq,
    NotEq,
    LessEq,
    GreaterEq,
}

/// The comparison that a token stands for.
pub open spec fn comparison_of(t: TokenView) -> Option<Comparison> {
    match t {
        TokenView::Less => Some(Comparison::Less),
        TokenView::Greater => Some(Comparison::Greater),
        TokenView::Eq => Some(Comparison::Assign),
        TokenView::EqEq => Some(Comparison::EqEq),
        TokenView::NotEq => Some(Comparison::NotEq),
        TokenView::LessEq => Some(Comparison::LessEq),
        TokenView::GreaterEq => Some(Comparison::GreaterEq),
        _ => None,
    }
}

/// The expression that compares `left` with `right` by `op`.
pub open spec fn compare(op: Comparison, left: ValueView, right: ValueView) -> ValueView {
    match op {
        Comparison::Less => ValueView::LessThan(Box::new(left), Box::new(right)),
        Comparison::Greater => ValueView::GreaterThan(Box::new(left), Box::new(right)),
        Comparison::Assign => ValueView::Equal(Box::new(left), Box::new(right)),
        Comparison::EqEq => ValueView::EqualEqual(Box::new(left), Box::new(right)),
        Comparison::NotEq => ValueView::NotEqual(Box::new(left), Box::new(right)),
        Comparison::LessEq => ValueView::LessEqual(Box::new(left), Box::new(right)),
        Comparison::GreaterEq => ValueView::GreaterEqual(Box::new(left), Box::new(right)),
    }
}

/// A value at position `i`: a literal, a variable, or a call, which is a
/// name directly followed by `(`.
pub open spec fn value_at(ts: Seq<TokenView>, i: int) -> Parsed<ValueView>
    decreases ts.len() - i, 0nat,
{
    if 0 <= i < ts.len() {
        match ts[i] {
            TokenView::Ident(name) => {
                if at(ts, i + 1, TokenView::LParen) {
                    match arguments_at(ts, i + 2, Seq::empty()) {
                        Ok((args, next)) => Ok((ValueView::FuncCall { name, args }, next)),
                        Err(e) => Err(e),
                    }
                } else {
                    Ok((ValueView::VarRef(name), i + 1))
                }
            },
            t => match literal_of(t) {
                Some(v) => Ok((v, i + 1)),
                None => Err(failure(Expected::Value, i)),
            },
        }
    } else {
        Err(failure(Expected::Value, i))
    }
}

/// The arguments of a call from position `i` up to the closing `)`, added to
/// `acc`. Commas separate them and are not required.
pub open spec fn arguments_at(ts: Seq<TokenView>, i: int, acc: Seq<ValueView>) -> Parsed<
    Seq<ValueView>,
>
    decreases ts.len() - i, 2nat,
{
    if 0 <= i < ts.len() {
        match ts[i] {
            TokenView::RParen => Ok((acc, i + 1)),
            TokenView::Comma => arguments_at(ts, i + 1, acc),
            _ => match forward(comparison_at(ts, i), i, ts.len()) {
                Ok((v, next)) => arguments_at(ts, next, acc.push(v)),
                Err(e) => Err(e),
            },
        }
    } else {
        Err(failure(Expected::CloseParen, i))
    }
}

/// A value, or two values with one comparison operator between them.
pub open spec fn comparison_at(ts: Seq<TokenView>, i: int) -> Parsed<ValueView>
    decreases ts.len() - i, 1nat,
{
    match forward(value_at(ts, i), i, ts.len()) {
        Ok((left, j)) => {
            if j < ts.len() {
                match comparison_of(ts[j]) {
                    Some(op) => match value_at(ts, j + 1) {
                        Ok((right, k)) => Ok((compare(op, left, right), k)),
                        Err(e) => Err(e),
                    },
                    None => Ok((left, j)),
                }
            } else {
                Ok((left, j))
            }
        },
        Err(e) => Err(e),
    }
}

/// A condition: a comparison, which may stand in one pair of parentheses.
#[verifier::opaque]
pub open spec fn condition_at(ts: Seq<TokenView>, i: int) -> Parsed<ValueView> {
    if at(ts, i, TokenView::LParen) {
        match comparison_at(ts, i + 1) {
            Ok((c, k)) => if at(ts, k, TokenView::RParen) {
                Ok((c, k + 1))
            } else {
                Err(failure(Expected::CloseParen, k))
            },
            Err(e) => Err(e),
        }
    } else {
        comparison_at(ts, i)
    }
}

/// The declaration whose `let` is at position `i`: `let type name = value`,
/// or `let name = value` with the type inferred.
#[verifier::opaque]
pub open spec fn let_at(ts: Seq<TokenView>, i: int) -> Parsed<NodeView> {
    let j = i + 1;
    let k = i + 2;
    if !(0 <= j < ts.len()) {
        Err(failure(Expected::TypeOrName, j))
    } else {
        match declared_type(ts[j]) {
            None => Err(failure(Expected::TypeOrName, j)),
            Some(first) => {
                if !(k < ts.len()) {
                    Err(failure(Expected::NameOrAssign, k))
                } else {
                    match ts[k] {
                        TokenView::Ident(second) => {
                            if at(ts, k + 1, TokenView::Eq) {
                                match comparison_at(ts, k + 2) {
                                    Ok((value, next)) => Ok(
                                        (NodeView::VarDecl(first, second, value), next),
                                    ),
                                    Err(e) => Err(e),
                                }
                            } else {
                                Err(failure(Expected::Assign, k + 1))
                            }
                        },
                        TokenView::Eq => match comparison_at(ts, k + 1) {
                            Ok((value, next)) => Ok(
                                (NodeView::VarDecl(inferred_type(value), first, value), next),
                            ),
                            Err(e) => Err(e),
                        },
                        _ => Err(failure(Expected::NameOrAssign, k)),
                    }
                }
            },
        }
    }
}

/// The return statement whose keyword is at position `i`. What it returns is
/// a value, not a comparison.
#[verifier::opaque]
pub open spec fn return_at(ts: Seq<TokenView>, i: int) -> Parsed<NodeView> {
    match value_at(ts, i + 1) {
        Ok((v, next)) => Ok((NodeView::Return(v), next)),
        Err(e) => Err(e),
    }
}

/// The argument of a built-in call that a token stands for: a literal, or a
/// name, which reads a variable.
pub open spec fn print_argument(t: TokenView) -> Option<NodeView> {
    match t {
        TokenView::Ident(name) => Some(NodeView::VarRef(name)),
        t => match literal_of(t) {
            Some(v) => Some(NodeView::Literal(v)),
            None => None,
        },
    }
}

/// The arguments of a built-in call from position `i` up to the closing `)`,
/// added to `acc`.
pub open spec fn print_arguments_at(ts: Seq<TokenView>, i: int, acc: Seq<NodeView>) -> Parsed<
    Seq<NodeView>,
>
    decreases ts.len() - i,
{
    if 0 <= i < ts.len() {
        match ts[i] {
            TokenView::RParen => Ok((acc, i + 1)),
            TokenView::Comma => print_arguments_at(ts, i + 1, acc),
            t => match print_argument(t) {
                Some(a) => print_arguments_at(ts, i + 1, acc.push(a)),
                None => Err(failure(Expected::Argument, i)),
            },
        }
    } else {
        Err(failure(Expected::CloseParen, i))
    }
}

/// The built-in call `object . method ( arguments )` whose object name is at
/// position `i`, followed by a dot.
#[verifier::opaque]
pub open spec fn call_at(ts: Seq<TokenView>, i: int, object: Seq<char>) -> Parsed<NodeView> {
    if i + 2 < ts.len() && ts[i + 2] is Ident {
        if at(ts, i + 3, TokenView::LParen) {
            match print_arguments_at(ts, i + 4, Seq::empty()) {
                Ok((args, next)) => Ok(
                    (NodeView::Call { object, method: ts[i + 2]->Ident_0, args }, next),
                ),
                Err(e) => Err(e),
            }
        } else {
            Err(failure(Expected::OpenParen, i + 3))
        }
    } else {
        Err(failure(Expected::MethodName, i + 2))
    }
}

/// The statement that starts at position `i`, by its first token.
pub open spec fn statement_at(ts: Seq<TokenView>, i: int) -> Parsed<NodeView>
    decreases ts.len() - i, 2nat,
{
    if 0 <= i < ts.len() {
        match ts[i] {
            TokenView::Let => let_at(ts, i),
            TokenView::Semicolon => Ok((NodeView::NewLine, i + 1)),
            TokenView::Use => {
                if i + 1 < ts.len() && ts[i + 1] is Ident {
                    Ok((NodeView::Import(ts[i + 1]->Ident_0), i + 2))
                } else {
                    Err(failure(Expected::PackageName, i + 1))
                }
            },
            TokenView::If => if_at(ts, i),
            TokenView::Return => return_at(ts, i),
            TokenView::Ident(name) => {
                if at(ts, i + 1, TokenView::Dot) {
                    call_at(ts, i, name)
                } else {
                    Ok((NodeView::VarRef(name), i + 1))
                }
            },
            t => match literal_of(t) {
                Some(v) => Ok((NodeView::Literal(v), i + 1)),
                None => Err(failure(Expected::Statement, i)),
            },
        }
    } else {
        Err(failure(Expected::Statement, i))
    }
}

/// The statements of a body from position `i` up to the brace that closes
/// it, added to `acc`. `depth` counts the braces that are open: the body
/// starts at depth 1, a bare `{` adds one, a `}` takes one away, and the one
/// that brings the count to zero ends the body.
pub open spec fn block_at(ts: Seq<TokenView>, i: int, depth: int, acc: Seq<NodeView>) -> Parsed<
    Seq<NodeView>,
>
    decreases ts.len() - i, 3nat,
{
    if 0 <= i < ts.len() {
        match ts[i] {
            TokenView::LBrace => block_at(ts, i + 1, depth + 1, acc),
            TokenView::RBrace => if depth <= 1 {
                Ok((acc, i + 1))
            } else {
                block_at(ts, i + 1, depth - 1, acc)
            },
            _ => match forward(statement_at(ts, i), i, ts.len()) {
                Ok((node, next)) => block_at(ts, next, depth, acc.push(node)),
                Err(e) => Err(e),
            },
        }
    } else {
        Err(failure(Expected::CloseBrace, i))
    }
}

/// A body in braces whose `{` is expected at position `i`.
pub open spec fn braced_at(ts: Seq<TokenView>, i: int) -> Parsed<Seq<NodeView>>
    decreases ts.len() - i, 4nat,
{
    if at(ts, i, TokenView::LBrace) {
        block_at(ts, i + 1, 1, Seq::empty())
    } else {
        Err(failure(Expected::OpenBrace, i))
    }
}

/// The `elif` clauses from position `i` on, added to `acc`.
pub open spec fn elifs_at(
    ts: Seq<TokenView>,
    i: int,
    acc: Seq<(ValueView, Seq<NodeView>)>,
) -> Parsed<Seq<(ValueView, Seq<NodeView>)>>
    decreases ts.len() - i, 5nat,
{
    if at(ts, i, TokenView::Elif) {
        match forward(condition_at(ts, i + 1), i, ts.len()) {
            Ok((c, k)) => match forward(braced_at(ts, k), i, ts.len()) {
                Ok((body, m)) => elifs_at(ts, m, acc.push((c, body))),
                Err(e) => Err(e),
            },
            Err(e) => Err(e),
        }
    } else {
        Ok((acc, i))
    }
}

/// The conditional whose `if` is at position `i`: a condition and a body,
/// any number of `elif` clauses, and at most one `else` body.
pub open spec fn if_at(ts: Seq<TokenView>, i: int) -> Parsed<NodeView>
    decreases ts.len() - i, 1nat,
{
    match forward(condition_at(ts, i + 1), i, ts.len()) {
        Ok((condition, k)) => match forward(braced_at(ts, k), i, ts.len()) {
            Ok((then_body, m)) => match forward(elifs_at(ts, m, Seq::empty()), i, ts.len()) {
                Ok((elif_branches, n)) => {
                    if at(ts, n, TokenView::Else) {
                        match braced_at(ts, n + 1) {
                            Ok((else_body, p)) => Ok(
                                (
                                    NodeView::If {
                                        condition,
                                        then_body,
                                        elif_branches,
                                        else_body: Some(else_body),
                                    },
                                    p,
                                ),
                            ),
                            Err(e) => Err(e),
                        }
                    } else {
                        Ok(
                            (
                                NodeView::If {
                                    condition,
                                    then_body,
                                    elif_branches,
                                    else_body: None,
                                },
                                n,
                            ),
                        )
                    }
                },
                Err(e) => Err(e),
            },
            Err(e) => Err(e),
        },
        Err(e) => Err(e),
    }
}

/// The parameters `type : name` from position `i` up to the closing `)`,
/// added to `acc` as pairs of name and type. A comma may follow each.
pub open spec fn params_at(
    ts: Seq<TokenView>,
    i: int,
    acc: Seq<(Seq<char>, Seq<char>)>,
) -> Parsed<Seq<(Seq<char>, Seq<char>)>>
    decreases ts.len() - i,
{
    if 0 <= i < ts.len() {
        if ts[i] is RParen {
            Ok((acc, i + 1))
        } else {
            match declared_type(ts[i]) {
                None => Err(failure(Expected::ParameterType, i)),
                Some(ty) => {
                    if !at(ts, i + 1, TokenView::Colon) {
                        Err(failure(Expected::Colon, i + 1))
                    } else if !(i + 2 < ts.len() && ts[i + 2] is Ident) {
                        Err(failure(Expected::ParameterName, i + 2))
                    } else {
                        let next = if at(ts, i + 3, TokenView::Comma) {
                            i + 4
                        } else {
                            i + 3
                        };
                        params_at(ts, next, acc.push((ts[i + 2]->Ident_0, ty)))
                    }
                },
            }
        }
    } else {
        Err(failure(Expected::ParameterType, i))
    }
}

/// The function definition whose name is expected at position `i`, after
/// the function keyword.
#[verifier::opaque]
pub open spec fn function_at(ts: Seq<TokenView>, i: int, return_type: Option<Seq<char>>) -> Parsed<
    NodeView,
> {
    if !(0 <= i < ts.len() && ts[i] is Ident) {
        Err(failure(Expected::FunctionName, i))
    } else if !at(ts, i + 1, TokenView::LParen) {
        Err(failure(Expected::OpenParen, i + 1))
    } else {
        match params_at(ts, i + 2, Seq::empty()) {
            Ok((params, k)) => match braced_at(ts, k) {
                Ok((body, m)) => Ok(
                    (NodeView::FuncDef { name: ts[i]->Ident_0, params, return_type, body }, m),
                ),
                Err(e) => Err(e),
            },
            Err(e) => Err(e),
        }
    }
}

/// The top-level item at position `i`: a function definition, which starts
/// with a function keyword or with a return type directly followed by one,
/// or else a statement.
#[verifier::opaque]
pub open spec fn item_at(ts: Seq<TokenView>, i: int) -> Parsed<NodeView> {
    if 0 <= i < ts.len() && return_type_name(ts[i]) is Some && at(ts, i + 1, TokenView::Func) {
        function_at(ts, i + 2, return_type_name(ts[i]))
    } else if at(ts, i, TokenView::Func) {
        function_at(ts, i + 1, None)
    } else {
        statement_at(ts, i)
    }
}

/// The top-level items from position `i` to the end, added to `acc`.
pub open spec fn program_at(ts: Seq<TokenView>, i: int, acc: Seq<NodeView>) -> Result<
    Seq<NodeView>,
    ParseError,
>
    decreases ts.len() - i,
{
    if 0 <= i < ts.len() {
        match forward(item_at(ts, i), i, ts.len()) {
            Ok((node, next)) => program_at(ts, next, acc.push(node)),
            Err(e) => Err(e),
        }
    } else {
        Ok(acc)
    }
}

/// The syntax tree of a token sequence.
pub open spec fn program(ts: Seq<TokenView>) -> Result<Seq<NodeView>, ParseError> {
    program_at(ts, 0, Seq::empty())
}

/// A result ends after the position `from` and within `len` tokens, and a
/// failure points at a token from `from` on or at the end of the input.
pub open spec fn advances<T>(r: Parsed<T>, from: int, len: nat) -> bool {
    match r {
        Ok((_, next)) => from < next <= len,
        Err(e) => 0 <= from <= len <= usize::MAX ==> from <= e.position <= len,
    }
}

/// A value ends after the position it starts at, and within the input.
pub proof fn lemma_value_advances(ts: Seq<TokenView>, i: int)
    ensures
        advances(value_at(ts, i), i, ts.len()),
    decreases ts.len() - i, 0nat,
{
    if 0 <= i < ts.len() {
        if ts[i] is Ident && at(ts, i + 1, TokenView::LParen) {
            lemma_arguments_advance(ts, i + 2, Seq::empty());
        }
    }
}

/// The arguments of a call end after the position they start at.
pub proof fn lemma_arguments_advance(ts: Seq<TokenView>, i: int, acc: Seq<ValueView>)
    ensures
        advances(arguments_at(ts, i, acc), i, ts.len()),
    decreases ts.len() - i, 2nat,
{
    if 0 <= i < ts.len() {
        match ts[i] {
            TokenView::RParen => {},
            TokenView::Comma => {
                lemma_arguments_advance(ts, i + 1, acc);
            },
            _ => {
                lemma_comparison_advances(ts, i);
                match forward(comparison_at(ts, i), i, ts.len()) {
                    Ok((v, next)) => {
                        lemma_arguments_advance(ts, next, acc.push(v));
                    },
                    Err(_) => {},
                }
            },
        }
    }
}

/// A comparison ends after the position it starts at.
pub proof fn lemma_comparison_advances(ts: Seq<TokenView>, i: int)
    ensures
        advances(comparison_at(ts, i), i, ts.len()),
    decreases ts.len() - i, 1nat,
{
    lemma_value_advances(ts, i);
    match forward(value_at(ts, i), i, ts.len()) {
        Ok((left, j)) => {
            if j < ts.len() {
                lemma_value_advances(ts, j + 1);
            }
        },
        Err(_) => {},
    }
}

/// A condition ends after the position it starts at.
pub proof fn lemma_condition_advances(ts: Seq<TokenView>, i: int)
    ensures
        advances(condition_at(ts, i), i, ts.len()),
{
    reveal(condition_at);
    lemma_comparison_advances(ts, i);
    lemma_comparison_advances(ts, i + 1);
}

/// A declaration ends after its `let`.
pub proof fn lemma_let_advances(ts: Seq<TokenView>, i: int)
    requires
        0 <= i < ts.len(),
    ensures
        advances(let_at(ts, i), i, ts.len()),
{
    reveal(let_at);
    lemma_comparison_advances(ts, i + 3);
    lemma_comparison_advances(ts, i + 4);
}

/// The arguments of a built-in call end after the position they start at.
pub proof fn lemma_print_arguments_advance(ts: Seq<TokenView>, i: int, acc: Seq<NodeView>)
    ensures
        advances(print_arguments_at(ts, i, acc), i, ts.len()),
    decreases ts.len() - i,
{
    if 0 <= i < ts.len() {
        match ts[i] {
            TokenView::RParen => {},
            TokenView::Comma => {
                lemma_print_arguments_advance(ts, i + 1, acc);
            },
            t => {
                match print_argument(t) {
                    Some(a) => {
                        lemma_print_arguments_advance(ts, i + 1, acc.push(a));
                    },
                    None => {},
                }
            },
        }
    }
}

/// A statement ends after the position it starts at.
pub proof fn lemma_statement_advances(ts: Seq<TokenView>, i: int)
    ensures
        advances(statement_at(ts, i), i, ts.len()),
    decreases ts.len() - i, 2nat,
{
    if 0 <= i < ts.len() {
        match ts[i] {
            TokenView::Let => {
                lemma_let_advances(ts, i);
            },
            TokenView::If => {
                lemma_if_advances(ts, i);
            },
            TokenView::Return => {
                reveal(return_at);
                lemma_value_advances(ts, i + 1);
            },
            TokenView::Ident(name) => {
                reveal(call_at);
                lemma_print_arguments_advance(ts, i + 4, Seq::empty());
            },
            _ => {},
        }
    }
}

/// A body ends after the position it starts at.
pub proof fn lemma_block_advances(ts: Seq<TokenView>, i: int, depth: int, acc: Seq<NodeView>)
    ensures
        advances(block_at(ts, i, depth, acc), i, ts.len()),
    decreases ts.len() - i, 3nat,
{
    if 0 <= i < ts.len() {
        match ts[i] {
            TokenView::LBrace => {
                lemma_block_advances(ts, i + 1, depth + 1, acc);
            },
            TokenView::RBrace => {
                if depth > 1 {
                    lemma_block_advances(ts, i + 1, depth - 1, acc);
                }
            },
            _ => {
                lemma_statement_advances(ts, i);
                match forward(statement_at(ts, i), i, ts.len()) {
                    Ok((node, next)) => {
                        lemma_block_advances(ts, next, depth, acc.push(node));
                    },
                    Err(_) => {},
                }
            },
        }
    }
}

/// A body in braces ends after its opening brace.
pub proof fn lemma_braced_advances(ts: Seq<TokenView>, i: int)
    ensures
        advances(braced_at(ts, i), i, ts.len()),
    decreases ts.len() - i, 4nat,
{
    if at(ts, i, TokenView::LBrace) {
        lemma_block_advances(ts, i + 1, 1, Seq::empty());
    }
}

/// The `elif` clauses end at or after the position they start at, and a
/// failure in them points at a token from there on or at the end of the
/// input.
pub proof fn lemma_elifs_advance(
    ts: Seq<TokenView>,
    i: int,
    acc: Seq<(ValueView, Seq<NodeView>)>,
)
    requires
        0 <= i <= ts.len(),
    ensures
        match elifs_at(ts, i, acc) {
            Ok((_, next)) => i <= next <= ts.len(),
            Err(e) => ts.len() <= usize::MAX ==> i <= e.position <= ts.len(),
        },
    decreases ts.len() - i, 5nat,
{
    if at(ts, i, TokenView::Elif) {
        lemma_condition_advances(ts, i + 1);
        match forward(condition_at(ts, i + 1), i, ts.len()) {
            Ok((c, k)) => {
                lemma_braced_advances(ts, k);
                match forward(braced_at(ts, k), i, ts.len()) {
                    Ok((body, m)) => {
                        lemma_elifs_advance(ts, m, acc.push((c, body)));
                    },
                    Err(_) => {},
                }
            },
            Err(_) => {},
        }
    }
}

/// A conditional ends after its `if`.
pub proof fn lemma_if_advances(ts: Seq<TokenView>, i: int)
    requires
        0 <= i < ts.len(),
    ensures
        advances(if_at(ts, i), i, ts.len()),
    decreases ts.len() - i, 1nat,
{
    lemma_condition_advances(ts, i + 1);
    match forward(condition_at(ts, i + 1), i, ts.len()) {
        Ok((condition, k)) => {
            lemma_braced_advances(ts, k);
            match forward(braced_at(ts, k), i, ts.len()) {
                Ok((then_body, m)) => {
                    lemma_elifs_advance(ts, m, Seq::empty());
                    match forward(elifs_at(ts, m, Seq::empty()), i, ts.len()) {
                        Ok((elif_branches, n)) => {
                            if at(ts, n, TokenView::Else) {
                                lemma_braced_advances(ts, n + 1);
                            }
                        },
                        Err(_) => {},
                    }
                },
                Err(_) => {},
            }
        },
        Err(_) => {},
    }
}

/// The parameters end after the position they start at.
pub proof fn lemma_params_advance(
    ts: Seq<TokenView>,
    i: int,
    acc: Seq<(Seq<char>, Seq<char>)>,
)
    ensures
        advances(params_at(ts, i, acc), i, ts.len()),
    decreases ts.len() - i,
{
    if 0 <= i < ts.len() {
        if !(ts[i] is RParen) {
            match declared_type(ts[i]) {
                None => {},
                Some(ty) => {
                    if at(ts, i + 1, TokenView::Colon) && i + 2 < ts.len() && ts[i + 2] is Ident {
                        let next = if at(ts, i + 3, TokenView::Comma) {
                            i + 4
                        } else {
                            i + 3
                        };
                        lemma_params_advance(ts, next, acc.push((ts[i + 2]->Ident_0, ty)));
                    }
                },
            }
        }
    }
}

/// A function definition ends after the position of its name.
pub proof fn lemma_function_advances(ts: Seq<TokenView>, i: int, return_type: Option<Seq<char>>)
    ensures
        advances(function_at(ts, i, return_type), i, ts.len()),
{
    reveal(function_at);
    lemma_params_advance(ts, i + 2, Seq::empty());
    match params_at(ts, i + 2, Seq::empty()) {
        Ok((_, k)) => {
            lemma_braced_advances(ts, k);
        },
        Err(_) => {},
    }
}

/// A top-level item ends after the position it starts at.
pub proof fn lemma_item_advances(ts: Seq<TokenView>, i: int)
    ensures
        advances(item_at(ts, i), i, ts.len()),
{
    reveal(item_at);
    lemma_statement_advances(ts, i);
    lemma_function_advances(ts, i + 1, None);
    if 0 <= i < ts.len() {
        lemma_function_advances(ts, i + 2, return_type_name(ts[i]));
    }
}

/// Every part of the grammar ends after the position it starts at, so the
/// guard `forward` changes no result.
pub proof fn lemma_forward_changes_nothing(ts: Seq<TokenView>, i: int)
    ensures
        forward(value_at(ts, i), i, ts.len()) == value_at(ts, i),
        forward(comparison_at(ts, i), i, ts.len()) == comparison_at(ts, i),
        forward(condition_at(ts, i), i, ts.len()) == condition_at(ts, i),
        forward(statement_at(ts, i), i, ts.len()) == statement_at(ts, i),
        forward(braced_at(ts, i), i, ts.len()) == braced_at(ts, i),
        forward(item_at(ts, i), i, ts.len()) == item_at(ts, i),
{
    lemma_value_advances(ts, i);
    lemma_comparison_advances(ts, i);
    lemma_condition_advances(ts, i);
    lemma_statement_advances(ts, i);
    lemma_braced_advances(ts, i);
    lemma_item_advances(ts, i);
}

/// A failure of the top-level items points at a token or at the end of
/// the input.
pub proof fn lemma_program_failure(ts: Seq<TokenView>, i: int, acc: Seq<NodeView>)
    requires
        0 <= i <= ts.len() <= usize::MAX,
    ensures
        program_at(ts, i, acc) matches Err(e) ==> e.position <= ts.len(),
    decreases ts.len() - i,
{
    if i < ts.len() {
        lemma_item_advances(ts, i);
        match forward(item_at(ts, i), i, ts.len()) {
            Ok((node, next)) => {
                lemma_program_failure(ts, next, acc.push(node));
            },
            Err(_) => {},
        }
    }
}

} // verus!
