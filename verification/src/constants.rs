//! Literals keep their value on the way from token to constant.

use vstd::prelude::*;
use crate::ast::ValueView;
use crate::grammar::{ParseError, literal_of, value_at};
use crate::ir::{OperandView, VarType};
use crate::lowering::{
    Failed,
    LoweringView, SignatureView, declare, literal_constant, lower_declaration, lower_value,
    type_tag,
};
use crate::tokenizer::TokenView;

verus! {

/// The constant that a literal token stands for: the same number, the same
/// text or the same truth value, in the natural type of the literal.
pub open spec fn token_constant(t: TokenView) -> Option<(OperandView, VarType)> {
    match t {
        TokenView::String(s) => Some((OperandView::Str(s), VarType::Str)),
        TokenView::Integer(n) => Some(
            (OperandView::Int { ty: VarType::Int32, value: n as i64 }, VarType::Int32),
        ),
        TokenView::Integer64(n) => Some(
            (OperandView::Int { ty: VarType::Int64, value: n }, VarType::Int64),
        ),
        TokenView::Float32(s) => Some(
            (OperandView::Float { ty: VarType::Float32, text: s }, VarType::Float32),
        ),
        TokenView::DefaultFloat(s) => Some(
            (OperandView::Float { ty: VarType::Float32, text: s }, VarType::Float32),
        ),
        TokenView::Float64(s) => Some(
            (OperandView::Float { ty: VarType::Float64, text: s }, VarType::Float64),
        ),
        TokenView::Bool(b) => Some(
            (
                OperandView::Int {
                    ty: VarType::Bool,
                    value: if b {
                        1i64
                    } else {
                        0i64
                    },
                },
                VarType::Bool,
            ),
        ),
        _ => None,
    }
}

/// A literal token parses to a literal, and the literal lowers to the
/// constant of the token: its value arrives unchanged and in its natural
/// type, and no instruction is needed for it.
pub proof fn lemma_literal_round_trip(t: TokenView, funcs: Seq<SignatureView>, st: LoweringView)
    requires
        token_constant(t) is Some,
    ensures
        literal_of(t) is Some,
        value_at(seq![t], 0) == Ok::<_, ParseError>((literal_of(t)->0, 1int)),
        lower_value(funcs, st, literal_of(t)->0) == Ok::<_, Failed>(
            (st, (token_constant(t)->0).0, (token_constant(t)->0).1),
        ),
{
}

/// A declaration whose declared type is the natural type of its literal
/// initializer stores the constant as it is: one slot is allocated, and the
/// only value stored into it is the constant.
pub proof fn lemma_declaration_keeps_literal(
    funcs: Seq<SignatureView>,
    st: LoweringView,
    declared: Seq<char>,
    name: Seq<char>,
    init: ValueView,
)
    requires
        literal_constant(init) matches Some((_, ty)) && type_tag(declared) == Some(ty),
    ensures
        lower_declaration(funcs, st, declared, name, init) == Ok::<_, Failed>(
            declare(st, name, (literal_constant(init)->0).1, (literal_constant(init)->0).0),
        ),
{
}

} // verus!
