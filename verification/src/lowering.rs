//! What lowering means: the intermediate representation that a syntax tree
//! stands for, defined over the state of a function under construction.
//!
//! The state is threaded through every definition: the tables of slots and
//! temporaries, the blocks made so far, the block that instructions are
//! appended to, and the variables in scope.

use vstd::prelude::*;
use crate::ast::{NodeView, ValueView};
use crate::ir::{
    BlockLabel, BlockView, Conversion, FunctionView, InstrView, LoweringFailure, ModuleView,
    OperandView, Predicate, SlotView, TerminatorView, VarType,
};

verus! {

/// A variable in scope: its name, its slot and its type.
pub struct LocalView {
    pub name: Seq<char>,
    pub slot: int,
    pub ty: VarType,
}

/// The signature of a function: its name, the types of its parameters and
/// the type it returns.
pub struct SignatureView {
    pub name: Seq<char>,
    pub params: Seq<VarType>,
    pub ret: VarType,
}

/// The state of a function under construction.
pub struct LoweringView {
    pub slots: Seq<SlotView>,
    pub temps: Seq<VarType>,
    pub blocks: Seq<BlockView>,
    /// The block that instructions are appended to.
    pub current: int,
    pub locals: Seq<LocalView>,
}

/// The current block exists.
pub open spec fn positioned(st: LoweringView) -> bool {
    0 <= st.current < st.blocks.len()
}

/// A failure inside a function: the state in which lowering stopped, and
/// why. Nothing is undone: what was appended before the failure is there.
pub type Failed = (LoweringView, LoweringFailure);

/// What evaluating an expression gives: the state after it, the value and
/// its type, or the failure.
pub type Evaluated = Result<(LoweringView, OperandView, VarType), Failed>;

/// What computing an operand gives: the state after it and the operand,
/// or the failure.
pub type Computed = Result<(LoweringView, OperandView), Failed>;

/// What lowering statements gives: the state after them, or the failure.
pub type Lowered = Result<LoweringView, Failed>;

/// The scalar type that a type name stands for. The string type has two
/// names: `string`, which the type keyword gives, and `str`.
pub open spec fn type_tag(name: Seq<char>) -> Option<VarType> {
    if name == "i32"@ {
        Some(VarType::Int32)
    } else if name == "i64"@ {
        Some(VarType::Int64)
    } else if name == "f32"@ {
        Some(VarType::Float32)
    } else if name == "f64"@ {
        Some(VarType::Float64)
    } else if name == "bool"@ {
        Some(VarType::Bool)
    } else if name == "str"@ || name == "string"@ {
        Some(VarType::Str)
    } else {
        None
    }
}

/// Whether the type is one of the two integer types.
pub open spec fn is_integer(ty: VarType) -> bool {
    ty == VarType::Int32 || ty == VarType::Int64
}

/// Whether the type is one of the two float types.
pub open spec fn is_float(ty: VarType) -> bool {
    ty == VarType::Float32 || ty == VarType::Float64
}

/// The zero that a function returns where its body does not return: of the
/// declared type, and the 32-bit integer zero for a string.
pub open spec fn zero_value(ty: VarType) -> OperandView {
    match ty {
        VarType::Int32 => OperandView::Int { ty: VarType::Int32, value: 0 },
        VarType::Int64 => OperandView::Int { ty: VarType::Int64, value: 0 },
        VarType::Float32 => OperandView::Float { ty: VarType::Float32, text: "0.0"@ },
        VarType::Float64 => OperandView::Float { ty: VarType::Float64, text: "0.0"@ },
        VarType::Bool => OperandView::Int { ty: VarType::Bool, value: 0 },
        VarType::Str => OperandView::Int { ty: VarType::Int32, value: 0 },
    }
}

/// The type that a conversion gives.
pub open spec fn target_of(kind: Conversion) -> VarType {
    match kind {
        Conversion::Truncate => VarType::Int32,
        Conversion::SignExtend => VarType::Int64,
        Conversion::ZeroExtend => VarType::Int32,
        Conversion::FloatToInt => VarType::Int32,
        Conversion::FloatExtend => VarType::Float64,
        Conversion::FloatTruncate => VarType::Float32,
    }
}

/// The latest of the first `n` bindings that has the name `name`.
pub open spec fn find_local_below(locals: Seq<LocalView>, name: Seq<char>, n: int) -> Option<
    LocalView,
>
    decreases n,
{
    if n <= 0 {
        None
    } else if locals[n - 1].name == name {
        Some(locals[n - 1])
    } else {
        find_local_below(locals, name, n - 1)
    }
}

/// The binding of `name` that is in force: the latest one.
pub open spec fn find_local(locals: Seq<LocalView>, name: Seq<char>) -> Option<LocalView> {
    find_local_below(locals, name, locals.len() as int)
}

/// The latest of the first `n` signatures that has the name `name`.
pub open spec fn find_signature_below(funcs: Seq<SignatureView>, name: Seq<char>, n: int) -> Option<
    SignatureView,
>
    decreases n,
{
    if n <= 0 {
        None
    } else if funcs[n - 1].name == name {
        Some(funcs[n - 1])
    } else {
        find_signature_below(funcs, name, n - 1)
    }
}

/// The signature registered under `name`: the latest one.
pub open spec fn find_signature(funcs: Seq<SignatureView>, name: Seq<char>) -> Option<
    SignatureView,
> {
    find_signature_below(funcs, name, funcs.len() as int)
}

/// The state with `instr` appended to the current block.
pub open spec fn emit(st: LoweringView, instr: InstrView) -> LoweringView {
    let b = st.blocks[st.current];
    LoweringView {
        blocks: st.blocks.update(
            st.current,
            BlockView { label: b.label, instrs: b.instrs.push(instr), terminator: b.terminator },
        ),
        ..st
    }
}

/// The state with a new temporary of type `ty`; its number is the number of
/// temporaries before.
pub open spec fn with_temp(st: LoweringView, ty: VarType) -> LoweringView {
    LoweringView { temps: st.temps.push(ty), ..st }
}

/// The state with a new slot; its number is the number of slots before.
pub open spec fn with_slot(st: LoweringView, name: Seq<char>, ty: VarType) -> LoweringView {
    LoweringView { slots: st.slots.push(SlotView { name, ty }), ..st }
}

/// The state with a new empty block; its number is the number of blocks
/// before.
pub open spec fn with_block(st: LoweringView, label: BlockLabel) -> LoweringView {
    LoweringView {
        blocks: st.blocks.push(BlockView { label, instrs: Seq::empty(), terminator: None }),
        ..st
    }
}

/// The state with the current block ended by `t`, unless it has ended.
pub open spec fn terminate(st: LoweringView, t: TerminatorView) -> LoweringView {
    let b = st.blocks[st.current];
    if b.terminator is None {
        LoweringView {
            blocks: st.blocks.update(
                st.current,
                BlockView { label: b.label, instrs: b.instrs, terminator: Some(t) },
            ),
            ..st
        }
    } else {
        st
    }
}

/// The state with block `b` as the current block.
pub open spec fn move_to(st: LoweringView, b: int) -> LoweringView {
    LoweringView { current: b, ..st }
}

/// The state with `name` bound to a slot, in front of every earlier binding
/// of that name.
pub open spec fn bind(st: LoweringView, name: Seq<char>, slot: int, ty: VarType) -> LoweringView {
    LoweringView { locals: st.locals.push(LocalView { name, slot, ty }), ..st }
}

/// The state after an instruction that defines a new temporary of type
/// `ty`. The instruction names the temporary by `st.temps.len()`.
pub open spec fn define(st: LoweringView, ty: VarType, instr: InstrView) -> LoweringView {
    emit(with_temp(st, ty), instr)
}

/// Reads a slot into a new temporary.
pub open spec fn load(st: LoweringView, slot: int, ty: VarType) -> (
    LoweringView,
    OperandView,
    VarType,
) {
    let dest = st.temps.len() as int;
    (define(st, ty, InstrView::Load { dest, slot }), OperandView::Temp(dest), ty)
}

/// Converts a value into a new temporary.
pub open spec fn convert(st: LoweringView, value: OperandView, kind: Conversion) -> (
    LoweringView,
    OperandView,
) {
    let dest = st.temps.len() as int;
    (
        define(st, target_of(kind), InstrView::Convert { dest, kind, value }),
        OperandView::Temp(dest),
    )
}

/// Allocates a slot of type `ty` for `name`, stores `value` into it and
/// binds the name to it.
pub open spec fn declare(st: LoweringView, name: Seq<char>, ty: VarType, value: OperandView) -> LoweringView {
    let slot = st.slots.len() as int;
    let allocated = emit(with_slot(st, name, ty), InstrView::Alloca { slot });
    bind(emit(allocated, InstrView::Store { slot, value }), name, slot, ty)
}

/// The constant that a literal stands for, with its natural type.
pub open spec fn literal_constant(e: ValueView) -> Option<(OperandView, VarType)> {
    match e {
        ValueView::Str(s) => Some((OperandView::Str(s), VarType::Str)),
        ValueView::Int(n) => Some(
            (OperandView::Int { ty: VarType::Int32, value: n as i64 }, VarType::Int32),
        ),
        ValueView::Int64(n) => Some(
            (OperandView::Int { ty: VarType::Int64, value: n }, VarType::Int64),
        ),
        ValueView::Float32(t) => Some(
            (OperandView::Float { ty: VarType::Float32, text: t }, VarType::Float32),
        ),
        ValueView::Float64(t) => Some(
            (OperandView::Float { ty: VarType::Float64, text: t }, VarType::Float64),
        ),
        ValueView::Bool(b) => Some(
            (
                OperandView::Int {
                    ty: VarType::Bool,
                    value: if b {
                        1i64
                    } else {
                        0i64
                    },
                },
                VarType::Bool,
            ),
        ),
        _ => None,
    }
}

/// The parts of a comparison: its predicate and its two operands. The
/// single `=` compares as `==` does.
pub open spec fn as_comparison(e: ValueView) -> Option<(Predicate, ValueView, ValueView)> {
    match e {
        ValueView::LessThan(a, b) => Some((Predicate::Less, *a, *b)),
        ValueView::GreaterThan(a, b) => Some((Predicate::Greater, *a, *b)),
        ValueView::Equal(a, b) => Some((Predicate::Equal, *a, *b)),
        ValueView::EqualEqual(a, b) => Some((Predicate::Equal, *a, *b)),
        ValueView::NotEqual(a, b) => Some((Predicate::NotEqual, *a, *b)),
        ValueView::LessEqual(a, b) => Some((Predicate::LessEq, *a, *b)),
        ValueView::GreaterEqual(a, b) => Some((Predicate::GreaterEq, *a, *b)),
        _ => None,
    }
}

/// The operands of a comparison are parts of it.
pub proof fn lemma_comparison_parts(e: ValueView)
    ensures
        as_comparison(e) matches Some((_, a, b)) ==> decreases_to!(e => a) && decreases_to!(e => b),
{
}

/// Brings a value of type `ty` to the 32-bit integer type: a 64-bit integer
/// is truncated, a float goes toward zero, a boolean becomes 0 or 1. A
/// string cannot be brought there.
pub open spec fn coerce_to_int(st: LoweringView, value: OperandView, ty: VarType) -> Computed {
    match ty {
        VarType::Int32 => Ok((st, value)),
        VarType::Int64 => Ok(convert(st, value, Conversion::Truncate)),
        VarType::Float32 => Ok(convert(st, value, Conversion::FloatToInt)),
        VarType::Float64 => Ok(convert(st, value, Conversion::FloatToInt)),
        VarType::Bool => Ok(convert(st, value, Conversion::ZeroExtend)),
        VarType::Str => Err((st, LoweringFailure::UnsupportedCoercion)),
    }
}

/// A comparison as a truth value: both operands are evaluated as 32-bit
/// integers, the left one first, and compared.
pub open spec fn lower_truth(funcs: Seq<SignatureView>, st: LoweringView, e: ValueView) -> Computed
    decreases e, 0nat,
{
    match as_comparison(e) {
        Some((pred, a, b)) => {
            proof {
                lemma_comparison_parts(e);
            }
            match lower_integer(funcs, st, a) {
                Ok((st1, lhs)) => match lower_integer(funcs, st1, b) {
                    Ok((st2, rhs)) => {
                        let dest = st2.temps.len() as int;
                        Ok(
                            (
                                define(
                                    st2,
                                    VarType::Bool,
                                    InstrView::Compare { dest, pred, lhs, rhs },
                                ),
                                OperandView::Temp(dest),
                            ),
                        )
                    },
                    Err(f) => Err(f),
                },
                Err(f) => Err(f),
            }
        },
        None => Err((st, LoweringFailure::UnsupportedCondition)),
    }
}

/// An expression as a value of its natural type: a literal is a constant, a
/// variable is loaded from its slot, a call evaluates its arguments in order
/// and yields what the function returns, and a comparison yields its truth
/// value widened to a 32-bit integer.
pub open spec fn lower_value(funcs: Seq<SignatureView>, st: LoweringView, e: ValueView) -> Evaluated
    decreases e, 1nat,
{
    match e {
        ValueView::VarRef(name) => match find_local(st.locals, name) {
            Some(l) => Ok(load(st, l.slot, l.ty)),
            None => Err((st, LoweringFailure::UnknownVariable(name))),
        },
        ValueView::FuncCall { name, args } => match find_signature(funcs, name) {
            Some(sig) => match lower_arguments(funcs, st, args, 0, Seq::empty()) {
                Ok((st1, operands)) => {
                    let dest = st1.temps.len() as int;
                    Ok(
                        (
                            define(
                                st1,
                                sig.ret,
                                InstrView::Call { dest, callee: name, args: operands },
                            ),
                            OperandView::Temp(dest),
                            sig.ret,
                        ),
                    )
                },
                Err(f) => Err(f),
            },
            None => Err((st, LoweringFailure::UnknownFunction(name))),
        },
        _ => match literal_constant(e) {
            Some((value, ty)) => Ok((st, value, ty)),
            None => match lower_truth(funcs, st, e) {
                Ok((st1, truth)) => {
                    let (st2, wide) = convert(st1, truth, Conversion::ZeroExtend);
                    Ok((st2, wide, VarType::Int32))
                },
                Err(f) => Err(f),
            },
        },
    }
}

/// An expression as a 32-bit integer: its value, brought to that type.
pub open spec fn lower_integer(funcs: Seq<SignatureView>, st: LoweringView, e: ValueView) -> Computed
    decreases e, 2nat,
{
    match lower_value(funcs, st, e) {
        Ok((st1, value, ty)) => coerce_to_int(st1, value, ty),
        Err(f) => Err(f),
    }
}

/// The arguments of a call from the `i`-th on, evaluated in order and added
/// to `acc`.
pub open spec fn lower_arguments(
    funcs: Seq<SignatureView>,
    st: LoweringView,
    args: Seq<ValueView>,
    i: int,
    acc: Seq<OperandView>,
) -> Result<(LoweringView, Seq<OperandView>), Failed>
    decreases args, args.len() - i,
{
    if 0 <= i < args.len() {
        match lower_value(funcs, st, args[i]) {
            Ok((st1, value, _)) => lower_arguments(funcs, st1, args, i + 1, acc.push(value)),
            Err(f) => Err(f),
        }
    } else {
        Ok((st, acc))
    }
}

/// The condition of a branch: a comparison gives its truth value, a boolean
/// literal its constant, and nothing else is a condition.
pub open spec fn lower_condition(funcs: Seq<SignatureView>, st: LoweringView, e: ValueView) -> Computed {
    match e {
        ValueView::Bool(b) => Ok(
            (
                st,
                OperandView::Int {
                    ty: VarType::Bool,
                    value: if b {
                        1i64
                    } else {
                        0i64
                    },
                },
            ),
        ),
        _ => lower_truth(funcs, st, e),
    }
}

/// The type of the slot of a declaration: the declared type where it and
/// the type of the value are both integers or both floats, and else the
/// type of the value.
pub open spec fn slot_type(declared: Seq<char>, natural: VarType) -> VarType {
    match type_tag(declared) {
        Some(d) => if (is_integer(d) && is_integer(natural)) || (is_float(d) && is_float(natural)) {
            d
        } else {
            natural
        },
        None => natural,
    }
}

/// The conversion from one integer or float type to the other of its kind.
pub open spec fn conversion_to(target: VarType) -> Conversion {
    match target {
        VarType::Int32 => Conversion::Truncate,
        VarType::Int64 => Conversion::SignExtend,
        VarType::Float32 => Conversion::FloatTruncate,
        _ => Conversion::FloatExtend,
    }
}

/// Brings a value of type `from` to the slot type `to`.
pub open spec fn fit(st: LoweringView, value: OperandView, from: VarType, to: VarType) -> (
    LoweringView,
    OperandView,
) {
    if from == to {
        (st, value)
    } else {
        convert(st, value, conversion_to(to))
    }
}

/// A declaration: the initializer is evaluated, a slot is allocated, the
/// value is stored and the name is bound. A comparison is stored as a 32-bit
/// integer.
pub open spec fn lower_declaration(
    funcs: Seq<SignatureView>,
    st: LoweringView,
    declared: Seq<char>,
    name: Seq<char>,
    init: ValueView,
) -> Lowered {
    match lower_value(funcs, st, init) {
        Ok((st1, value, natural)) => {
            if as_comparison(init) is Some {
                Ok(declare(st1, name, VarType::Int32, value))
            } else {
                let target = slot_type(declared, natural);
                let (st2, fitted) = fit(st1, value, natural, target);
                Ok(declare(st2, name, target, fitted))
            }
        },
        Err(f) => Err(f),
    }
}

/// Prints a value of type `ty`: a string as it is, a number through its
/// text, a boolean through the choice between `true` and `false`.
pub open spec fn print_value(st: LoweringView, value: OperandView, ty: VarType) -> LoweringView {
    let dest = st.temps.len() as int;
    let text = OperandView::Temp(dest);
    match ty {
        VarType::Str => emit(st, InstrView::Print { value }),
        VarType::Bool => emit(
            define(
                st,
                VarType::Str,
                InstrView::Select {
                    dest,
                    cond: value,
                    if_true: OperandView::Str("true"@),
                    if_false: OperandView::Str("false"@),
                },
            ),
            InstrView::Print { value: text },
        ),
        _ => emit(
            define(st, VarType::Str, InstrView::Format { dest, ty, value }),
            InstrView::Print { value: text },
        ),
    }
}

/// One argument of the print call: a variable is loaded and printed, a
/// literal is printed, and anything else prints nothing.
pub open spec fn print_argument(st: LoweringView, arg: NodeView) -> Lowered {
    match arg {
        NodeView::VarRef(name) => match find_local(st.locals, name) {
            Some(l) => {
                let (st1, value, ty) = load(st, l.slot, l.ty);
                Ok(print_value(st1, value, ty))
            },
            None => Err((st, LoweringFailure::UnknownVariable(name))),
        },
        NodeView::Literal(e) => match literal_constant(e) {
            Some((value, ty)) => Ok(print_value(st, value, ty)),
            None => Ok(st),
        },
        _ => Ok(st),
    }
}

/// The arguments of the print call from the `i`-th on, in order.
pub open spec fn lower_print(st: LoweringView, args: Seq<NodeView>, i: int) -> Lowered
    decreases args.len() - i,
{
    if 0 <= i < args.len() {
        match print_argument(st, args[i]) {
            Ok(st1) => lower_print(st1, args, i + 1),
            Err(f) => Err(f),
        }
    } else {
        Ok(st)
    }
}

/// The statements of a body from the `i`-th on, in order. A return ends the
/// body: what follows it is not lowered.
pub open spec fn lower_statements(
    funcs: Seq<SignatureView>,
    st: LoweringView,
    stmts: Seq<NodeView>,
    i: int,
) -> Lowered
    decreases stmts, stmts.len() - i,
{
    if 0 <= i < stmts.len() {
        match lower_statement(funcs, st, stmts[i]) {
            Ok(st1) => if stmts[i] is Return {
                Ok(st1)
            } else {
                lower_statements(funcs, st1, stmts, i + 1)
            },
            Err(f) => Err(f),
        }
    } else {
        Ok(st)
    }
}

/// A body of a conditional, lowered into block `block`, with the branch to
/// the merge block at its end.
pub open spec fn lower_branch(
    funcs: Seq<SignatureView>,
    st: LoweringView,
    body: Seq<NodeView>,
    block: int,
    merge: int,
) -> Lowered
    decreases body, body.len() + 1,
{
    match lower_statements(funcs, move_to(st, block), body, 0) {
        Ok(st1) => Ok(terminate(st1, TerminatorView::Branch(merge))),
        Err(f) => Err(f),
    }
}

/// The state after the test of an `if`: a block for its body, the merge
/// block and an else block are made, in this order, and the current block
/// ends with the branch on `cond` to the first and the last of them.
pub open spec fn open_if(st: LoweringView, cond: OperandView) -> LoweringView {
    let then_block = st.blocks.len() as int;
    terminate(
        with_block(
            with_block(with_block(st, BlockLabel::Then), BlockLabel::Merge),
            BlockLabel::Else,
        ),
        TerminatorView::CondBranch { cond, then_block, else_block: then_block + 2 },
    )
}

/// One `elif` clause. It is tested in `else_block`, where the failed test
/// before it leads; its body gets a new block, and its own failure leads to
/// a second new block.
pub open spec fn lower_elif(
    funcs: Seq<SignatureView>,
    st: LoweringView,
    clause: (ValueView, Seq<NodeView>),
    else_block: int,
    merge: int,
) -> Lowered
    decreases clause, 0nat,
{
    let body_block = st.blocks.len() as int;
    let made = with_block(
        with_block(move_to(st, else_block), BlockLabel::Elif),
        BlockLabel::ElseNext,
    );
    match lower_condition(funcs, made, clause.0) {
        Ok((st1, cond)) => lower_branch(
            funcs,
            terminate(
                st1,
                TerminatorView::CondBranch {
                    cond,
                    then_block: body_block,
                    else_block: body_block + 1,
                },
            ),
            clause.1,
            body_block,
            merge,
        ),
        Err(f) => Err(f),
    }
}

/// The `elif` clauses from the `k`-th on. The result holds the block that
/// the last failed test leads to.
pub open spec fn lower_elifs(
    funcs: Seq<SignatureView>,
    st: LoweringView,
    elifs: Seq<(ValueView, Seq<NodeView>)>,
    k: int,
    else_block: int,
    merge: int,
) -> Result<(LoweringView, int), Failed>
    decreases elifs, elifs.len() - k,
{
    if 0 <= k < elifs.len() {
        match lower_elif(funcs, st, elifs[k], else_block, merge) {
            Ok(st1) => lower_elifs(funcs, st1, elifs, k + 1, st.blocks.len() as int + 1, merge),
            Err(f) => Err(f),
        }
    } else {
        Ok((st, else_block))
    }
}

/// The end of a conditional: the else body, where there is one, is lowered
/// into `else_block`, which branches to the merge block in any case, and
/// lowering goes on in the merge block.
pub open spec fn lower_else(
    funcs: Seq<SignatureView>,
    st: LoweringView,
    else_body: Option<Seq<NodeView>>,
    else_block: int,
    merge: int,
) -> Lowered
    decreases else_body, 0nat,
{
    let closing = match else_body {
        Some(body) => lower_branch(funcs, st, body, else_block, merge),
        None => Ok(terminate(move_to(st, else_block), TerminatorView::Branch(merge))),
    };
    match closing {
        Ok(st1) => Ok(move_to(st1, merge)),
        Err(f) => Err(f),
    }
}

/// One statement.
///
/// A conditional makes a block for its body, a merge block and an else
/// block, and ends the current block with the branch on its condition. Each
/// body ends with a branch to the merge block, where lowering goes on. The
/// else block is made and branches to the merge block also where there is no
/// else body.
pub open spec fn lower_statement(funcs: Seq<SignatureView>, st: LoweringView, stmt: NodeView) -> Lowered
    decreases stmt, 0nat,
{
    match stmt {
        NodeView::VarDecl(declared, name, init) => lower_declaration(
            funcs,
            st,
            declared,
            name,
            init,
        ),
        NodeView::Call { object, method, args } => {
            if object == "console"@ && method == "print"@ {
                lower_print(st, args, 0)
            } else {
                Ok(st)
            }
        },
        NodeView::Return(e) => match lower_value(funcs, st, e) {
            Ok((st1, value, _)) => Ok(terminate(st1, TerminatorView::Return(value))),
            Err(f) => Err(f),
        },
        NodeView::If { condition, then_body, elif_branches, else_body } => {
            match lower_condition(funcs, st, condition) {
                Ok((st1, cond)) => {
                    let then_block = st1.blocks.len() as int;
                    let merge = then_block + 1;
                    match lower_branch(funcs, open_if(st1, cond), then_body, then_block, merge) {
                        Ok(st2) => match lower_elifs(
                            funcs,
                            st2,
                            elif_branches,
                            0,
                            then_block + 2,
                            merge,
                        ) {
                            Ok((st3, last_else)) => lower_else(
                                funcs,
                                st3,
                                else_body,
                                last_else,
                                merge,
                            ),
                            Err(f) => Err(f),
                        },
                        Err(f) => Err(f),
                    }
                },
                Err(f) => Err(f),
            }
        },
        _ => Ok(st),
    }
}

/// The types of the parameters from the `i`-th on, added to `acc`.
pub open spec fn param_types(params: Seq<(Seq<char>, Seq<char>)>, i: int, acc: Seq<VarType>) -> Result<
    Seq<VarType>,
    LoweringFailure,
>
    decreases params.len() - i,
{
    if 0 <= i < params.len() {
        match type_tag(params[i].1) {
            Some(ty) => param_types(params, i + 1, acc.push(ty)),
            None => Err(LoweringFailure::UnsupportedType(params[i].1)),
        }
    } else {
        Ok(acc)
    }
}

/// The type that a function returns: 32-bit integer where none is declared
/// and for `void`.
pub open spec fn return_type(declared: Option<Seq<char>>) -> Result<VarType, LoweringFailure> {
    match declared {
        None => Ok(VarType::Int32),
        Some(name) => if name == "void"@ {
            Ok(VarType::Int32)
        } else {
            match type_tag(name) {
                Some(ty) => Ok(ty),
                None => Err(LoweringFailure::UnsupportedType(name)),
            }
        },
    }
}

/// The signature of a function definition.
pub open spec fn signature_of(
    name: Seq<char>,
    params: Seq<(Seq<char>, Seq<char>)>,
    declared: Option<Seq<char>>,
) -> Result<SignatureView, LoweringFailure> {
    match param_types(params, 0, Seq::empty()) {
        Ok(types) => match return_type(declared) {
            Ok(ret) => Ok(SignatureView { name, params: types, ret }),
            Err(f) => Err(f),
        },
        Err(f) => Err(f),
    }
}

/// The signatures of the function definitions among the top-level
/// statements from the `i`-th on, added to `acc`.
pub open spec fn signatures(nodes: Seq<NodeView>, i: int, acc: Seq<SignatureView>) -> Result<
    Seq<SignatureView>,
    LoweringFailure,
>
    decreases nodes.len() - i,
{
    if 0 <= i < nodes.len() {
        match nodes[i] {
            NodeView::FuncDef { name, params, return_type, body } => match signature_of(
                name,
                params,
                return_type,
            ) {
                Ok(sig) => signatures(nodes, i + 1, acc.push(sig)),
                Err(f) => Err(f),
            },
            _ => signatures(nodes, i + 1, acc),
        }
    } else {
        Ok(acc)
    }
}

/// The state at the entry of a function: one empty entry block.
pub open spec fn entry_state() -> LoweringView {
    LoweringView {
        slots: Seq::empty(),
        temps: Seq::empty(),
        blocks: seq![
            BlockView { label: BlockLabel::Entry, instrs: Seq::empty(), terminator: None },
        ],
        current: 0,
        locals: Seq::empty(),
    }
}

/// The parameters from the `i`-th on, each given a slot that holds the
/// incoming value.
pub open spec fn bind_params(
    st: LoweringView,
    params: Seq<(Seq<char>, Seq<char>)>,
    types: Seq<VarType>,
    i: int,
) -> LoweringView
    decreases params.len() - i,
{
    if 0 <= i < params.len() {
        bind_params(
            declare(st, params[i].0, types[i], OperandView::Param(i)),
            params,
            types,
            i + 1,
        )
    } else {
        st
    }
}

/// The state after the body of a function: its parameters bound and its
/// statements lowered.
pub open spec fn lower_body(
    funcs: Seq<SignatureView>,
    sig: SignatureView,
    params: Seq<(Seq<char>, Seq<char>)>,
    body: Seq<NodeView>,
) -> Lowered {
    lower_statements(funcs, bind_params(entry_state(), params, sig.params, 0), body, 0)
}

/// The function that a definition stands for. Where the body leaves its
/// last block open, the block returns the zero of the return type.
pub open spec fn lower_function(
    funcs: Seq<SignatureView>,
    name: Seq<char>,
    params: Seq<(Seq<char>, Seq<char>)>,
    declared: Option<Seq<char>>,
    body: Seq<NodeView>,
) -> Result<FunctionView, LoweringFailure> {
    match signature_of(name, params, declared) {
        Ok(sig) => match lower_body(funcs, sig, params, body) {
            Ok(st) => {
                let done = terminate(st, TerminatorView::Return(zero_value(sig.ret)));
                Ok(
                    FunctionView {
                        name,
                        params: sig.params,
                        ret: sig.ret,
                        slots: done.slots,
                        temps: done.temps,
                        blocks: done.blocks,
                    },
                )
            },
            Err(f) => Err(f.1),
        },
        Err(f) => Err(f),
    }
}

/// The module with nothing in it.
pub open spec fn empty_module() -> ModuleView {
    ModuleView {
        name: "magolor"@,
        functions: Seq::empty(),
        imports: Seq::empty(),
        skipped: Seq::empty(),
    }
}

/// The top-level statements from the `i`-th on, added to the module `m`: a
/// function definition gives a function, an import is recorded, a separator
/// gives nothing, and the position of any other statement is recorded as
/// left out.
pub open spec fn lower_items(
    funcs: Seq<SignatureView>,
    nodes: Seq<NodeView>,
    i: int,
    m: ModuleView,
) -> Result<ModuleView, LoweringFailure>
    decreases nodes.len() - i,
{
    if 0 <= i < nodes.len() {
        match nodes[i] {
            NodeView::FuncDef { name, params, return_type, body } => match lower_function(
                funcs,
                name,
                params,
                return_type,
                body,
            ) {
                Ok(f) => lower_items(
                    funcs,
                    nodes,
                    i + 1,
                    ModuleView { functions: m.functions.push(f), ..m },
                ),
                Err(f) => Err(f),
            },
            NodeView::Import(package) => lower_items(
                funcs,
                nodes,
                i + 1,
                ModuleView { imports: m.imports.push(package), ..m },
            ),
            NodeView::NewLine => lower_items(funcs, nodes, i + 1, m),
            _ => lower_items(funcs, nodes, i + 1, ModuleView { skipped: m.skipped.push(i), ..m }),
        }
    } else {
        Ok(m)
    }
}

/// The module that a program stands for. The signatures of all its
/// functions are registered before any body is lowered.
pub open spec fn lower_program(nodes: Seq<NodeView>) -> Result<ModuleView, LoweringFailure> {
    match signatures(nodes, 0, Seq::empty()) {
        Ok(funcs) => lower_items(funcs, nodes, 0, empty_module()),
        Err(f) => Err(f),
    }
}

} // verus!
