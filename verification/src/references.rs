//! Every number in the intermediate representation names something that
//! exists: a temporary, a slot, a parameter or a block of its function.

use vstd::prelude::*;
use crate::ast::{NodeView, ValueView};
use crate::ir::{
    BlockLabel, BlockView, FunctionView, InstrView, ModuleView, OperandView, TerminatorView,
    VarType,
};
use crate::lowering::{
    LocalView, LoweringView, SignatureView, as_comparison, bind_params, declare, empty_module,
    entry_state, find_local, find_local_below, literal_constant, lower_arguments, lower_branch,
    lower_condition, lower_declaration, lower_elif, lower_elifs, lower_else, lower_function,
    lower_integer, lower_items, lower_print, lower_program, lower_statement, lower_statements,
    lower_truth, lower_value, move_to, open_if, param_types, positioned, print_argument,
    signature_of, signatures, terminate, type_tag, with_block,
};

verus! {

/// How many temporaries, slots, blocks and parameters a function has.
pub struct Bounds {
    pub temps: int,
    pub slots: int,
    pub blocks: int,
    pub params: int,
}

/// The bounds of a function under construction that has `params`
/// parameters.
pub open spec fn bounds_of(st: LoweringView, params: int) -> Bounds {
    Bounds {
        temps: st.temps.len() as int,
        slots: st.slots.len() as int,
        blocks: st.blocks.len() as int,
        params,
    }
}

/// The bounds `b` hold everything that the bounds `a` hold.
pub open spec fn within(a: Bounds, b: Bounds) -> bool {
    a.temps <= b.temps && a.slots <= b.slots && a.blocks <= b.blocks && a.params == b.params
}

/// The operand names a temporary or a parameter that exists.
pub open spec fn valid_operand(bd: Bounds, v: OperandView) -> bool {
    match v {
        OperandView::Temp(n) => 0 <= n < bd.temps,
        OperandView::Param(n) => 0 <= n < bd.params,
        _ => true,
    }
}

/// Every operand of the sequence is valid.
pub open spec fn valid_operands(bd: Bounds, vs: Seq<OperandView>) -> bool {
    forall|i: int| 0 <= i < vs.len() ==> valid_operand(bd, #[trigger] vs[i])
}

/// The instruction names only temporaries, slots and parameters that
/// exist.
pub open spec fn valid_instr(bd: Bounds, instr: InstrView) -> bool {
    match instr {
        InstrView::Alloca { slot } => 0 <= slot < bd.slots,
        InstrView::Store { slot, value } => 0 <= slot < bd.slots && valid_operand(bd, value),
        InstrView::Load { dest, slot } => 0 <= dest < bd.temps && 0 <= slot < bd.slots,
        InstrView::Call { dest, callee, args } => 0 <= dest < bd.temps && valid_operands(bd, args),
        InstrView::Compare { dest, pred, lhs, rhs } => 0 <= dest < bd.temps && valid_operand(
            bd,
            lhs,
        ) && valid_operand(bd, rhs),
        InstrView::Convert { dest, kind, value } => 0 <= dest < bd.temps && valid_operand(
            bd,
            value,
        ),
        InstrView::Format { dest, ty, value } => 0 <= dest < bd.temps && valid_operand(bd, value),
        InstrView::Select { dest, cond, if_true, if_false } => 0 <= dest < bd.temps
            && valid_operand(bd, cond) && valid_operand(bd, if_true) && valid_operand(
            bd,
            if_false,
        ),
        InstrView::Print { value } => valid_operand(bd, value),
    }
}

/// The terminator names only blocks that exist and a valid operand.
pub open spec fn valid_terminator(bd: Bounds, t: TerminatorView) -> bool {
    match t {
        TerminatorView::Branch(b) => 0 <= b < bd.blocks,
        TerminatorView::CondBranch { cond, then_block, else_block } => valid_operand(bd, cond)
            && 0 <= then_block < bd.blocks && 0 <= else_block < bd.blocks,
        TerminatorView::Return(v) => valid_operand(bd, v),
    }
}

/// Every instruction of the block and its terminator are valid.
pub open spec fn valid_block(bd: Bounds, block: BlockView) -> bool {
    &&& forall|i: int| 0 <= i < block.instrs.len() ==> valid_instr(bd, #[trigger] block.instrs[i])
    &&& (block.terminator matches Some(t) ==> valid_terminator(bd, t))
}

/// Every block is valid.
pub open spec fn valid_blocks(bd: Bounds, blocks: Seq<BlockView>) -> bool {
    forall|b: int| 0 <= b < blocks.len() ==> valid_block(bd, #[trigger] blocks[b])
}

/// Every variable in scope is bound to a slot that exists.
pub open spec fn valid_locals(bd: Bounds, locals: Seq<LocalView>) -> bool {
    forall|k: int| 0 <= k < locals.len() ==> 0 <= (#[trigger] locals[k]).slot < bd.slots
}

/// The state of a function under construction is valid: it has a current
/// block, and its blocks and its variables name only what exists.
pub open spec fn valid_state(st: LoweringView, params: int) -> bool {
    &&& positioned(st)
    &&& valid_blocks(bounds_of(st, params), st.blocks)
    &&& valid_locals(bounds_of(st, params), st.locals)
}

/// A binding that is found is one of the bindings.
pub proof fn lemma_found_local(locals: Seq<LocalView>, name: Seq<char>, n: int)
    requires
        0 <= n <= locals.len(),
    ensures
        find_local_below(locals, name, n) matches Some(l) ==> exists|k: int|
            0 <= k < n && #[trigger] locals[k] == l,
    decreases n,
{
    if n > 0 {
        if !(locals[n - 1].name == name) {
            lemma_found_local(locals, name, n - 1);
        }
    }
}

/// The slot of a variable that is found in a valid state exists.
pub proof fn lemma_found_slot(st: LoweringView, params: int, name: Seq<char>)
    requires
        valid_state(st, params),
    ensures
        find_local(st.locals, name) matches Some(l) ==> 0 <= l.slot < st.slots.len(),
{
    lemma_found_local(st.locals, name, st.locals.len() as int);
}

/// What holds after evaluating an expression in a valid state: the state
/// is valid, it holds everything that was there, and its blocks are in
/// place.
pub open spec fn valid_step(st: LoweringView, after: LoweringView, params: int) -> bool {
    &&& valid_state(after, params)
    &&& within(bounds_of(st, params), bounds_of(after, params))
    &&& after.current == st.current
    &&& after.blocks.len() == st.blocks.len()
}

/// A comparison keeps the state valid and gives a valid operand.
pub proof fn lemma_truth_valid(
    funcs: Seq<SignatureView>,
    st: LoweringView,
    params: int,
    e: ValueView,
)
    requires
        valid_state(st, params),
    ensures
        lower_truth(funcs, st, e) matches Ok((after, v)) ==> valid_step(st, after, params)
            && valid_operand(bounds_of(after, params), v),
    decreases e, 0nat,
{
    match as_comparison(e) {
        Some((pred, a, b)) => {
            lemma_integer_valid(funcs, st, params, a);
            match lower_integer(funcs, st, a) {
                Ok((st1, lhs)) => {
                    lemma_integer_valid(funcs, st1, params, b);
                },
                Err(_) => {},
            }
        },
        None => {},
    }
}

/// An expression keeps the state valid and gives a valid operand.
pub proof fn lemma_value_valid(
    funcs: Seq<SignatureView>,
    st: LoweringView,
    params: int,
    e: ValueView,
)
    requires
        valid_state(st, params),
    ensures
        lower_value(funcs, st, e) matches Ok((after, v, _)) ==> valid_step(st, after, params)
            && valid_operand(bounds_of(after, params), v),
    decreases e, 1nat,
{
    match e {
        ValueView::VarRef(name) => {
            lemma_found_slot(st, params, name);
        },
        ValueView::FuncCall { name, args } => {
            lemma_arguments_valid(funcs, st, params, args, 0, Seq::empty());
        },
        _ => {
            if literal_constant(e) is None {
                lemma_truth_valid(funcs, st, params, e);
            }
        },
    }
}

/// An expression in integer context keeps the state valid and gives a
/// valid operand.
pub proof fn lemma_integer_valid(
    funcs: Seq<SignatureView>,
    st: LoweringView,
    params: int,
    e: ValueView,
)
    requires
        valid_state(st, params),
    ensures
        lower_integer(funcs, st, e) matches Ok((after, v)) ==> valid_step(st, after, params)
            && valid_operand(bounds_of(after, params), v),
    decreases e, 2nat,
{
    lemma_value_valid(funcs, st, params, e);
}

/// The arguments of a call keep the state valid and give valid operands.
pub proof fn lemma_arguments_valid(
    funcs: Seq<SignatureView>,
    st: LoweringView,
    params: int,
    args: Seq<ValueView>,
    i: int,
    acc: Seq<OperandView>,
)
    requires
        valid_state(st, params),
        valid_operands(bounds_of(st, params), acc),
    ensures
        lower_arguments(funcs, st, args, i, acc) matches Ok((after, vs)) ==> valid_step(
            st,
            after,
            params,
        ) && valid_operands(bounds_of(after, params), vs),
    decreases args, args.len() - i,
{
    if 0 <= i < args.len() {
        lemma_value_valid(funcs, st, params, args[i]);
        match lower_value(funcs, st, args[i]) {
            Ok((st1, value, _)) => {
                let acc1 = acc.push(value);
                lemma_arguments_valid(funcs, st1, params, args, i + 1, acc1);
            },
            Err(_) => {},
        }
    }
}

/// A condition keeps the state valid and gives a valid operand.
pub proof fn lemma_condition_valid(
    funcs: Seq<SignatureView>,
    st: LoweringView,
    params: int,
    e: ValueView,
)
    requires
        valid_state(st, params),
    ensures
        lower_condition(funcs, st, e) matches Ok((after, v)) ==> valid_step(st, after, params)
            && valid_operand(bounds_of(after, params), v),
{
    lemma_truth_valid(funcs, st, params, e);
}

/// A declaration keeps the state valid.
pub proof fn lemma_declaration_valid(
    funcs: Seq<SignatureView>,
    st: LoweringView,
    params: int,
    declared: Seq<char>,
    name: Seq<char>,
    init: ValueView,
)
    requires
        valid_state(st, params),
    ensures
        lower_declaration(funcs, st, declared, name, init) matches Ok(after) ==> valid_step(
            st,
            after,
            params,
        ),
{
    lemma_value_valid(funcs, st, params, init);
}

/// Printing one argument keeps the state valid.
pub proof fn lemma_print_argument_valid(st: LoweringView, params: int, arg: NodeView)
    requires
        valid_state(st, params),
    ensures
        print_argument(st, arg) matches Ok(after) ==> valid_step(st, after, params),
{
    match arg {
        NodeView::VarRef(name) => {
            lemma_found_slot(st, params, name);
        },
        _ => {},
    }
}

/// The print call keeps the state valid.
pub proof fn lemma_print_valid(st: LoweringView, params: int, args: Seq<NodeView>, i: int)
    requires
        valid_state(st, params),
    ensures
        lower_print(st, args, i) matches Ok(after) ==> valid_step(st, after, params),
    decreases args.len() - i,
{
    if 0 <= i < args.len() {
        lemma_print_argument_valid(st, params, args[i]);
        match print_argument(st, args[i]) {
            Ok(st1) => {
                lemma_print_valid(st1, params, args, i + 1);
            },
            Err(_) => {},
        }
    }
}

/// What holds after lowering statements in a valid state: the state is
/// valid and holds everything that was there.
pub open spec fn valid_progress(st: LoweringView, after: LoweringView, params: int) -> bool {
    &&& valid_state(after, params)
    &&& within(bounds_of(st, params), bounds_of(after, params))
}

/// Statements keep the state valid.
pub proof fn lemma_statements_valid(
    funcs: Seq<SignatureView>,
    st: LoweringView,
    params: int,
    stmts: Seq<NodeView>,
    i: int,
)
    requires
        valid_state(st, params),
    ensures
        lower_statements(funcs, st, stmts, i) matches Ok(after) ==> valid_progress(
            st,
            after,
            params,
        ),
    decreases stmts, stmts.len() - i,
{
    if 0 <= i < stmts.len() {
        lemma_statement_valid(funcs, st, params, stmts[i]);
        match lower_statement(funcs, st, stmts[i]) {
            Ok(st1) => {
                if !(stmts[i] is Return) {
                    lemma_statements_valid(funcs, st1, params, stmts, i + 1);
                }
            },
            Err(_) => {},
        }
    }
}

/// A body of a conditional, lowered into a block that exists and branching
/// to a merge block that exists, keeps the state valid.
pub proof fn lemma_branch_valid(
    funcs: Seq<SignatureView>,
    st: LoweringView,
    params: int,
    body: Seq<NodeView>,
    block: int,
    merge: int,
)
    requires
        valid_state(st, params),
        0 <= block < st.blocks.len(),
        0 <= merge < st.blocks.len(),
    ensures
        lower_branch(funcs, st, body, block, merge) matches Ok(after) ==> valid_progress(
            st,
            after,
            params,
        ),
    decreases body, body.len() + 1,
{
    let start = move_to(st, block);
    lemma_statements_valid(funcs, start, params, body, 0);
}

/// One `elif` clause keeps the state valid and makes two blocks.
pub proof fn lemma_elif_valid(
    funcs: Seq<SignatureView>,
    st: LoweringView,
    params: int,
    clause: (ValueView, Seq<NodeView>),
    else_block: int,
    merge: int,
)
    requires
        valid_state(st, params),
        0 <= else_block < st.blocks.len(),
        0 <= merge < st.blocks.len(),
    ensures
        lower_elif(funcs, st, clause, else_block, merge) matches Ok(after) ==> valid_progress(
            st,
            after,
            params,
        ) && after.blocks.len() >= st.blocks.len() + 2,
    decreases clause, 0nat,
{
    let body_block = st.blocks.len() as int;
    let moved = move_to(st, else_block);
    let made1 = with_block(moved, BlockLabel::Elif);
    let made = with_block(made1, BlockLabel::ElseNext);
    lemma_condition_valid(funcs, made, params, clause.0);
    match lower_condition(funcs, made, clause.0) {
        Ok((st1, cond)) => {
            let t = TerminatorView::CondBranch {
                cond,
                then_block: body_block,
                else_block: body_block + 1,
            };
            lemma_branch_valid(funcs, terminate(st1, t), params, clause.1, body_block, merge);
        },
        Err(_) => {},
    }
}

/// The `elif` clauses keep the state valid, and the block that the last
/// failed test leads to exists.
pub proof fn lemma_elifs_valid(
    funcs: Seq<SignatureView>,
    st: LoweringView,
    params: int,
    elifs: Seq<(ValueView, Seq<NodeView>)>,
    k: int,
    else_block: int,
    merge: int,
)
    requires
        valid_state(st, params),
        0 <= else_block < st.blocks.len(),
        0 <= merge < st.blocks.len(),
    ensures
        lower_elifs(funcs, st, elifs, k, else_block, merge) matches Ok((after, last))
            ==> valid_progress(st, after, params) && 0 <= last < after.blocks.len(),
    decreases elifs, elifs.len() - k,
{
    if 0 <= k < elifs.len() {
        lemma_elif_valid(funcs, st, params, elifs[k], else_block, merge);
        match lower_elif(funcs, st, elifs[k], else_block, merge) {
            Ok(st1) => {
                lemma_elifs_valid(
                    funcs,
                    st1,
                    params,
                    elifs,
                    k + 1,
                    st.blocks.len() as int + 1,
                    merge,
                );
            },
            Err(_) => {},
        }
    }
}

/// The end of a conditional keeps the state valid.
pub proof fn lemma_else_valid(
    funcs: Seq<SignatureView>,
    st: LoweringView,
    params: int,
    else_body: Option<Seq<NodeView>>,
    else_block: int,
    merge: int,
)
    requires
        valid_state(st, params),
        0 <= else_block < st.blocks.len(),
        0 <= merge < st.blocks.len(),
    ensures
        lower_else(funcs, st, else_body, else_block, merge) matches Ok(after) ==> valid_progress(
            st,
            after,
            params,
        ),
    decreases else_body, 0nat,
{
    match else_body {
        Some(body) => {
            lemma_branch_valid(funcs, st, params, body, else_block, merge);
        },
        None => {},
    }
}

/// One statement keeps the state valid.
pub proof fn lemma_statement_valid(
    funcs: Seq<SignatureView>,
    st: LoweringView,
    params: int,
    stmt: NodeView,
)
    requires
        valid_state(st, params),
    ensures
        lower_statement(funcs, st, stmt) matches Ok(after) ==> valid_progress(st, after, params),
    decreases stmt, 0nat,
{
    match stmt {
        NodeView::VarDecl(declared, name, init) => {
            lemma_declaration_valid(funcs, st, params, declared, name, init);
        },
        NodeView::Call { object, method, args } => {
            lemma_print_valid(st, params, args, 0);
        },
        NodeView::Return(e) => {
            lemma_value_valid(funcs, st, params, e);
        },
        NodeView::If { condition, then_body, elif_branches, else_body } => {
            lemma_condition_valid(funcs, st, params, condition);
            match lower_condition(funcs, st, condition) {
                Ok((st1, cond)) => {
                    let n = st1.blocks.len() as int;
                    let merge = n + 1;
                    let opened = open_if(st1, cond);
                    lemma_branch_valid(funcs, opened, params, then_body, n, merge);
                    match lower_branch(funcs, opened, then_body, n, merge) {
                        Ok(st2) => {
                            lemma_elifs_valid(funcs, st2, params, elif_branches, 0, n + 2, merge);
                            match lower_elifs(funcs, st2, elif_branches, 0, n + 2, merge) {
                                Ok((st3, last)) => {
                                    lemma_else_valid(funcs, st3, params, else_body, last, merge);
                                },
                                Err(_) => {},
                            }
                        },
                        Err(_) => {},
                    }
                },
                Err(_) => {},
            }
        },
        _ => {},
    }
}

/// Binding the parameters that exist keeps the state valid.
pub proof fn lemma_bind_params_valid(
    st: LoweringView,
    names: Seq<(Seq<char>, Seq<char>)>,
    types: Seq<VarType>,
    i: int,
)
    requires
        valid_state(st, names.len() as int),
    ensures
        valid_state(bind_params(st, names, types, i), names.len() as int),
    decreases names.len() - i,
{
    if 0 <= i < names.len() {
        lemma_bind_params_valid(
            declare(st, names[i].0, types[i], OperandView::Param(i)),
            names,
            types,
            i + 1,
        );
    }
}

/// There are as many parameter types as parameters.
pub proof fn lemma_param_types_len(
    names: Seq<(Seq<char>, Seq<char>)>,
    i: int,
    acc: Seq<VarType>,
)
    requires
        0 <= i <= names.len(),
    ensures
        param_types(names, i, acc) matches Ok(types) ==> types.len() == acc.len() + names.len()
            - i,
    decreases names.len() - i,
{
    if i < names.len() {
        match type_tag(names[i].1) {
            Some(ty) => {
                lemma_param_types_len(names, i + 1, acc.push(ty));
            },
            None => {},
        }
    }
}

/// Every number in the function names something that the function has.
pub open spec fn valid_function(f: FunctionView) -> bool {
    valid_blocks(
        Bounds {
            temps: f.temps.len() as int,
            slots: f.slots.len() as int,
            blocks: f.blocks.len() as int,
            params: f.params.len() as int,
        },
        f.blocks,
    )
}

/// A lowered function is valid.
pub proof fn lemma_function_valid(
    funcs: Seq<SignatureView>,
    name: Seq<char>,
    names: Seq<(Seq<char>, Seq<char>)>,
    declared: Option<Seq<char>>,
    body: Seq<NodeView>,
)
    ensures
        lower_function(funcs, name, names, declared, body) matches Ok(f) ==> valid_function(f),
{
    let params = names.len() as int;
    match signature_of(name, names, declared) {
        Ok(sig) => {
            lemma_param_types_len(names, 0, Seq::empty());
            let st0 = entry_state();
            lemma_bind_params_valid(st0, names, sig.params, 0);
            let st1 = bind_params(st0, names, sig.params, 0);
            lemma_statements_valid(funcs, st1, params, body, 0);
        },
        Err(_) => {},
    }
}

/// Every function of the module is valid.
pub open spec fn valid_module(m: ModuleView) -> bool {
    forall|k: int| 0 <= k < m.functions.len() ==> valid_function(#[trigger] m.functions[k])
}

/// Lowering the top-level statements adds only valid functions.
pub proof fn lemma_items_valid(
    funcs: Seq<SignatureView>,
    nodes: Seq<NodeView>,
    i: int,
    m: ModuleView,
)
    requires
        valid_module(m),
    ensures
        lower_items(funcs, nodes, i, m) matches Ok(done) ==> valid_module(done),
    decreases nodes.len() - i,
{
    if 0 <= i < nodes.len() {
        match nodes[i] {
            NodeView::FuncDef { name, params, return_type, body } => {
                lemma_function_valid(funcs, name, params, return_type, body);
                match lower_function(funcs, name, params, return_type, body) {
                    Ok(f) => {
                        let m1 = ModuleView { functions: m.functions.push(f), ..m };
                        lemma_items_valid(funcs, nodes, i + 1, m1);
                    },
                    Err(_) => {},
                }
            },
            NodeView::Import(package) => {
                lemma_items_valid(
                    funcs,
                    nodes,
                    i + 1,
                    ModuleView { imports: m.imports.push(package), ..m },
                );
            },
            NodeView::NewLine => {
                lemma_items_valid(funcs, nodes, i + 1, m);
            },
            _ => {
                lemma_items_valid(
                    funcs,
                    nodes,
                    i + 1,
                    ModuleView { skipped: m.skipped.push(i), ..m },
                );
            },
        }
    }
}

/// In a lowered program every number names something that exists: each
/// temporary, slot, parameter and block that an instruction or a
/// terminator names is one of its function.
pub proof fn lemma_program_valid(nodes: Seq<NodeView>)
    ensures
        lower_program(nodes) matches Ok(m) ==> valid_module(m),
{
    match signatures(nodes, 0, Seq::empty()) {
        Ok(funcs) => {
            lemma_items_valid(funcs, nodes, 0, empty_module());
        },
        Err(_) => {},
    }
}

} // verus!
