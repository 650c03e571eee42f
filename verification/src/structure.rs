//! The shape of what lowering builds: which blocks a piece of lowering may
//! touch, that every block of a lowered function has its terminator, that
//! every body of a conditional leads to its merge block, and what is left
//! where lowering fails.

use vstd::prelude::*;
use crate::ast::{NodeView, ValueView};
use crate::ir::{
    BlockLabel, BlockView, LoweringFailure, ModuleView, OperandView, TerminatorView, VarType,
};
use crate::lowering::{
    Failed, LoweringView, SignatureView, as_comparison, bind_params, declare, entry_state,
    find_local, find_signature, find_signature_below, literal_constant, lower_arguments,
    lower_body, lower_branch, lower_condition, lower_declaration, lower_elif, lower_elifs,
    lower_else, lower_function, lower_integer, lower_items, lower_print, lower_program,
    lower_statement, lower_statements, lower_truth, lower_value, move_to, open_if, positioned,
    print_argument, signature_of, signatures, terminate, zero_value,
};

verus! {

/// Block `b` has no terminator yet.
pub open spec fn is_open(st: LoweringView, b: int) -> bool {
    st.blocks[b].terminator is None
}

/// Block `b` ends in a return.
pub open spec fn ends_in_return(st: LoweringView, b: int) -> bool {
    st.blocks[b].terminator matches Some(TerminatorView::Return(_))
}

/// `after` comes from `before` by appending instructions to the current
/// block: no block is made, none is ended, the current block stays, and
/// every other block is as it was.
pub open spec fn appends(before: LoweringView, after: LoweringView) -> bool {
    &&& positioned(after)
    &&& after.current == before.current
    &&& after.blocks.len() == before.blocks.len()
    &&& after.blocks[before.current].terminator == before.blocks[before.current].terminator
    &&& forall|b: int|
        0 <= b < before.blocks.len() && b != before.current ==> (#[trigger] after.blocks[b])
            == before.blocks[b]
}

/// `after` comes from `before` by lowering statements: the blocks that were
/// there, but for the current one, are as they were; every block made since
/// has its terminator, but for the one that is current now; and where the
/// current block has changed, the one left behind has its terminator.
pub open spec fn proceeds(before: LoweringView, after: LoweringView) -> bool {
    &&& positioned(after)
    &&& after.blocks.len() >= before.blocks.len()
    &&& forall|b: int|
        0 <= b < before.blocks.len() && b != before.current ==> (#[trigger] after.blocks[b])
            == before.blocks[b]
    &&& forall|b: int|
        before.blocks.len() <= b < after.blocks.len() && b != after.current ==> (
        #[trigger] after.blocks[b]).terminator is Some
    &&& (after.current == before.current || (after.current >= before.blocks.len()
        && after.blocks[before.current].terminator is Some))
    &&& (before.blocks[before.current].terminator is Some ==> after.blocks[before.current].terminator
        == before.blocks[before.current].terminator)
}

/// The state in which an outcome leaves lowering: the state after it, and
/// on failure the state in which lowering stopped.
pub open spec fn left<T>(r: Result<(LoweringView, T), Failed>) -> LoweringView {
    match r {
        Ok((after, _)) => after,
        Err((after, _)) => after,
    }
}

/// `after` comes from `before` by evaluating expressions: instructions are
/// appended to the current block, and the variables in scope and the slots
/// are as they were.
pub open spec fn evaluates(before: LoweringView, after: LoweringView) -> bool {
    appends(before, after) && after.locals == before.locals && after.slots == before.slots
}

/// A comparison only appends to the current block, also where it fails.
pub proof fn lemma_truth_appends(funcs: Seq<SignatureView>, st: LoweringView, e: ValueView)
    requires
        positioned(st),
    ensures
        evaluates(st, left(lower_truth(funcs, st, e))),
    decreases e, 0nat,
{
    match as_comparison(e) {
        Some((pred, a, b)) => {
            lemma_integer_appends(funcs, st, a);
            match lower_integer(funcs, st, a) {
                Ok((st1, lhs)) => {
                    lemma_integer_appends(funcs, st1, b);
                },
                Err(_) => {},
            }
        },
        None => {},
    }
}

/// An expression only appends to the current block, also where it fails.
pub proof fn lemma_value_appends(funcs: Seq<SignatureView>, st: LoweringView, e: ValueView)
    requires
        positioned(st),
    ensures
        match lower_value(funcs, st, e) {
            Ok((after, _, _)) => evaluates(st, after),
            Err((after, _)) => evaluates(st, after),
        },
    decreases e, 1nat,
{
    match e {
        ValueView::VarRef(name) => {},
        ValueView::FuncCall { name, args } => {
            lemma_arguments_appends(funcs, st, args, 0, Seq::empty());
        },
        _ => {
            if literal_constant(e) is None {
                lemma_truth_appends(funcs, st, e);
            }
        },
    }
}

/// An expression in integer context only appends to the current block.
pub proof fn lemma_integer_appends(funcs: Seq<SignatureView>, st: LoweringView, e: ValueView)
    requires
        positioned(st),
    ensures
        evaluates(st, left(lower_integer(funcs, st, e))),
    decreases e, 2nat,
{
    lemma_value_appends(funcs, st, e);
}

/// The arguments of a call only append to the current block.
pub proof fn lemma_arguments_appends(
    funcs: Seq<SignatureView>,
    st: LoweringView,
    args: Seq<ValueView>,
    i: int,
    acc: Seq<OperandView>,
)
    requires
        positioned(st),
    ensures
        evaluates(st, left(lower_arguments(funcs, st, args, i, acc))),
    decreases args, args.len() - i,
{
    if 0 <= i < args.len() {
        lemma_value_appends(funcs, st, args[i]);
        match lower_value(funcs, st, args[i]) {
            Ok((st1, value, _)) => {
                lemma_arguments_appends(funcs, st1, args, i + 1, acc.push(value));
            },
            Err(_) => {},
        }
    }
}

/// A call gets one operand for each of its arguments: lowering the
/// arguments from the `i`-th on adds as many operands as there are
/// arguments left.
pub proof fn lemma_arguments_count(
    funcs: Seq<SignatureView>,
    st: LoweringView,
    args: Seq<ValueView>,
    i: int,
    acc: Seq<OperandView>,
)
    requires
        0 <= i <= args.len(),
    ensures
        lower_arguments(funcs, st, args, i, acc) matches Ok((_, operands)) ==> operands.len()
            == acc.len() + args.len() - i,
    decreases args, args.len() - i,
{
    if i < args.len() {
        match lower_value(funcs, st, args[i]) {
            Ok((st1, value, _)) => {
                lemma_arguments_count(funcs, st1, args, i + 1, acc.push(value));
            },
            Err(_) => {},
        }
    }
}

/// A condition only appends to the current block.
pub proof fn lemma_condition_appends(funcs: Seq<SignatureView>, st: LoweringView, e: ValueView)
    requires
        positioned(st),
    ensures
        evaluates(st, left(lower_condition(funcs, st, e))),
{
    lemma_truth_appends(funcs, st, e);
}

/// A declaration only appends to the current block. Where it fails, it
/// has made no binding.
pub proof fn lemma_declaration_appends(
    funcs: Seq<SignatureView>,
    st: LoweringView,
    declared: Seq<char>,
    name: Seq<char>,
    init: ValueView,
)
    requires
        positioned(st),
    ensures
        match lower_declaration(funcs, st, declared, name, init) {
            Ok(after) => appends(st, after),
            Err((after, _)) => evaluates(st, after),
        },
{
    lemma_value_appends(funcs, st, init);
}

/// The print call only appends to the current block, also where it fails.
pub proof fn lemma_print_appends(st: LoweringView, args: Seq<NodeView>, i: int)
    requires
        positioned(st),
    ensures
        match lower_print(st, args, i) {
            Ok(after) => evaluates(st, after),
            Err((after, _)) => evaluates(st, after),
        },
    decreases args.len() - i,
{
    if 0 <= i < args.len() {
        match print_argument(st, args[i]) {
            Ok(st1) => {
                lemma_print_appends(st1, args, i + 1);
            },
            Err(_) => {},
        }
    }
}

/// Binding the parameters only appends to the current block.
pub proof fn lemma_bind_params_appends(
    st: LoweringView,
    params: Seq<(Seq<char>, Seq<char>)>,
    types: Seq<VarType>,
    i: int,
)
    requires
        positioned(st),
    ensures
        appends(st, bind_params(st, params, types, i)),
    decreases params.len() - i,
{
    if 0 <= i < params.len() {
        let st1 = declare(st, params[i].0, types[i], OperandView::Param(i));
        lemma_bind_params_appends(st1, params, types, i + 1);
    }
}

/// `after` has a current block and keeps the blocks of `before`: all of
/// them are there, and each but block `touched` is as it was. This holds of
/// the state in which lowering stopped on a failure.
pub open spec fn kept(before: LoweringView, after: LoweringView, touched: int) -> bool {
    &&& positioned(after)
    &&& after.blocks.len() >= before.blocks.len()
    &&& forall|b: int|
        0 <= b < before.blocks.len() && b != touched ==> (#[trigger] after.blocks[b])
            == before.blocks[b]
}

/// No statement from the `i`-th on is a return.
pub open spec fn falls_through(stmts: Seq<NodeView>, i: int) -> bool {
    forall|j: int| i <= j < stmts.len() ==> !(#[trigger] stmts[j] is Return)
}

/// What holds of the state `after` that lowering statements leads to from
/// `before`: it proceeds from it, and an open block stays open until a
/// return ends it.
pub open spec fn follows(before: LoweringView, after: LoweringView) -> bool {
    &&& proceeds(before, after)
    &&& (is_open(before, before.current) ==> is_open(after, after.current) || ends_in_return(
        after,
        after.current,
    ))
}

/// Lowering statements proceeds. From an open block it ends in an open
/// block or in one that a return has ended, and in an open one where no
/// statement is a return.
pub proof fn lemma_statements_follow(
    funcs: Seq<SignatureView>,
    st: LoweringView,
    stmts: Seq<NodeView>,
    i: int,
)
    requires
        positioned(st),
    ensures
        lower_statements(funcs, st, stmts, i) matches Ok(after) ==> follows(st, after) && (
        is_open(st, st.current) && falls_through(stmts, i) ==> is_open(after, after.current)),
        lower_statements(funcs, st, stmts, i) matches Err((stopped, _)) ==> kept(
            st,
            stopped,
            st.current,
        ),
    decreases stmts, stmts.len() - i,
{
    if 0 <= i < stmts.len() {
        lemma_statement_follows(funcs, st, stmts[i]);
        match lower_statement(funcs, st, stmts[i]) {
            Ok(st1) => {
                if !(stmts[i] is Return) {
                    lemma_statements_follow(funcs, st1, stmts, i + 1);
                }
            },
            Err(_) => {},
        }
    }
}

/// A body of a conditional proceeds from the state in which its block is
/// current, and ends in a block that has its terminator: the branch to the
/// merge block where the body began in an open block and did not return.
pub proof fn lemma_branch_follows(
    funcs: Seq<SignatureView>,
    st: LoweringView,
    body: Seq<NodeView>,
    block: int,
    merge: int,
)
    requires
        0 <= block < st.blocks.len(),
    ensures
        lower_branch(funcs, st, body, block, merge) matches Ok(after) ==> {
            &&& proceeds(move_to(st, block), after)
            &&& after.blocks[after.current].terminator is Some
            &&& is_open(st, block) ==> after.blocks[after.current].terminator == Some(
                TerminatorView::Branch(merge),
            ) || ends_in_return(after, after.current)
        },
        lower_branch(funcs, st, body, block, merge) matches Err((stopped, _)) ==> kept(
            st,
            stopped,
            block,
        ),
    decreases body, body.len() + 1,
{
    let start = move_to(st, block);
    lemma_statements_follow(funcs, start, body, 0);
}

/// What holds after one `elif` clause, or after all of them, tested from
/// `else_block` on: of the blocks that were there only `else_block` is
/// touched; every block made since has its terminator, but for the last
/// one, which is open and is where the next test goes; and `else_block`
/// has got its terminator.
pub open spec fn chained(before: LoweringView, after: LoweringView, else_block: int, last: int) -> bool {
    &&& after.blocks.len() >= before.blocks.len()
    &&& 0 <= last < after.blocks.len()
    &&& forall|b: int|
        0 <= b < before.blocks.len() && b != else_block ==> (#[trigger] after.blocks[b])
            == before.blocks[b]
    &&& forall|b: int|
        before.blocks.len() <= b < after.blocks.len() && b != last ==> (
        #[trigger] after.blocks[b]).terminator is Some
    &&& is_open(after, last)
    &&& (last == else_block || (last >= before.blocks.len()
        && after.blocks[else_block].terminator is Some))
}

/// One `elif` clause leaves the blocks chained, with the second block it
/// makes as the last one.
pub proof fn lemma_elif_follows(
    funcs: Seq<SignatureView>,
    st: LoweringView,
    clause: (ValueView, Seq<NodeView>),
    else_block: int,
    merge: int,
)
    requires
        0 <= else_block < st.blocks.len(),
    ensures
        lower_elif(funcs, st, clause, else_block, merge) matches Ok(after) ==> chained(
            st,
            after,
            else_block,
            st.blocks.len() as int + 1,
        ) && st.blocks.len() <= after.current < after.blocks.len() && after.current
            != st.blocks.len() + 1 && (after.blocks[after.current].terminator == Some(
            TerminatorView::Branch(merge),
        ) || ends_in_return(after, after.current)),
        lower_elif(funcs, st, clause, else_block, merge) matches Err((stopped, _)) ==> kept(
            st,
            stopped,
            else_block,
        ),
    decreases clause, 0nat,
{
    let body_block = st.blocks.len() as int;
    let made = crate::lowering::with_block(
        crate::lowering::with_block(move_to(st, else_block), BlockLabel::Elif),
        BlockLabel::ElseNext,
    );
    lemma_condition_appends(funcs, made, clause.0);
    match lower_condition(funcs, made, clause.0) {
        Ok((st1, cond)) => {
            let tested = terminate(
                st1,
                TerminatorView::CondBranch {
                    cond,
                    then_block: body_block,
                    else_block: body_block + 1,
                },
            );
            lemma_branch_follows(funcs, tested, clause.1, body_block, merge);
        },
        Err(_) => {},
    }
}

/// The `elif` clauses leave the blocks chained.
pub proof fn lemma_elifs_follow(
    funcs: Seq<SignatureView>,
    st: LoweringView,
    elifs: Seq<(ValueView, Seq<NodeView>)>,
    k: int,
    else_block: int,
    merge: int,
)
    requires
        0 <= else_block < st.blocks.len(),
        is_open(st, else_block),
    ensures
        lower_elifs(funcs, st, elifs, k, else_block, merge) matches Ok((after, last)) ==> chained(
            st,
            after,
            else_block,
            last,
        ),
        lower_elifs(funcs, st, elifs, k, else_block, merge) matches Err((stopped, _)) ==> kept(
            st,
            stopped,
            else_block,
        ),
    decreases elifs, elifs.len() - k,
{
    if 0 <= k < elifs.len() {
        lemma_elif_follows(funcs, st, elifs[k], else_block, merge);
        match lower_elif(funcs, st, elifs[k], else_block, merge) {
            Ok(st1) => {
                let next = st.blocks.len() as int + 1;
                lemma_elifs_follow(funcs, st1, elifs, k + 1, next, merge);
            },
            Err(_) => {},
        }
    }
}

/// The end of a conditional proceeds from the state in which the else
/// block is current to the merge block: the else block has got its
/// terminator, and the merge block is as it was.
pub proof fn lemma_else_follows(
    funcs: Seq<SignatureView>,
    st: LoweringView,
    else_body: Option<Seq<NodeView>>,
    else_block: int,
    merge: int,
)
    requires
        0 <= else_block < st.blocks.len(),
        0 <= merge < st.blocks.len(),
        merge != else_block,
    ensures
        lower_else(funcs, st, else_body, else_block, merge) matches Ok(after) ==> {
            &&& after.current == merge
            &&& after.blocks.len() >= st.blocks.len()
            &&& after.blocks[merge] == st.blocks[merge]
            &&& after.blocks[else_block].terminator is Some
            &&& forall|b: int|
                0 <= b < st.blocks.len() && b != else_block ==> (#[trigger] after.blocks[b])
                    == st.blocks[b]
            &&& forall|b: int|
                st.blocks.len() <= b < after.blocks.len() ==> (
                #[trigger] after.blocks[b]).terminator is Some
        },
        lower_else(funcs, st, else_body, else_block, merge) matches Err((stopped, _)) ==> kept(
            st,
            stopped,
            else_block,
        ),
    decreases else_body, 0nat,
{
    match else_body {
        Some(body) => {
            lemma_branch_follows(funcs, st, body, else_block, merge);
        },
        None => {},
    }
}

/// One statement proceeds, and from an open block it ends in an open block
/// unless it is a return. A conditional ends in its merge block.
pub proof fn lemma_statement_follows(funcs: Seq<SignatureView>, st: LoweringView, stmt: NodeView)
    requires
        positioned(st),
    ensures
        lower_statement(funcs, st, stmt) matches Ok(after) ==> {
            &&& follows(st, after)
            &&& (is_open(st, st.current) && !(stmt is Return) ==> is_open(after, after.current))
            &&& (stmt is If ==> after.current == st.blocks.len() + 1 && is_open(
                after,
                after.current,
            ))
        },
        lower_statement(funcs, st, stmt) matches Err((stopped, _)) ==> kept(
            st,
            stopped,
            st.current,
        ),
    decreases stmt, 0nat,
{
    match stmt {
        NodeView::VarDecl(declared, name, init) => {
            lemma_declaration_appends(funcs, st, declared, name, init);
        },
        NodeView::Call { object, method, args } => {
            lemma_print_appends(st, args, 0);
        },
        NodeView::Return(e) => {
            lemma_value_appends(funcs, st, e);
        },
        NodeView::If { condition, then_body, elif_branches, else_body } => {
            lemma_condition_appends(funcs, st, condition);
            match lower_condition(funcs, st, condition) {
                Ok((st1, cond)) => {
                    let n = st1.blocks.len() as int;
                    let merge = n + 1;
                    let opened = open_if(st1, cond);
                    lemma_branch_follows(funcs, opened, then_body, n, merge);
                    match lower_branch(funcs, opened, then_body, n, merge) {
                        Ok(st2) => {
                            lemma_elifs_follow(funcs, st2, elif_branches, 0, n + 2, merge);
                            match lower_elifs(funcs, st2, elif_branches, 0, n + 2, merge) {
                                Ok((st3, last)) => {
                                    lemma_else_follows(funcs, st3, else_body, last, merge);
                                    match lower_else(funcs, st3, else_body, last, merge) {
                                        Ok(after) => {
                                            assert(after.blocks[st.current] == opened.blocks[st.current]);
                                        },
                                        Err((stopped, _)) => {
                                            assert forall|b: int|
                                                0 <= b < st.blocks.len() && b
                                                    != st.current implies (
                                            #[trigger] stopped.blocks[b]) == st.blocks[b] by {
                                                assert(opened.blocks[b] == st.blocks[b]);
                                                assert(st2.blocks[b] == opened.blocks[b]);
                                                assert(st3.blocks[b] == st2.blocks[b]);
                                            }
                                        },
                                    }
                                },
                                Err((stopped, _)) => {
                                    assert forall|b: int|
                                        0 <= b < st.blocks.len() && b != st.current implies (
                                    #[trigger] stopped.blocks[b]) == st.blocks[b] by {
                                        assert(opened.blocks[b] == st.blocks[b]);
                                        assert(st2.blocks[b] == opened.blocks[b]);
                                    }
                                },
                            }
                        },
                        Err((stopped, _)) => {
                            assert forall|b: int|
                                0 <= b < st.blocks.len() && b != st.current implies (
                            #[trigger] stopped.blocks[b]) == st.blocks[b] by {
                                assert(opened.blocks[b] == st.blocks[b]);
                            }
                        },
                    }
                },
                Err(_) => {},
            }
        },
        _ => {},
    }
}

/// Every block has its terminator.
pub open spec fn all_terminated(blocks: Seq<BlockView>) -> bool {
    forall|b: int| 0 <= b < blocks.len() ==> (#[trigger] blocks[b]).terminator is Some
}

/// Every block but the current one has its terminator.
pub open spec fn sealed(st: LoweringView) -> bool {
    &&& positioned(st)
    &&& forall|b: int|
        0 <= b < st.blocks.len() && b != st.current ==> (#[trigger] st.blocks[b]).terminator is Some
}

/// The body of a function is lowered into a sealed state: when it is done,
/// the only block that may lack its terminator is the current one. Where no
/// statement of the body is a return, the current block does lack it.
pub proof fn lemma_body_sealed(
    funcs: Seq<SignatureView>,
    sig: SignatureView,
    params: Seq<(Seq<char>, Seq<char>)>,
    body: Seq<NodeView>,
)
    ensures
        lower_body(funcs, sig, params, body) matches Ok(st) ==> sealed(st) && (falls_through(
            body,
            0,
        ) ==> is_open(st, st.current)),
{
    let st0 = entry_state();
    let st1 = bind_params(st0, params, sig.params, 0);
    lemma_bind_params_appends(st0, params, sig.params, 0);
    lemma_statements_follow(funcs, st1, body, 0);
}

/// Every block of a lowered function has its terminator.
pub proof fn lemma_function_terminated(
    funcs: Seq<SignatureView>,
    name: Seq<char>,
    params: Seq<(Seq<char>, Seq<char>)>,
    declared: Option<Seq<char>>,
    body: Seq<NodeView>,
)
    ensures
        lower_function(funcs, name, params, declared, body) matches Ok(f) ==> all_terminated(
            f.blocks,
        ),
{
    match signature_of(name, params, declared) {
        Ok(sig) => {
            lemma_body_sealed(funcs, sig, params, body);
        },
        Err(_) => {},
    }
}

/// A function whose body holds no return statement of its own ends, in the
/// block where its body ends, with the return of the zero of its return
/// type.
pub proof fn lemma_function_returns_zero(
    funcs: Seq<SignatureView>,
    name: Seq<char>,
    params: Seq<(Seq<char>, Seq<char>)>,
    declared: Option<Seq<char>>,
    body: Seq<NodeView>,
)
    requires
        falls_through(body, 0),
    ensures
        lower_function(funcs, name, params, declared, body) matches Ok(f) ==> {
            &&& signature_of(name, params, declared) matches Ok(sig)
            &&& lower_body(funcs, sig, params, body) matches Ok(st)
            &&& 0 <= st.current < f.blocks.len()
            &&& f.blocks[st.current].terminator == Some(
                TerminatorView::Return(zero_value(f.ret)),
            )
        },
{
    match signature_of(name, params, declared) {
        Ok(sig) => {
            lemma_body_sealed(funcs, sig, params, body);
        },
        Err(_) => {},
    }
}

/// Every block of every function of the module has its terminator.
pub open spec fn module_terminated(m: ModuleView) -> bool {
    forall|k: int| 0 <= k < m.functions.len() ==> all_terminated((#[trigger] m.functions[k]).blocks)
}

/// Lowering the top-level statements adds only functions whose blocks all
/// have their terminators.
pub proof fn lemma_items_terminated(
    funcs: Seq<SignatureView>,
    nodes: Seq<NodeView>,
    i: int,
    m: ModuleView,
)
    requires
        module_terminated(m),
    ensures
        lower_items(funcs, nodes, i, m) matches Ok(done) ==> module_terminated(done),
    decreases nodes.len() - i,
{
    if 0 <= i < nodes.len() {
        match nodes[i] {
            NodeView::FuncDef { name, params, return_type, body } => {
                lemma_function_terminated(funcs, name, params, return_type, body);
                match lower_function(funcs, name, params, return_type, body) {
                    Ok(f) => {
                        let m1 = ModuleView { functions: m.functions.push(f), ..m };
                        lemma_items_terminated(funcs, nodes, i + 1, m1);
                    },
                    Err(_) => {},
                }
            },
            NodeView::Import(package) => {
                lemma_items_terminated(
                    funcs,
                    nodes,
                    i + 1,
                    ModuleView { imports: m.imports.push(package), ..m },
                );
            },
            NodeView::NewLine => {
                lemma_items_terminated(funcs, nodes, i + 1, m);
            },
            _ => {
                lemma_items_terminated(
                    funcs,
                    nodes,
                    i + 1,
                    ModuleView { skipped: m.skipped.push(i), ..m },
                );
            },
        }
    }
}

/// In a lowered program every block of every function has its terminator.
pub proof fn lemma_program_terminated(nodes: Seq<NodeView>)
    ensures
        lower_program(nodes) matches Ok(m) ==> module_terminated(m),
{
    match signatures(nodes, 0, Seq::empty()) {
        Ok(funcs) => {
            lemma_items_terminated(funcs, nodes, 0, crate::lowering::empty_module());
        },
        Err(_) => {},
    }
}

/// A signature that stands among the first `n` is found by its name.
pub proof fn lemma_find_signature(funcs: Seq<SignatureView>, name: Seq<char>, n: int, j: int)
    requires
        0 <= j < n <= funcs.len(),
        funcs[j].name == name,
    ensures
        find_signature_below(funcs, name, n) is Some,
    decreases n,
{
    if funcs[n - 1].name != name {
        lemma_find_signature(funcs, name, n - 1, j);
    }
}

/// Registering signatures keeps those that are registered and adds one for
/// every function definition from the `i`-th statement on.
pub proof fn lemma_signatures_grow(nodes: Seq<NodeView>, i: int, acc: Seq<SignatureView>)
    requires
        0 <= i,
    ensures
        signatures(nodes, i, acc) matches Ok(funcs) ==> {
            &&& acc.len() <= funcs.len()
            &&& forall|j: int| 0 <= j < acc.len() ==> (#[trigger] funcs[j]) == acc[j]
            &&& forall|k: int|
                i <= k < nodes.len() && #[trigger] nodes[k] is FuncDef ==> find_signature(
                    funcs,
                    nodes[k]->FuncDef_name,
                ) is Some
        },
    decreases nodes.len() - i,
{
    if i < nodes.len() {
        match nodes[i] {
            NodeView::FuncDef { name, params, return_type, body } => {
                match signature_of(name, params, return_type) {
                    Ok(sig) => {
                        let acc1 = acc.push(sig);
                        lemma_signatures_grow(nodes, i + 1, acc1);
                        match signatures(nodes, i + 1, acc1) {
                            Ok(funcs) => {
                                lemma_find_signature(
                                    funcs,
                                    name,
                                    funcs.len() as int,
                                    acc.len() as int,
                                );
                            },
                            Err(_) => {},
                        }
                    },
                    Err(_) => {},
                }
            },
            _ => {
                lemma_signatures_grow(nodes, i + 1, acc);
            },
        }
    }
}

/// Every function that the program defines is registered before any body
/// is lowered, wherever its definition stands: a call of it by its name
/// finds a signature.
pub proof fn lemma_defined_functions_registered(nodes: Seq<NodeView>, k: int)
    requires
        0 <= k < nodes.len(),
        nodes[k] is FuncDef,
    ensures
        signatures(nodes, 0, Seq::empty()) matches Ok(funcs) ==> find_signature(
            funcs,
            nodes[k]->FuncDef_name,
        ) is Some,
{
    lemma_signatures_grow(nodes, 0, Seq::empty());
}

/// A declaration that fails stops where its initializer failed: no slot
/// is allocated, nothing is stored and no binding is made.
pub proof fn lemma_failed_declaration(
    funcs: Seq<SignatureView>,
    st: LoweringView,
    declared: Seq<char>,
    name: Seq<char>,
    init: ValueView,
)
    requires
        positioned(st),
    ensures
        lower_declaration(funcs, st, declared, name, init) matches Err(f) ==> lower_value(
            funcs,
            st,
            init,
        ) == Err::<(LoweringView, OperandView, VarType), _>(f) && f.0.locals == st.locals
            && f.0.slots == st.slots,
{
    lemma_value_appends(funcs, st, init);
}

/// A call that fails stops before its call instruction: either its
/// function is not registered, and then nothing at all is appended, or one
/// of its arguments failed, and then lowering stopped there.
pub proof fn lemma_failed_call(
    funcs: Seq<SignatureView>,
    st: LoweringView,
    callee: Seq<char>,
    args: Seq<ValueView>,
)
    ensures
        lower_value(funcs, st, ValueView::FuncCall { name: callee, args }) matches Err(f) ==> {
            ||| find_signature(funcs, callee) is None && f == (
                st,
                LoweringFailure::UnknownFunction(callee),
            )
            ||| find_signature(funcs, callee) is Some && lower_arguments(
                funcs,
                st,
                args,
                0,
                Seq::empty(),
            ) == Err::<(LoweringView, Seq<OperandView>), _>(f)
        },
{
}

/// A declaration whose initializer calls a function that is not
/// registered fails with that name and leaves the state as it was: no call
/// is emitted and nothing is bound.
pub proof fn lemma_unknown_function(
    funcs: Seq<SignatureView>,
    st: LoweringView,
    declared: Seq<char>,
    name: Seq<char>,
    callee: Seq<char>,
    args: Seq<ValueView>,
)
    requires
        find_signature(funcs, callee) is None,
    ensures
        lower_statement(
            funcs,
            st,
            NodeView::VarDecl(declared, name, ValueView::FuncCall { name: callee, args }),
        ) == Err::<LoweringView, _>((st, LoweringFailure::UnknownFunction(callee))),
{
}

/// A declaration whose initializer calls a registered function with a
/// variable that is not in scope as its first argument fails with the name
/// of the variable and leaves the state as it was: no call is emitted and
/// nothing is bound.
pub proof fn lemma_unknown_argument(
    funcs: Seq<SignatureView>,
    st: LoweringView,
    declared: Seq<char>,
    name: Seq<char>,
    callee: Seq<char>,
    args: Seq<ValueView>,
    variable: Seq<char>,
)
    requires
        find_signature(funcs, callee) is Some,
        args.len() > 0,
        args[0] == ValueView::VarRef(variable),
        find_local(st.locals, variable) is None,
    ensures
        lower_statement(
            funcs,
            st,
            NodeView::VarDecl(declared, name, ValueView::FuncCall { name: callee, args }),
        ) == Err::<LoweringView, _>((st, LoweringFailure::UnknownVariable(variable))),
{
    let failed = Err::<(LoweringView, OperandView, VarType), _>(
        (st, LoweringFailure::UnknownVariable(variable)),
    );
    assert(lower_value(funcs, st, args[0]) == failed);
    assert(lower_arguments(funcs, st, args, 0, Seq::empty()) == Err::<
        (LoweringView, Seq<OperandView>),
        _,
    >((st, LoweringFailure::UnknownVariable(variable))));
}

/// Block `b` ends in the branch to `merge`, or in a return.
pub open spec fn reaches(st: LoweringView, b: int, merge: int) -> bool {
    st.blocks[b].terminator == Some(TerminatorView::Branch(merge)) || ends_in_return(st, b)
}

/// The state after the `j`-th `elif` clause, where the clauses from the
/// `k`-th on are lowered from `st`: its current block is the one in which
/// the body of that clause ended.
pub open spec fn after_elif(
    funcs: Seq<SignatureView>,
    st: LoweringView,
    elifs: Seq<(ValueView, Seq<NodeView>)>,
    k: int,
    else_block: int,
    merge: int,
    j: int,
) -> LoweringView
    decreases elifs.len() - k,
{
    if 0 <= k < elifs.len() {
        match lower_elif(funcs, st, elifs[k], else_block, merge) {
            Ok(st1) => if j == k {
                st1
            } else {
                after_elif(funcs, st1, elifs, k + 1, st.blocks.len() as int + 1, merge, j)
            },
            Err(_) => st,
        }
    } else {
        st
    }
}

/// When the `elif` clauses are lowered, the block in which the body of
/// each clause ended ends in the branch to the merge block, or in a return
/// of that body.
pub proof fn lemma_elif_bodies_reach(
    funcs: Seq<SignatureView>,
    st: LoweringView,
    elifs: Seq<(ValueView, Seq<NodeView>)>,
    k: int,
    else_block: int,
    merge: int,
    j: int,
)
    requires
        0 <= else_block < st.blocks.len(),
        is_open(st, else_block),
        0 <= k <= j < elifs.len(),
    ensures
        lower_elifs(funcs, st, elifs, k, else_block, merge) matches Ok((after, last)) ==> {
            let body_end = after_elif(funcs, st, elifs, k, else_block, merge, j).current;
            &&& st.blocks.len() <= body_end < after.blocks.len()
            &&& body_end != last
            &&& reaches(after, body_end, merge)
        },
    decreases elifs.len() - k,
{
    lemma_elif_follows(funcs, st, elifs[k], else_block, merge);
    match lower_elif(funcs, st, elifs[k], else_block, merge) {
        Ok(st1) => {
            let next = st.blocks.len() as int + 1;
            lemma_elifs_follow(funcs, st1, elifs, k + 1, next, merge);
            match lower_elifs(funcs, st1, elifs, k + 1, next, merge) {
                Ok((after, last)) => {
                    if j == k {
                        assert(after.blocks[st1.current] == st1.blocks[st1.current]);
                    } else {
                        lemma_elif_bodies_reach(funcs, st1, elifs, k + 1, next, merge, j);
                    }
                },
                Err(_) => {},
            }
        },
        Err(_) => {},
    }
}

/// In a lowered conditional every body leads to one and the same merge
/// block: the block in which the body of the `if` ended, the block in which
/// the body of each `elif` ended and the block of the `else` each end in the
/// branch to the merge block, or in a return of that body. Lowering goes on
/// in the merge block.
pub proof fn lemma_bodies_reach_merge(
    funcs: Seq<SignatureView>,
    st: LoweringView,
    condition: ValueView,
    then_body: Seq<NodeView>,
    elif_branches: Seq<(ValueView, Seq<NodeView>)>,
    else_body: Option<Seq<NodeView>>,
)
    requires
        positioned(st),
    ensures
        lower_statement(
            funcs,
            st,
            NodeView::If { condition, then_body, elif_branches, else_body },
        ) matches Ok(after) ==> {
            let then_block = st.blocks.len() as int;
            let merge = then_block + 1;
            &&& after.current == merge
            &&& lower_condition(funcs, st, condition) matches Ok((st1, cond))
            &&& lower_branch(funcs, open_if(st1, cond), then_body, then_block, merge) matches Ok(
                st2,
            )
            &&& reaches(after, st2.current, merge)
            &&& lower_elifs(funcs, st2, elif_branches, 0, then_block + 2, merge) matches Ok(
                (st3, last),
            )
            &&& forall|j: int|
                0 <= j < elif_branches.len() ==> reaches(
                    after,
                    (#[trigger] after_elif(
                        funcs,
                        st2,
                        elif_branches,
                        0,
                        then_block + 2,
                        merge,
                        j,
                    )).current,
                    merge,
                )
            &&& match else_body {
                Some(body) => lower_branch(funcs, st3, body, last, merge) matches Ok(st4)
                    && reaches(after, st4.current, merge),
                None => after.blocks[last].terminator == Some(TerminatorView::Branch(merge)),
            }
        },
{
    let stmt = NodeView::If { condition, then_body, elif_branches, else_body };
    lemma_condition_appends(funcs, st, condition);
    match lower_condition(funcs, st, condition) {
        Ok((st1, cond)) => {
            let n = st.blocks.len() as int;
            let merge = n + 1;
            let opened = open_if(st1, cond);
            lemma_branch_follows(funcs, opened, then_body, n, merge);
            match lower_branch(funcs, opened, then_body, n, merge) {
                Ok(st2) => {
                    lemma_elifs_follow(funcs, st2, elif_branches, 0, n + 2, merge);
                    match lower_elifs(funcs, st2, elif_branches, 0, n + 2, merge) {
                        Ok((st3, last)) => {
                            lemma_else_follows(funcs, st3, else_body, last, merge);
                            match lower_else(funcs, st3, else_body, last, merge) {
                                Ok(after) => {
                                    assert(st2.current == n || st2.current >= n + 3);
                                    assert(st3.blocks[st2.current] == st2.blocks[st2.current]);
                                    assert(after.blocks[st2.current] == st3.blocks[st2.current]);
                                    assert forall|j: int|
                                        0 <= j < elif_branches.len() implies reaches(
                                        after,
                                        (#[trigger] after_elif(
                                            funcs,
                                            st2,
                                            elif_branches,
                                            0,
                                            n + 2,
                                            merge,
                                            j,
                                        )).current,
                                        merge,
                                    ) by {
                                        lemma_elif_bodies_reach(
                                            funcs,
                                            st2,
                                            elif_branches,
                                            0,
                                            n + 2,
                                            merge,
                                            j,
                                        );
                                        let e = after_elif(
                                            funcs,
                                            st2,
                                            elif_branches,
                                            0,
                                            n + 2,
                                            merge,
                                            j,
                                        ).current;
                                        assert(after.blocks[e] == st3.blocks[e]);
                                    }
                                    match else_body {
                                        Some(body) => {
                                            lemma_branch_follows(funcs, st3, body, last, merge);
                                        },
                                        None => {},
                                    }
                                },
                                Err(_) => {},
                            }
                        },
                        Err(_) => {},
                    }
                },
                Err(_) => {},
            }
        },
        Err(_) => {},
    }
}

} // verus!
