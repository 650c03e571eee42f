//! The lowering engine: syntax tree to intermediate representation.
//!
//! The state of the function under construction is passed to every
//! function here, and each of them computes what `lowering` defines.

use vstd::prelude::*;
use vstd::string::*;
use crate::ast::{
    AST, ASTValue, lemma_call_view, lemma_if_view, lemma_nodes_view, view_clause, view_clauses,
    view_nodes, view_opt_nodes, view_opt_text, view_params, view_values,
};
use crate::ir::{
    Block, BlockLabel, BlockView, Conversion, Function, FunctionView, Instr, InstrView,
    LoweringError, LoweringFailure, Module, ModuleView, Operand, OperandView, Predicate, Slot,
    SlotView, Terminator, VarType, view_blocks, view_functions, view_indices, view_instrs,
    view_operands, view_slots, view_texts,
};
use crate::lowering::{
    Computed, Evaluated, Failed, LocalView, Lowered, LoweringView, SignatureView, as_comparison, bind,
    bind_params, coerce_to_int, conversion_to, convert, declare, emit, empty_module,
    entry_state, find_local, find_local_below, find_signature, find_signature_below,
    literal_constant, load, lower_arguments, lower_branch, lower_condition, lower_declaration,
    lower_elif, lower_elifs, lower_else, lower_function, lower_integer, lower_items,
    lower_print, lower_program, lower_statement, lower_statements, lower_truth, lower_value,
    move_to, open_if, param_types, positioned, print_argument, print_value, return_type,
    signature_of, signatures, slot_type, target_of, terminate, type_tag, with_block, with_slot,
    with_temp, zero_value,
};
use crate::references::{lemma_program_valid, valid_module};
use crate::structure::{lemma_program_terminated, module_terminated};
use crate::text::str_eq;

verus! {

/// A variable in scope.
#[derive(Debug, Clone, PartialEq)]
pub struct Local {
    pub name: String,
    pub slot: usize,
    pub ty: VarType,
}

impl View for Local {
    type V = LocalView;

    open spec fn view(&self) -> LocalView {
        LocalView { name: self.name@, slot: self.slot as int, ty: self.ty }
    }
}

/// The values of a sequence of variables in scope.
pub open spec fn view_locals(ls: Seq<Local>) -> Seq<LocalView> {
    Seq::new(ls.len(), |i: int| ls[i]@)
}

/// The signature of a function.
#[derive(Debug, Clone, PartialEq)]
pub struct Signature {
    pub name: String,
    pub params: Vec<VarType>,
    pub ret: VarType,
}

impl View for Signature {
    type V = SignatureView;

    open spec fn view(&self) -> SignatureView {
        SignatureView { name: self.name@, params: self.params@, ret: self.ret }
    }
}

/// The values of a sequence of signatures.
pub open spec fn view_signatures(ss: Seq<Signature>) -> Seq<SignatureView> {
    Seq::new(ss.len(), |i: int| ss[i]@)
}

/// The state of a function under construction.
#[derive(Debug, Clone, PartialEq)]
pub struct Lowering {
    pub slots: Vec<Slot>,
    pub temps: Vec<VarType>,
    pub blocks: Vec<Block>,
    /// The block that instructions are appended to.
    pub current: usize,
    pub locals: Vec<Local>,
}

impl View for Lowering {
    type V = LoweringView;

    open spec fn view(&self) -> LoweringView {
        LoweringView {
            slots: view_slots(self.slots@),
            temps: self.temps@,
            blocks: view_blocks(self.blocks@),
            current: self.current as int,
            locals: view_locals(self.locals@),
        }
    }
}

impl Lowering {
    /// The state at the entry of a function.
    pub fn new() -> (st: Lowering)
        ensures
            st@ == entry_state(),
            positioned(st@),
    {
        let mut blocks: Vec<Block> = Vec::new();
        blocks.push(Block { label: BlockLabel::Entry, instrs: Vec::new(), terminator: None });
        let st = Lowering {
            slots: Vec::new(),
            temps: Vec::new(),
            blocks,
            current: 0,
            locals: Vec::new(),
        };
        proof {
            assert(view_instrs(st.blocks@[0].instrs@) =~= Seq::<InstrView>::empty());
            assert(st@.blocks =~= entry_state().blocks);
            assert(st@.slots =~= entry_state().slots);
            assert(st@.locals =~= entry_state().locals);
        }
        st
    }

    /// Appends an instruction to the current block.
    pub fn emit(&mut self, instr: Instr)
        requires
            positioned(old(self)@),
        ensures
            final(self)@ == emit(old(self)@, instr@),
            positioned(final(self)@),
    {
        let ghost before = self.blocks@;
        let c = self.current;
        self.blocks[c].instrs.push(instr);
        proof {
            let b = before[c as int]@;
            assert(view_instrs(self.blocks@[c as int].instrs@) =~= b.instrs.push(instr@));
            assert(view_blocks(self.blocks@) =~= view_blocks(before).update(
                c as int,
                BlockView { label: b.label, instrs: b.instrs.push(instr@), terminator: b.terminator },
            ));
        }
    }

    /// Makes a new temporary of type `ty` and gives its number.
    pub fn new_temp(&mut self, ty: VarType) -> (dest: usize)
        ensures
            final(self)@ == with_temp(old(self)@, ty),
            dest == old(self)@.temps.len(),
    {
        let dest = self.temps.len();
        self.temps.push(ty);
        dest
    }

    /// Makes a new slot and gives its number.
    pub fn new_slot(&mut self, name: String, ty: VarType) -> (slot: usize)
        ensures
            final(self)@ == with_slot(old(self)@, name@, ty),
            slot == old(self)@.slots.len(),
    {
        let slot = self.slots.len();
        self.slots.push(Slot { name, ty });
        proof {
            assert(view_slots(self.slots@) =~= view_slots(old(self).slots@).push(
                SlotView { name: name@, ty },
            ));
        }
        slot
    }

    /// Makes a new empty block and gives its number.
    pub fn new_block(&mut self, label: BlockLabel) -> (block: usize)
        ensures
            final(self)@ == with_block(old(self)@, label),
            block == old(self)@.blocks.len(),
            block < final(self)@.blocks.len(),
    {
        let block = self.blocks.len();
        self.blocks.push(Block { label, instrs: Vec::new(), terminator: None });
        proof {
            assert(view_instrs(self.blocks@[block as int].instrs@) =~= Seq::<InstrView>::empty());
            assert(view_blocks(self.blocks@) =~= view_blocks(old(self).blocks@).push(
                BlockView { label, instrs: Seq::empty(), terminator: None },
            ));
        }
        block
    }

    /// Ends the current block with `t`, unless it has ended.
    pub fn terminate(&mut self, t: Terminator)
        requires
            positioned(old(self)@),
        ensures
            final(self)@ == terminate(old(self)@, t@),
            positioned(final(self)@),
    {
        let ghost before = self.blocks@;
        let c = self.current;
        if self.blocks[c].terminator.is_none() {
            self.blocks[c].terminator = Some(t);
            proof {
                let b = before[c as int]@;
                assert(view_blocks(self.blocks@) =~= view_blocks(before).update(
                    c as int,
                    BlockView { label: b.label, instrs: b.instrs, terminator: Some(t@) },
                ));
            }
        }
    }

    /// Makes block `b` the current block.
    pub fn move_to(&mut self, b: usize)
        requires
            b < old(self)@.blocks.len(),
        ensures
            final(self)@ == move_to(old(self)@, b as int),
            positioned(final(self)@),
    {
        self.current = b;
    }

    /// Binds `name` to a slot.
    pub fn bind(&mut self, name: String, slot: usize, ty: VarType)
        ensures
            final(self)@ == bind(old(self)@, name@, slot as int, ty),
    {
        self.locals.push(Local { name, slot, ty });
        proof {
            assert(view_locals(self.locals@) =~= view_locals(old(self).locals@).push(
                LocalView { name: name@, slot: slot as int, ty },
            ));
        }
    }

    /// The slot and the type that `name` is bound to.
    pub fn find_local(&self, name: &String) -> (r: Option<(usize, VarType)>)
        ensures
            match r {
                Some((slot, ty)) => find_local(self@.locals, name@) == Some(
                    LocalView { name: name@, slot: slot as int, ty },
                ),
                None => find_local(self@.locals, name@) is None,
            },
    {
        let mut n: usize = self.locals.len();
        while n > 0
            invariant
                n <= self.locals.len(),
                find_local_below(self@.locals, name@, n as int) == find_local(
                    self@.locals,
                    name@,
                ),
            decreases n,
        {
            if self.locals[n - 1].name == *name {
                return Some((self.locals[n - 1].slot, self.locals[n - 1].ty));
            }
            n -= 1;
        }
        None
    }

    /// Reads a slot into a new temporary.
    pub fn load(&mut self, slot: usize, ty: VarType) -> (value: Operand)
        requires
            positioned(old(self)@),
        ensures
            (final(self)@, value@, ty) == load(old(self)@, slot as int, ty),
            positioned(final(self)@),
    {
        let dest = self.new_temp(ty);
        self.emit(Instr::Load { dest, slot });
        Operand::Temp(dest)
    }

    /// Converts a value into a new temporary.
    pub fn convert(&mut self, value: Operand, kind: Conversion) -> (converted: Operand)
        requires
            positioned(old(self)@),
        ensures
            (final(self)@, converted@) == convert(old(self)@, value@, kind),
            positioned(final(self)@),
    {
        let ty = conversion_target(kind);
        let dest = self.new_temp(ty);
        self.emit(Instr::Convert { dest, kind, value });
        Operand::Temp(dest)
    }

    /// Allocates a slot for `name`, stores `value` into it and binds the
    /// name to it.
    pub fn declare(&mut self, name: &String, ty: VarType, value: Operand)
        requires
            positioned(old(self)@),
        ensures
            final(self)@ == declare(old(self)@, name@, ty, value@),
            positioned(final(self)@),
    {
        let slot = self.new_slot(name.clone(), ty);
        self.emit(Instr::Alloca { slot });
        self.emit(Instr::Store { slot, value });
        self.bind(name.clone(), slot, ty);
    }
}

/// The type that a conversion gives.
pub fn conversion_target(kind: Conversion) -> (ty: VarType)
    ensures
        ty == target_of(kind),
{
    match kind {
        Conversion::Truncate => VarType::Int32,
        Conversion::SignExtend => VarType::Int64,
        Conversion::ZeroExtend => VarType::Int32,
        Conversion::FloatToInt => VarType::Int32,
        Conversion::FloatExtend => VarType::Float64,
        Conversion::FloatTruncate => VarType::Float32,
    }
}

/// The scalar type that a type name stands for.
pub fn resolve_type(name: &String) -> (r: Option<VarType>)
    ensures
        r == type_tag(name@),
{
    let s = name.as_str();
    if str_eq(s, "i32") {
        Some(VarType::Int32)
    } else if str_eq(s, "i64") {
        Some(VarType::Int64)
    } else if str_eq(s, "f32") {
        Some(VarType::Float32)
    } else if str_eq(s, "f64") {
        Some(VarType::Float64)
    } else if str_eq(s, "bool") {
        Some(VarType::Bool)
    } else if str_eq(s, "str") || str_eq(s, "string") {
        Some(VarType::Str)
    } else {
        None
    }
}

/// The return type registered under `name`.
pub fn find_return_type(funcs: &Vec<Signature>, name: &String) -> (r: Option<VarType>)
    ensures
        match r {
            Some(ret) => find_signature(view_signatures(funcs@), name@) is Some && find_signature(
                view_signatures(funcs@),
                name@,
            )->0.ret == ret,
            None => find_signature(view_signatures(funcs@), name@) is None,
        },
{
    let mut n: usize = funcs.len();
    while n > 0
        invariant
            n <= funcs.len(),
            find_signature_below(view_signatures(funcs@), name@, n as int) == find_signature(
                view_signatures(funcs@),
                name@,
            ),
        decreases n,
    {
        if funcs[n - 1].name == *name {
            return Some(funcs[n - 1].ret);
        }
        n -= 1;
    }
    None
}

/// The constant that a literal stands for, with its natural type.
pub fn literal_operand(e: &ASTValue) -> (r: Option<(Operand, VarType)>)
    ensures
        match r {
            Some((value, ty)) => literal_constant(e@) == Some((value@, ty)),
            None => literal_constant(e@) is None,
        },
{
    match e {
        ASTValue::Str(s) => Some((Operand::Str(s.clone()), VarType::Str)),
        ASTValue::Int(n) => Some(
            (Operand::Int { ty: VarType::Int32, value: *n as i64 }, VarType::Int32),
        ),
        ASTValue::Int64(n) => Some((Operand::Int { ty: VarType::Int64, value: *n }, VarType::Int64)),
        ASTValue::Float32(t) => Some(
            (Operand::Float { ty: VarType::Float32, text: t.clone() }, VarType::Float32),
        ),
        ASTValue::Float64(t) => Some(
            (Operand::Float { ty: VarType::Float64, text: t.clone() }, VarType::Float64),
        ),
        ASTValue::Bool(b) => Some(
            (
                Operand::Int {
                    ty: VarType::Bool,
                    value: if *b {
                        1
                    } else {
                        0
                    },
                },
                VarType::Bool,
            ),
        ),
        _ => None,
    }
}

/// The parts of a comparison.
pub fn comparison_parts<'a>(e: &'a ASTValue) -> (r: Option<(Predicate, &'a ASTValue, &'a ASTValue)>)
    ensures
        match r {
            Some((pred, a, b)) => as_comparison(e@) == Some((pred, a@, b@)) && decreases_to!(*e => *a)
                && decreases_to!(*e => *b),
            None => as_comparison(e@) is None,
        },
{
    match e {
        ASTValue::LessThan(a, b) => Some((Predicate::Less, &**a, &**b)),
        ASTValue::GreaterThan(a, b) => Some((Predicate::Greater, &**a, &**b)),
        ASTValue::Equal(a, b) => Some((Predicate::Equal, &**a, &**b)),
        ASTValue::EqualEqual(a, b) => Some((Predicate::Equal, &**a, &**b)),
        ASTValue::NotEqual(a, b) => Some((Predicate::NotEqual, &**a, &**b)),
        ASTValue::LessEqual(a, b) => Some((Predicate::LessEq, &**a, &**b)),
        ASTValue::GreaterEqual(a, b) => Some((Predicate::GreaterEq, &**a, &**b)),
        _ => None,
    }
}

/// The model of the outcome of evaluating an expression in the state `st`
/// that it leaves, on success and on failure.
pub open spec fn evaluated(r: Result<(Operand, VarType), LoweringError>, st: LoweringView) -> Evaluated {
    match r {
        Ok((value, ty)) => Ok((st, value@, ty)),
        Err(e) => Err((st, e@)),
    }
}

/// The model of the outcome of computing an operand in the state `st` that
/// it leaves, on success and on failure.
pub open spec fn computed(r: Result<Operand, LoweringError>, st: LoweringView) -> Computed {
    match r {
        Ok(value) => Ok((st, value@)),
        Err(e) => Err((st, e@)),
    }
}

/// The model of the outcome of lowering statements in the state `st` that
/// it leaves, on success and on failure.
pub open spec fn lowered(r: Result<(), LoweringError>, st: LoweringView) -> Lowered {
    match r {
        Ok(_) => Ok(st),
        Err(e) => Err((st, e@)),
    }
}

/// The state keeps its blocks in place: as many as before, and the same
/// current block.
pub open spec fn in_place(before: LoweringView, after: LoweringView) -> bool {
    positioned(after) && after.current == before.current && after.blocks.len()
        == before.blocks.len()
}

/// Brings a value of type `ty` to the 32-bit integer type.
pub fn coerce(st: &mut Lowering, value: Operand, ty: VarType) -> (r: Result<Operand, LoweringError>)
    requires
        positioned(old(st)@),
    ensures
        computed(r, final(st)@) == coerce_to_int(old(st)@, value@, ty),
        in_place(old(st)@, final(st)@),
{
    match ty {
        VarType::Int32 => Ok(value),
        VarType::Int64 => Ok(st.convert(value, Conversion::Truncate)),
        VarType::Float32 => Ok(st.convert(value, Conversion::FloatToInt)),
        VarType::Float64 => Ok(st.convert(value, Conversion::FloatToInt)),
        VarType::Bool => Ok(st.convert(value, Conversion::ZeroExtend)),
        VarType::Str => Err(LoweringError::UnsupportedCoercion),
    }
}

/// Lowers a comparison to its truth value.
pub fn compile_comparison(st: &mut Lowering, funcs: &Vec<Signature>, e: &ASTValue) -> (r: Result<
    Operand,
    LoweringError,
>)
    requires
        positioned(old(st)@),
    ensures
        computed(r, final(st)@) == lower_truth(view_signatures(funcs@), old(st)@, e@),
        in_place(old(st)@, final(st)@),
    decreases *e, 0nat,
{
    match comparison_parts(e) {
        Some((pred, a, b)) => {
            let lhs = match compile_value(st, funcs, a) {
                Ok(v) => v,
                Err(f) => {
                    return Err(f);
                },
            };
            let rhs = match compile_value(st, funcs, b) {
                Ok(v) => v,
                Err(f) => {
                    return Err(f);
                },
            };
            let dest = st.new_temp(VarType::Bool);
            st.emit(Instr::Compare { dest, pred, lhs, rhs });
            Ok(Operand::Temp(dest))
        },
        None => Err(LoweringError::UnsupportedCondition),
    }
}

/// Lowers an expression to a value of its natural type.
#[verifier::loop_isolation(false)]
pub fn compile_basic_value(st: &mut Lowering, funcs: &Vec<Signature>, e: &ASTValue) -> (r: Result<
    (Operand, VarType),
    LoweringError,
>)
    requires
        positioned(old(st)@),
    ensures
        evaluated(r, final(st)@) == lower_value(view_signatures(funcs@), old(st)@, e@),
        in_place(old(st)@, final(st)@),
    decreases *e, 1nat,
{
    let ghost fv = view_signatures(funcs@);
    let ghost st0 = st@;
    match e {
        ASTValue::VarRef(name) => match st.find_local(name) {
            Some((slot, ty)) => Ok((st.load(slot, ty), ty)),
            None => Err(LoweringError::UnknownVariable(name.clone())),
        },
        ASTValue::FuncCall { name, args } => {
            proof {
                lemma_call_view(*name, *args);
            }
            match find_return_type(funcs, name) {
                Some(ret) => {
                    let ghost av = view_values(args@);
                    let mut operands: Vec<Operand> = Vec::new();
                    let mut i: usize = 0;
                    assert(view_operands(operands@) =~= Seq::<OperandView>::empty());
                    while i < args.len()
                        invariant
                            i <= args.len(),
                            in_place(st0, st@),
                            lower_arguments(fv, st@, av, i as int, view_operands(operands@))
                                == lower_arguments(fv, st0, av, 0, Seq::empty()),
                        decreases args.len() - i,
                    {
                        match compile_basic_value(st, funcs, &args[i]) {
                            Ok((value, _)) => {
                                let ghost before = view_operands(operands@);
                                operands.push(value);
                                assert(view_operands(operands@) =~= before.push(value@));
                            },
                            Err(f) => {
                                return Err(f);
                            },
                        }
                        i += 1;
                    }
                    let dest = st.new_temp(ret);
                    st.emit(Instr::Call { dest, callee: name.clone(), args: operands });
                    Ok((Operand::Temp(dest), ret))
                },
                None => Err(LoweringError::UnknownFunction(name.clone())),
            }
        },
        _ => match literal_operand(e) {
            Some(found) => Ok(found),
            None => match compile_comparison(st, funcs, e) {
                Ok(truth) => Ok((st.convert(truth, Conversion::ZeroExtend), VarType::Int32)),
                Err(f) => Err(f),
            },
        },
    }
}

/// Lowers an expression to a 32-bit integer.
pub fn compile_value(st: &mut Lowering, funcs: &Vec<Signature>, e: &ASTValue) -> (r: Result<
    Operand,
    LoweringError,
>)
    requires
        positioned(old(st)@),
    ensures
        computed(r, final(st)@) == lower_integer(view_signatures(funcs@), old(st)@, e@),
        in_place(old(st)@, final(st)@),
    decreases *e, 2nat,
{
    match compile_basic_value(st, funcs, e) {
        Ok((value, ty)) => coerce(st, value, ty),
        Err(f) => Err(f),
    }
}

/// Lowers the condition of a branch.
pub fn compile_condition(st: &mut Lowering, funcs: &Vec<Signature>, cond: &ASTValue) -> (r: Result<
    Operand,
    LoweringError,
>)
    requires
        positioned(old(st)@),
    ensures
        computed(r, final(st)@) == lower_condition(view_signatures(funcs@), old(st)@, cond@),
        in_place(old(st)@, final(st)@),
{
    match cond {
        ASTValue::Bool(b) => Ok(
            Operand::Int {
                ty: VarType::Bool,
                value: if *b {
                    1
                } else {
                    0
                },
            },
        ),
        _ => compile_comparison(st, funcs, cond),
    }
}

/// The state may have grown: it has a current block, and every block that
/// was there is still there.
pub open spec fn grown(before: LoweringView, after: LoweringView) -> bool {
    positioned(after) && after.blocks.len() >= before.blocks.len()
}

/// The type of the slot of a declaration.
pub fn choose_slot_type(declared: &String, natural: VarType) -> (ty: VarType)
    ensures
        ty == slot_type(declared@, natural),
{
    match resolve_type(declared) {
        Some(d) => {
            let both_integers = (d == VarType::Int32 || d == VarType::Int64) && (natural
                == VarType::Int32 || natural == VarType::Int64);
            let both_floats = (d == VarType::Float32 || d == VarType::Float64) && (natural
                == VarType::Float32 || natural == VarType::Float64);
            if both_integers || both_floats {
                d
            } else {
                natural
            }
        },
        None => natural,
    }
}

/// The conversion from one integer or float type to the other of its kind.
pub fn conversion_for(target: VarType) -> (kind: Conversion)
    ensures
        kind == conversion_to(target),
{
    match target {
        VarType::Int32 => Conversion::Truncate,
        VarType::Int64 => Conversion::SignExtend,
        VarType::Float32 => Conversion::FloatTruncate,
        _ => Conversion::FloatExtend,
    }
}

/// Declares a variable whose initializer is a comparison: the truth value,
/// widened, goes into a 32-bit integer slot.
pub fn build_comparison_var(
    st: &mut Lowering,
    funcs: &Vec<Signature>,
    ty: &String,
    name: &String,
    init: &ASTValue,
) -> (r: Result<(), LoweringError>)
    requires
        positioned(old(st)@),
        as_comparison(init@) is Some,
    ensures
        lowered(r, final(st)@) == lower_declaration(
            view_signatures(funcs@),
            old(st)@,
            ty@,
            name@,
            init@,
        ),
        in_place(old(st)@, final(st)@),
{
    match compile_basic_value(st, funcs, init) {
        Ok((value, _)) => {
            st.declare(name, VarType::Int32, value);
            Ok(())
        },
        Err(f) => Err(f),
    }
}

/// Lowers a declaration.
pub fn compile_declaration(
    st: &mut Lowering,
    funcs: &Vec<Signature>,
    ty: &String,
    name: &String,
    init: &ASTValue,
) -> (r: Result<(), LoweringError>)
    requires
        positioned(old(st)@),
    ensures
        lowered(r, final(st)@) == lower_declaration(
            view_signatures(funcs@),
            old(st)@,
            ty@,
            name@,
            init@,
        ),
        in_place(old(st)@, final(st)@),
{
    if comparison_parts(init).is_some() {
        return build_comparison_var(st, funcs, ty, name, init);
    }
    match compile_basic_value(st, funcs, init) {
        Ok((value, natural)) => {
            let target = choose_slot_type(ty, natural);
            let fitted = if natural == target {
                value
            } else {
                st.convert(value, conversion_for(target))
            };
            st.declare(name, target, fitted);
            Ok(())
        },
        Err(f) => Err(f),
    }
}

/// Prints a value of type `ty`.
pub fn compile_print_value(st: &mut Lowering, value: Operand, ty: VarType)
    requires
        positioned(old(st)@),
    ensures
        final(st)@ == print_value(old(st)@, value@, ty),
        in_place(old(st)@, final(st)@),
{
    match ty {
        VarType::Str => {
            st.emit(Instr::Print { value });
        },
        VarType::Bool => {
            let dest = st.new_temp(VarType::Str);
            st.emit(
                Instr::Select {
                    dest,
                    cond: value,
                    if_true: Operand::Str(String::from_str("true")),
                    if_false: Operand::Str(String::from_str("false")),
                },
            );
            st.emit(Instr::Print { value: Operand::Temp(dest) });
        },
        _ => {
            let dest = st.new_temp(VarType::Str);
            st.emit(Instr::Format { dest, ty, value });
            st.emit(Instr::Print { value: Operand::Temp(dest) });
        },
    }
}

/// Lowers one argument of the print call.
pub fn compile_print_argument(st: &mut Lowering, arg: &AST) -> (r: Result<(), LoweringError>)
    requires
        positioned(old(st)@),
    ensures
        lowered(r, final(st)@) == print_argument(old(st)@, arg@),
        in_place(old(st)@, final(st)@),
{
    match arg {
        AST::VarRef(name) => match st.find_local(name) {
            Some((slot, ty)) => {
                let value = st.load(slot, ty);
                compile_print_value(st, value, ty);
                Ok(())
            },
            None => Err(LoweringError::UnknownVariable(name.clone())),
        },
        AST::Literal(e) => match literal_operand(e) {
            Some((value, ty)) => {
                compile_print_value(st, value, ty);
                Ok(())
            },
            None => Ok(()),
        },
        _ => Ok(()),
    }
}

/// Lowers the print call with the arguments `args`.
#[verifier::loop_isolation(false)]
pub fn compile_print(st: &mut Lowering, args: &Vec<AST>) -> (r: Result<(), LoweringError>)
    requires
        positioned(old(st)@),
    ensures
        lowered(r, final(st)@) == lower_print(old(st)@, view_nodes(args@), 0),
        in_place(old(st)@, final(st)@),
{
    let ghost st0 = st@;
    let ghost av = view_nodes(args@);
    let mut i: usize = 0;
    while i < args.len()
        invariant
            i <= args.len(),
            av == view_nodes(args@),
            in_place(st0, st@),
            lower_print(st@, av, i as int) == lower_print(st0, av, 0),
        decreases args.len() - i,
    {
        match compile_print_argument(st, &args[i]) {
            Ok(_) => {},
            Err(f) => {
                return Err(f);
            },
        }
        i += 1;
    }
    Ok(())
}

/// Lowers the statements of a body, in order, up to its first return.
///
/// Where lowering fails, the state is left as it was when the failure was
/// found: nothing is undone, nothing more is appended, and the state still
/// has its current block and every block it had.
#[verifier::loop_isolation(false)]
pub fn compile_statements(statements: &Vec<AST>, st: &mut Lowering, funcs: &Vec<Signature>) -> (r:
    Result<(), LoweringError>)
    requires
        positioned(old(st)@),
    ensures
        lowered(r, final(st)@) == lower_statements(
            view_signatures(funcs@),
            old(st)@,
            view_nodes(statements@),
            0,
        ),
        grown(old(st)@, final(st)@),
    decreases *statements, 0nat,
{
    let ghost fv = view_signatures(funcs@);
    let ghost sv = view_nodes(statements@);
    let ghost st0 = st@;
    let mut i: usize = 0;
    while i < statements.len()
        invariant
            i <= statements.len(),
            grown(st0, st@),
            lower_statements(fv, st@, sv, i as int) == lower_statements(fv, st0, sv, 0),
        decreases statements.len() - i,
    {
        match compile_statement(&statements[i], st, funcs) {
            Ok(_) => {},
            Err(f) => {
                return Err(f);
            },
        }
        if matches!(statements[i], AST::Return(_)) {
            return Ok(());
        }
        i += 1;
    }
    Ok(())
}

/// Lowers a body of a conditional into block `block` and ends it with the
/// branch to the merge block.
pub fn compile_branch(
    body: &Vec<AST>,
    st: &mut Lowering,
    funcs: &Vec<Signature>,
    block: usize,
    merge: usize,
) -> (r: Result<(), LoweringError>)
    requires
        positioned(old(st)@),
        block < old(st)@.blocks.len(),
    ensures
        lowered(r, final(st)@) == lower_branch(
            view_signatures(funcs@),
            old(st)@,
            view_nodes(body@),
            block as int,
            merge as int,
        ),
        grown(old(st)@, final(st)@),
    decreases *body, 1nat,
{
    st.move_to(block);
    match compile_statements(body, st, funcs) {
        Ok(_) => {
            st.terminate(Terminator::Branch(merge));
            Ok(())
        },
        Err(f) => Err(f),
    }
}

/// Makes the blocks of an `if` and ends the current block with the branch
/// on `cond`. Gives the block of the body, the merge block and the else
/// block.
pub fn begin_if(st: &mut Lowering, cond: Operand) -> (r: (usize, usize, usize))
    requires
        positioned(old(st)@),
    ensures
        final(st)@ == open_if(old(st)@, cond@),
        positioned(final(st)@),
        final(st)@.blocks.len() == old(st)@.blocks.len() + 3,
        r.0 == old(st)@.blocks.len(),
        r.1 == r.0 + 1,
        r.2 == r.0 + 2,
{
    let then_block = st.new_block(BlockLabel::Then);
    let merge = st.new_block(BlockLabel::Merge);
    let else_block = st.new_block(BlockLabel::Else);
    st.terminate(Terminator::CondBranch { cond, then_block, else_block });
    (then_block, merge, else_block)
}

/// Lowers one `elif` clause, which is tested in `else_block`. Gives the
/// block that its failed test leads to.
pub fn compile_elif(
    clause: &(ASTValue, Vec<AST>),
    st: &mut Lowering,
    funcs: &Vec<Signature>,
    else_block: usize,
    merge: usize,
) -> (r: Result<usize, LoweringError>)
    requires
        positioned(old(st)@),
        else_block < old(st)@.blocks.len(),
    ensures
        match r {
            Ok(next) => lower_elif(
                view_signatures(funcs@),
                old(st)@,
                view_clause(*clause),
                else_block as int,
                merge as int,
            ) == Ok::<_, Failed>(final(st)@) && next == old(st)@.blocks.len() + 1 && next
                < final(st)@.blocks.len(),
            Err(f) => lower_elif(
                view_signatures(funcs@),
                old(st)@,
                view_clause(*clause),
                else_block as int,
                merge as int,
            ) == Err::<LoweringView, _>((final(st)@, f@)),
        },
        grown(old(st)@, final(st)@),
    decreases *clause, 0nat,
{
    proof {
        lemma_nodes_view(clause.1);
    }
    st.move_to(else_block);
    let body_block = st.new_block(BlockLabel::Elif);
    let next_block = st.new_block(BlockLabel::ElseNext);
    let cond = match compile_condition(st, funcs, &clause.0) {
        Ok(c) => c,
        Err(f) => {
            return Err(f);
        },
    };
    st.terminate(Terminator::CondBranch { cond, then_block: body_block, else_block: next_block });
    match compile_branch(&clause.1, st, funcs, body_block, merge) {
        Ok(_) => Ok(next_block),
        Err(f) => Err(f),
    }
}

/// Lowers the end of a conditional: the else body into `else_block`, the
/// branch to the merge block, and the move to the merge block.
pub fn compile_else(
    else_body: &Option<Vec<AST>>,
    st: &mut Lowering,
    funcs: &Vec<Signature>,
    else_block: usize,
    merge: usize,
) -> (r: Result<(), LoweringError>)
    requires
        positioned(old(st)@),
        else_block < old(st)@.blocks.len(),
        merge < old(st)@.blocks.len(),
    ensures
        lowered(r, final(st)@) == lower_else(
            view_signatures(funcs@),
            old(st)@,
            view_opt_nodes(*else_body),
            else_block as int,
            merge as int,
        ),
        grown(old(st)@, final(st)@),
    decreases *else_body, 0nat,
{
    match else_body {
        Some(body) => match compile_branch(body, st, funcs, else_block, merge) {
            Ok(_) => {},
            Err(f) => {
                return Err(f);
            },
        },
        None => {
            st.move_to(else_block);
            st.terminate(Terminator::Branch(merge));
        },
    }
    st.move_to(merge);
    Ok(())
}

/// The model of the outcome of lowering `elif` clauses in the state `st`
/// that it leaves, on success and on failure.
pub open spec fn lowered_elifs(r: Result<usize, LoweringError>, st: LoweringView) -> Result<
    (LoweringView, int),
    Failed,
> {
    match r {
        Ok(last) => Ok((st, last as int)),
        Err(e) => Err((st, e@)),
    }
}

/// Lowers the `elif` clauses of a conditional. Gives the block that the
/// last failed test leads to.
pub fn compile_elifs(
    elif_branches: &Vec<(ASTValue, Vec<AST>)>,
    st: &mut Lowering,
    funcs: &Vec<Signature>,
    else_block: usize,
    merge: usize,
) -> (r: Result<usize, LoweringError>)
    requires
        positioned(old(st)@),
        else_block < old(st)@.blocks.len(),
    ensures
        lowered_elifs(r, final(st)@) == lower_elifs(
            view_signatures(funcs@),
            old(st)@,
            view_clauses(elif_branches@),
            0,
            else_block as int,
            merge as int,
        ),
        grown(old(st)@, final(st)@),
        r matches Ok(last) ==> last < final(st)@.blocks.len(),
    decreases *elif_branches, 1nat,
{
    let ghost fv = view_signatures(funcs@);
    let ghost ev = view_clauses(elif_branches@);
    let ghost st0 = st@;
    let mut last_else: usize = else_block;
    let mut k: usize = 0;
    while k < elif_branches.len()
        invariant
            k <= elif_branches.len(),
            fv == view_signatures(funcs@),
            ev == view_clauses(elif_branches@),
            grown(st0, st@),
            last_else < st@.blocks.len(),
            lower_elifs(fv, st@, ev, k as int, last_else as int, merge as int) == lower_elifs(
                fv,
                st0,
                ev,
                0,
                else_block as int,
                merge as int,
            ),
            st0 == old(st)@,
        decreases elif_branches.len() - k,
    {
        match compile_elif(&elif_branches[k], st, funcs, last_else, merge) {
            Ok(next) => {
                last_else = next;
            },
            Err(f) => {
                return Err(f);
            },
        }
        k += 1;
    }
    Ok(last_else)
}

/// Lowers a conditional with its `elif` clauses and its `else` body.
pub fn compile_if(stmt: &AST, st: &mut Lowering, funcs: &Vec<Signature>) -> (r: Result<
    (),
    LoweringError,
>)
    requires
        positioned(old(st)@),
        stmt is If,
    ensures
        lowered(r, final(st)@) == lower_statement(view_signatures(funcs@), old(st)@, stmt@),
        grown(old(st)@, final(st)@),
    decreases *stmt, 0nat,
{
    match stmt {
        AST::If { condition, then_body, elif_branches, else_body } => {
            proof {
                lemma_if_view(*condition, *then_body, *elif_branches, *else_body);
            }
            let cond = match compile_condition(st, funcs, condition) {
                Ok(c) => c,
                Err(f) => {
                    return Err(f);
                },
            };
            let (then_block, merge, else_block) = begin_if(st, cond);
            match compile_branch(then_body, st, funcs, then_block, merge) {
                Ok(_) => {},
                Err(f) => {
                    return Err(f);
                },
            }
            let last_else = match compile_elifs(elif_branches, st, funcs, else_block, merge) {
                Ok(b) => b,
                Err(f) => {
                    return Err(f);
                },
            };
            compile_else(else_body, st, funcs, last_else, merge)
        },
        _ => Ok(()),
    }
}

/// Lowers one statement.
pub fn compile_statement(stmt: &AST, st: &mut Lowering, funcs: &Vec<Signature>) -> (r: Result<
    (),
    LoweringError,
>)
    requires
        positioned(old(st)@),
    ensures
        lowered(r, final(st)@) == lower_statement(view_signatures(funcs@), old(st)@, stmt@),
        grown(old(st)@, final(st)@),
    decreases *stmt, 1nat,
{
    match stmt {
        AST::VarDecl(ty, name, init) => compile_declaration(st, funcs, ty, name, init),
        AST::Call { object, method, args } => {
            proof {
                lemma_nodes_view(*args);
            }
            if str_eq(object.as_str(), "console") && str_eq(method.as_str(), "print") {
                compile_print(st, args)
            } else {
                Ok(())
            }
        },
        AST::Return(e) => match compile_basic_value(st, funcs, e) {
            Ok((value, _)) => {
                st.terminate(Terminator::Return(value));
                Ok(())
            },
            Err(f) => Err(f),
        },
        AST::If { .. } => compile_if(stmt, st, funcs),
        _ => Ok(()),
    }
}

/// The zero that a function of return type `ty` returns where its body does
/// not return.
pub fn zero_operand(ty: VarType) -> (value: Operand)
    ensures
        value@ == zero_value(ty),
{
    match ty {
        VarType::Int32 => Operand::Int { ty: VarType::Int32, value: 0 },
        VarType::Int64 => Operand::Int { ty: VarType::Int64, value: 0 },
        VarType::Float32 => Operand::Float { ty: VarType::Float32, text: String::from_str("0.0") },
        VarType::Float64 => Operand::Float { ty: VarType::Float64, text: String::from_str("0.0") },
        VarType::Bool => Operand::Int { ty: VarType::Bool, value: 0 },
        VarType::Str => Operand::Int { ty: VarType::Int32, value: 0 },
    }
}

/// The type that a function returns.
pub fn resolve_return_type(declared: &Option<String>) -> (r: Result<VarType, LoweringError>)
    ensures
        match r {
            Ok(ty) => return_type(view_opt_text(*declared)) == Ok::<_, LoweringFailure>(ty),
            Err(f) => return_type(view_opt_text(*declared)) == Err::<VarType, _>(f@),
        },
{
    match declared {
        None => Ok(VarType::Int32),
        Some(name) => {
            if str_eq(name.as_str(), "void") {
                Ok(VarType::Int32)
            } else {
                match resolve_type(name) {
                    Some(ty) => Ok(ty),
                    None => Err(LoweringError::UnsupportedType(name.clone())),
                }
            }
        },
    }
}

/// The signature of a function definition.
#[verifier::loop_isolation(false)]
pub fn resolve_signature(
    name: &String,
    params: &Vec<(String, String)>,
    declared: &Option<String>,
) -> (r: Result<Signature, LoweringError>)
    ensures
        match r {
            Ok(sig) => signature_of(name@, view_params(params@), view_opt_text(*declared)) == Ok::<
                _,
                LoweringFailure,
            >(sig@) && sig.params.len() == params.len(),
            Err(f) => signature_of(name@, view_params(params@), view_opt_text(*declared)) == Err::<
                SignatureView,
                _,
            >(f@),
        },
{
    let ghost pv = view_params(params@);
    let mut types: Vec<VarType> = Vec::new();
    let mut i: usize = 0;
    while i < params.len()
        invariant
            i <= params.len(),
            types.len() == i,
            param_types(pv, i as int, types@) == param_types(pv, 0, Seq::empty()),
        decreases params.len() - i,
    {
        match resolve_type(&params[i].1) {
            Some(ty) => {
                types.push(ty);
            },
            None => {
                return Err(LoweringError::UnsupportedType(params[i].1.clone()));
            },
        }
        i += 1;
    }
    match resolve_return_type(declared) {
        Ok(ret) => Ok(Signature { name: name.clone(), params: types, ret }),
        Err(f) => Err(f),
    }
}

/// Registers the signature of every function definition of the program.
#[verifier::loop_isolation(false)]
pub fn declare_functions(ast: &Vec<AST>) -> (r: Result<Vec<Signature>, LoweringError>)
    ensures
        match r {
            Ok(funcs) => signatures(view_nodes(ast@), 0, Seq::empty()) == Ok::<_, LoweringFailure>(
                view_signatures(funcs@),
            ),
            Err(f) => signatures(view_nodes(ast@), 0, Seq::empty()) == Err::<
                Seq<SignatureView>,
                _,
            >(f@),
        },
{
    let ghost nv = view_nodes(ast@);
    let mut funcs: Vec<Signature> = Vec::new();
    let mut i: usize = 0;
    assert(view_signatures(funcs@) =~= Seq::<SignatureView>::empty());
    while i < ast.len()
        invariant
            i <= ast.len(),
            signatures(nv, i as int, view_signatures(funcs@)) == signatures(nv, 0, Seq::empty()),
        decreases ast.len() - i,
    {
        match &ast[i] {
            AST::FuncDef { name, params, return_type, body } => {
                match resolve_signature(name, params, return_type) {
                    Ok(sig) => {
                        let ghost before = view_signatures(funcs@);
                        funcs.push(sig);
                        assert(view_signatures(funcs@) =~= before.push(sig@));
                    },
                    Err(f) => {
                        return Err(f);
                    },
                }
            },
            _ => {},
        }
        i += 1;
    }
    Ok(funcs)
}

/// Lowers one function definition: the parameters get their slots, the body
/// is lowered, and a last block that the body leaves open returns zero.
#[verifier::loop_isolation(false)]
pub fn compile_function(
    name: &String,
    params: &Vec<(String, String)>,
    declared: &Option<String>,
    body: &Vec<AST>,
    funcs: &Vec<Signature>,
) -> (r: Result<Function, LoweringError>)
    ensures
        match r {
            Ok(f) => lower_function(
                view_signatures(funcs@),
                name@,
                view_params(params@),
                view_opt_text(*declared),
                view_nodes(body@),
            ) == Ok::<_, LoweringFailure>(f@),
            Err(e) => lower_function(
                view_signatures(funcs@),
                name@,
                view_params(params@),
                view_opt_text(*declared),
                view_nodes(body@),
            ) == Err::<FunctionView, _>(e@),
        },
{
    let ghost pv = view_params(params@);
    let sig = match resolve_signature(name, params, declared) {
        Ok(sig) => sig,
        Err(f) => {
            return Err(f);
        },
    };
    let mut st = Lowering::new();
    let mut i: usize = 0;
    while i < params.len()
        invariant
            i <= params.len(),
            positioned(st@),
            bind_params(st@, pv, sig.params@, i as int) == bind_params(
                entry_state(),
                pv,
                sig.params@,
                0,
            ),
        decreases params.len() - i,
    {
        st.declare(&params[i].0, sig.params[i], Operand::Param(i));
        i += 1;
    }
    match compile_statements(body, &mut st, funcs) {
        Ok(_) => {},
        Err(f) => {
            return Err(f);
        },
    }
    st.terminate(Terminator::Return(zero_operand(sig.ret)));
    Ok(
        Function {
            name: name.clone(),
            params: sig.params,
            ret: sig.ret,
            slots: st.slots,
            temps: st.temps,
            blocks: st.blocks,
        },
    )
}

/// Lowers a program to a module.
///
/// The result is the module that `lower_program` defines for the syntax
/// tree: the signatures of all functions are registered first, then each
/// function definition is lowered. Every block of the module has its
/// terminator, and every temporary, slot, parameter and block that the
/// module names exists. Where a type name, a variable, a function name or a
/// condition cannot be lowered, the result is the first such failure.
#[verifier::loop_isolation(false)]
pub fn compile(ast: Vec<AST>) -> (r: Result<Module, LoweringError>)
    ensures
        match r {
            Ok(m) => lower_program(view_nodes(ast@)) == Ok::<_, LoweringFailure>(m@),
            Err(f) => lower_program(view_nodes(ast@)) == Err::<ModuleView, _>(f@),
        },
        r matches Ok(m) ==> module_terminated(m@) && valid_module(m@),
{
    let ghost nv = view_nodes(ast@);
    proof {
        lemma_program_terminated(nv);
        lemma_program_valid(nv);
    }
    let funcs = match declare_functions(&ast) {
        Ok(funcs) => funcs,
        Err(f) => {
            return Err(f);
        },
    };
    let ghost fv = view_signatures(funcs@);
    let mut functions: Vec<Function> = Vec::new();
    let mut imports: Vec<String> = Vec::new();
    let mut skipped: Vec<usize> = Vec::new();
    let mut i: usize = 0;
    proof {
        assert(view_functions(functions@) =~= Seq::<FunctionView>::empty());
        assert(view_texts(imports@) =~= Seq::<Seq<char>>::empty());
        assert(view_indices(skipped@) =~= Seq::<int>::empty());
    }
    while i < ast.len()
        invariant
            i <= ast.len(),
            lower_items(
                fv,
                nv,
                i as int,
                ModuleView {
                    name: "magolor"@,
                    functions: view_functions(functions@),
                    imports: view_texts(imports@),
                    skipped: view_indices(skipped@),
                },
            ) == lower_items(fv, nv, 0, empty_module()),
        decreases ast.len() - i,
    {
        match &ast[i] {
            AST::FuncDef { name, params, return_type, body } => {
                proof {
                    lemma_nodes_view(*body);
                }
                match compile_function(name, params, return_type, body, &funcs) {
                    Ok(f) => {
                        let ghost before = view_functions(functions@);
                        functions.push(f);
                        assert(view_functions(functions@) =~= before.push(f@));
                    },
                    Err(f) => {
                        return Err(f);
                    },
                }
            },
            AST::Import(package) => {
                let ghost before = view_texts(imports@);
                imports.push(package.clone());
                assert(view_texts(imports@) =~= before.push(package@));
            },
            AST::NewLine => {},
            _ => {
                let ghost before = view_indices(skipped@);
                skipped.push(i);
                assert(view_indices(skipped@) =~= before.push(i as int));
            },
        }
        i += 1;
    }
    Ok(Module { name: String::from_str("magolor"), functions, imports, skipped })
}

} // verus!
