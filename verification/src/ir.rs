//! The intermediate representation: a module of functions, each a list of
//! basic blocks that hold instructions over typed storage slots and end in
//! one terminator. Slots, temporaries and blocks are named by their index in
//! the tables of the function that owns them.

use vstd::prelude::*;

verus! {

/// The scalar types.
#[derive(Debug, Clone, Copy, PartialEq, Eq, Structural)]
pub enum VarType {
    Int32,
    Int64,
    Float32,
    Float64,
    Bool,
    Str,
}

/// The signed integer comparisons.
#[derive(Debug, Clone, Copy, PartialEq, Eq, Structural)]
pub enum Predicate {
    Less,
    Greater,
    LessEq,
    GreaterEq,
    Equal,
    NotEqual,
}

/// The conversions between scalar types.
#[derive(Debug, Clone, Copy, PartialEq, Eq, Structural)]
pub enum Conversion {
    /// 64-bit integer to 32-bit integer.
    Truncate,
    /// 32-bit integer to 64-bit integer, keeping the sign.
    SignExtend,
    /// Truth value or boolean to 32-bit integer, 0 or 1.
    ZeroExtend,
    /// Float to 32-bit integer, toward zero.
    FloatToInt,
    /// 32-bit float to 64-bit float.
    FloatExtend,
    /// 64-bit float to 32-bit float.
    FloatTruncate,
}

/// What a block is for.
#[derive(Debug, Clone, Copy, PartialEq, Eq, Structural)]
pub enum BlockLabel {
    Entry,
    Then,
    Merge,
    Else,
    Elif,
    ElseNext,
}

/// The name of a block with the label `label`.
pub open spec fn label_text(label: BlockLabel) -> Seq<char> {
    match label {
        BlockLabel::Entry => "entry"@,
        BlockLabel::Then => "then"@,
        BlockLabel::Merge => "merge"@,
        BlockLabel::Else => "else"@,
        BlockLabel::Elif => "elif"@,
        BlockLabel::ElseNext => "else_next"@,
    }
}

/// The name of a block with the label `label`.
pub fn label_name(label: BlockLabel) -> (name: &'static str)
    ensures
        name@ == label_text(label),
{
    match label {
        BlockLabel::Entry => "entry",
        BlockLabel::Then => "then",
        BlockLabel::Merge => "merge",
        BlockLabel::Else => "else",
        BlockLabel::Elif => "elif",
        BlockLabel::ElseNext => "else_next",
    }
}

/// The format specifier that turns a number of type `ty` into its text:
/// decimal for the integers, two decimal places for the floats. Strings and
/// booleans have none.
pub open spec fn format_of(ty: VarType) -> Option<Seq<char>> {
    match ty {
        VarType::Int32 => Some("%d"@),
        VarType::Int64 => Some("%lld"@),
        VarType::Float32 => Some("%.2f"@),
        VarType::Float64 => Some("%.2lf"@),
        VarType::Bool => None,
        VarType::Str => None,
    }
}

/// The format specifier of the numbers of type `ty`.
pub fn format_specifier(ty: VarType) -> (r: Option<&'static str>)
    ensures
        match r {
            Some(s) => format_of(ty) == Some(s@),
            None => format_of(ty) is None,
        },
{
    match ty {
        VarType::Int32 => Some("%d"),
        VarType::Int64 => Some("%lld"),
        VarType::Float32 => Some("%.2f"),
        VarType::Float64 => Some("%.2lf"),
        VarType::Bool => None,
        VarType::Str => None,
    }
}

/// A value that an instruction reads.
#[derive(Debug, Clone, PartialEq)]
pub enum Operand {
    /// An integer constant of type `Int32`, `Int64` or `Bool`.
    Int { ty: VarType, value: i64 },
    /// A float constant, by the decimal text of its literal.
    Float { ty: VarType, text: String },
    /// A string constant.
    Str(String),
    /// The result of the instruction that defines this temporary.
    Temp(usize),
    /// An incoming parameter of the function.
    Param(usize),
}

/// The mathematical value of an operand.
pub enum OperandView {
    Int { ty: VarType, value: i64 },
    Float { ty: VarType, text: Seq<char> },
    Str(Seq<char>),
    Temp(int),
    Param(int),
}

impl View for Operand {
    type V = OperandView;

    open spec fn view(&self) -> OperandView {
        match self {
            Operand::Int { ty, value } => OperandView::Int { ty: *ty, value: *value },
            Operand::Float { ty, text } => OperandView::Float { ty: *ty, text: text@ },
            Operand::Str(s) => OperandView::Str(s@),
            Operand::Temp(n) => OperandView::Temp(*n as int),
            Operand::Param(n) => OperandView::Param(*n as int),
        }
    }
}

/// The values of a sequence of operands.
pub open spec fn view_operands(os: Seq<Operand>) -> Seq<OperandView> {
    Seq::new(os.len(), |i: int| os[i]@)
}

/// An instruction. `dest` is the temporary that the instruction defines.
#[derive(Debug, Clone, PartialEq)]
pub enum Instr {
    /// Allocates the storage of a slot.
    Alloca { slot: usize },
    Store { slot: usize, value: Operand },
    Load { dest: usize, slot: usize },
    Call { dest: usize, callee: String, args: Vec<Operand> },
    /// Compares two 32-bit integers; the result is a truth value.
    Compare { dest: usize, pred: Predicate, lhs: Operand, rhs: Operand },
    Convert { dest: usize, kind: Conversion, value: Operand },
    /// Turns a number of type `ty` into its text.
    Format { dest: usize, ty: VarType, value: Operand },
    /// Picks one of two values by a truth value, without a branch.
    Select { dest: usize, cond: Operand, if_true: Operand, if_false: Operand },
    /// Hands one string to the print primitive.
    Print { value: Operand },
}

/// The mathematical value of an instruction.
pub enum InstrView {
    Alloca { slot: int },
    Store { slot: int, value: OperandView },
    Load { dest: int, slot: int },
    Call { dest: int, callee: Seq<char>, args: Seq<OperandView> },
    Compare { dest: int, pred: Predicate, lhs: OperandView, rhs: OperandView },
    Convert { dest: int, kind: Conversion, value: OperandView },
    Format { dest: int, ty: VarType, value: OperandView },
    Select { dest: int, cond: OperandView, if_true: OperandView, if_false: OperandView },
    Print { value: OperandView },
}

impl View for Instr {
    type V = InstrView;

    open spec fn view(&self) -> InstrView {
        match self {
            Instr::Alloca { slot } => InstrView::Alloca { slot: *slot as int },
            Instr::Store { slot, value } => InstrView::Store { slot: *slot as int, value: value@ },
            Instr::Load { dest, slot } => InstrView::Load { dest: *dest as int, slot: *slot as int },
            Instr::Call { dest, callee, args } => InstrView::Call {
                dest: *dest as int,
                callee: callee@,
                args: view_operands(args@),
            },
            Instr::Compare { dest, pred, lhs, rhs } => InstrView::Compare {
                dest: *dest as int,
                pred: *pred,
                lhs: lhs@,
                rhs: rhs@,
            },
            Instr::Convert { dest, kind, value } => InstrView::Convert {
                dest: *dest as int,
                kind: *kind,
                value: value@,
            },
            Instr::Format { dest, ty, value } => InstrView::Format {
                dest: *dest as int,
                ty: *ty,
                value: value@,
            },
            Instr::Select { dest, cond, if_true, if_false } => InstrView::Select {
                dest: *dest as int,
                cond: cond@,
                if_true: if_true@,
                if_false: if_false@,
            },
            Instr::Print { value } => InstrView::Print { value: value@ },
        }
    }
}

/// The values of a sequence of instructions.
pub open spec fn view_instrs(is: Seq<Instr>) -> Seq<InstrView> {
    Seq::new(is.len(), |i: int| is[i]@)
}

/// The instruction that ends a block.
#[derive(Debug, Clone, PartialEq)]
pub enum Terminator {
    Branch(usize),
    CondBranch { cond: Operand, then_block: usize, else_block: usize },
    Return(Operand),
}

/// The mathematical value of a terminator.
pub enum TerminatorView {
    Branch(int),
    CondBranch { cond: OperandView, then_block: int, else_block: int },
    Return(OperandView),
}

impl View for Terminator {
    type V = TerminatorView;

    open spec fn view(&self) -> TerminatorView {
        match self {
            Terminator::Branch(b) => TerminatorView::Branch(*b as int),
            Terminator::CondBranch { cond, then_block, else_block } => TerminatorView::CondBranch {
                cond: cond@,
                then_block: *then_block as int,
                else_block: *else_block as int,
            },
            Terminator::Return(v) => TerminatorView::Return(v@),
        }
    }
}

/// A basic block. It has no terminator only while it is being built.
#[derive(Debug, Clone, PartialEq)]
pub struct Block {
    pub label: BlockLabel,
    pub instrs: Vec<Instr>,
    pub terminator: Option<Terminator>,
}

/// The mathematical value of a block.
pub struct BlockView {
    pub label: BlockLabel,
    pub instrs: Seq<InstrView>,
    pub terminator: Option<TerminatorView>,
}

impl View for Block {
    type V = BlockView;

    open spec fn view(&self) -> BlockView {
        BlockView {
            label: self.label,
            instrs: view_instrs(self.instrs@),
            terminator: match self.terminator {
                Some(t) => Some(t@),
                None => None,
            },
        }
    }
}

/// The values of a sequence of blocks.
pub open spec fn view_blocks(bs: Seq<Block>) -> Seq<BlockView> {
    Seq::new(bs.len(), |i: int| bs[i]@)
}

/// A storage slot: the name of the variable it was made for, and its type.
#[derive(Debug, Clone, PartialEq)]
pub struct Slot {
    pub name: String,
    pub ty: VarType,
}

/// The mathematical value of a slot.
pub struct SlotView {
    pub name: Seq<char>,
    pub ty: VarType,
}

impl View for Slot {
    type V = SlotView;

    open spec fn view(&self) -> SlotView {
        SlotView { name: self.name@, ty: self.ty }
    }
}

/// The values of a sequence of slots.
pub open spec fn view_slots(ss: Seq<Slot>) -> Seq<SlotView> {
    Seq::new(ss.len(), |i: int| ss[i]@)
}

/// A lowered function. `temps` gives the type of each temporary.
#[derive(Debug, Clone, PartialEq)]
pub struct Function {
    pub name: String,
    pub params: Vec<VarType>,
    pub ret: VarType,
    pub slots: Vec<Slot>,
    pub temps: Vec<VarType>,
    pub blocks: Vec<Block>,
}

/// The mathematical value of a function.
pub struct FunctionView {
    pub name: Seq<char>,
    pub params: Seq<VarType>,
    pub ret: VarType,
    pub slots: Seq<SlotView>,
    pub temps: Seq<VarType>,
    pub blocks: Seq<BlockView>,
}

impl View for Function {
    type V = FunctionView;

    open spec fn view(&self) -> FunctionView {
        FunctionView {
            name: self.name@,
            params: self.params@,
            ret: self.ret,
            slots: view_slots(self.slots@),
            temps: self.temps@,
            blocks: view_blocks(self.blocks@),
        }
    }
}

/// The values of a sequence of functions.
pub open spec fn view_functions(fs: Seq<Function>) -> Seq<FunctionView> {
    Seq::new(fs.len(), |i: int| fs[i]@)
}

/// The values of a sequence of texts.
pub open spec fn view_texts(ss: Seq<String>) -> Seq<Seq<char>> {
    Seq::new(ss.len(), |i: int| ss[i]@)
}

/// A sequence of indices as mathematical integers.
pub open spec fn view_indices(ns: Seq<usize>) -> Seq<int> {
    Seq::new(ns.len(), |i: int| ns[i] as int)
}

/// A lowered program: one function for each function definition, the
/// modules that the program imports, and the positions of the top-level
/// statements that stand outside every function and were left out.
#[derive(Debug, Clone, PartialEq)]
pub struct Module {
    pub name: String,
    pub functions: Vec<Function>,
    pub imports: Vec<String>,
    pub skipped: Vec<usize>,
}

/// The mathematical value of a module.
pub struct ModuleView {
    pub name: Seq<char>,
    pub functions: Seq<FunctionView>,
    pub imports: Seq<Seq<char>>,
    pub skipped: Seq<int>,
}

impl View for Module {
    type V = ModuleView;

    open spec fn view(&self) -> ModuleView {
        ModuleView {
            name: self.name@,
            functions: view_functions(self.functions@),
            imports: view_texts(self.imports@),
            skipped: view_indices(self.skipped@),
        }
    }
}

/// Why a program cannot be lowered.
#[derive(Debug, Clone, PartialEq)]
pub enum LoweringError {
    /// A type name that names no scalar type.
    UnsupportedType(String),
    /// A variable that no declaration or parameter binds.
    UnknownVariable(String),
    /// A call of a function that the program does not define.
    UnknownFunction(String),
    /// A string where an integer is needed.
    UnsupportedCoercion,
    /// A condition that is neither a comparison nor a boolean literal.
    UnsupportedCondition,
}

/// The mathematical value of a lowering error.
pub enum LoweringFailure {
    UnsupportedType(Seq<char>),
    UnknownVariable(Seq<char>),
    UnknownFunction(Seq<char>),
    UnsupportedCoercion,
    UnsupportedCondition,
}

impl View for LoweringError {
    type V = LoweringFailure;

    open spec fn view(&self) -> LoweringFailure {
        match self {
            LoweringError::UnsupportedType(s) => LoweringFailure::UnsupportedType(s@),
            LoweringError::UnknownVariable(s) => LoweringFailure::UnknownVariable(s@),
            LoweringError::UnknownFunction(s) => LoweringFailure::UnknownFunction(s@),
            LoweringError::UnsupportedCoercion => LoweringFailure::UnsupportedCoercion,
            LoweringError::UnsupportedCondition => LoweringFailure::UnsupportedCondition,
        }
    }
}

} // verus!
