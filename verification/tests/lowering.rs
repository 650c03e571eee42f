use magolor_compiler::ast::{ASTValue, AST};
use magolor_compiler::codegen::{
    compile, compile_basic_value, compile_condition, compile_statements, compile_value,
    declare_functions, resolve_type, Local, Lowering, Signature,
};
use magolor_compiler::ir::{
    format_specifier, label_name, Block, BlockLabel, Conversion, Function, Instr, LoweringError,
    Module, Operand, Predicate, Slot, Terminator, VarType,
};
use magolor_compiler::parser::parseTokens;
use magolor_compiler::tokenizer::tokenizeFile;

fn ast(src: &str) -> Vec<AST> {
    let tokens = tokenizeFile(src).expect("the text should lex");
    parseTokens(&tokens).expect("the tokens should parse")
}

fn lower(src: &str) -> Result<Module, LoweringError> {
    compile(ast(src))
}

fn only_function(src: &str) -> Function {
    let mut m = lower(src).expect("the program should lower");
    assert_eq!(m.functions.len(), 1);
    m.functions.remove(0)
}

fn int32(value: i64) -> Operand {
    Operand::Int { ty: VarType::Int32, value }
}

fn int64(value: i64) -> Operand {
    Operand::Int { ty: VarType::Int64, value }
}

fn float32(text: &str) -> Operand {
    Operand::Float { ty: VarType::Float32, text: text.to_string() }
}

fn float64(text: &str) -> Operand {
    Operand::Float { ty: VarType::Float64, text: text.to_string() }
}

fn slot(name: &str, ty: VarType) -> Slot {
    Slot { name: name.to_string(), ty }
}

fn block(label: BlockLabel, instrs: Vec<Instr>, terminator: Terminator) -> Block {
    Block { label, instrs, terminator: Some(terminator) }
}

fn all_blocks_end(f: &Function) -> bool {
    f.blocks.iter().all(|b| b.terminator.is_some())
}

#[test]
fn empty_function_returns_zero() {
    assert_eq!(
        lower("fn main() { }"),
        Ok(Module {
            name: "magolor".to_string(),
            functions: vec![Function {
                name: "main".to_string(),
                params: vec![],
                ret: VarType::Int32,
                slots: vec![],
                temps: vec![],
                blocks: vec![block(BlockLabel::Entry, vec![], Terminator::Return(int32(0)))],
            }],
            imports: vec![],
            skipped: vec![],
        })
    );
}

#[test]
fn default_return_is_the_zero_of_the_return_type() {
    let ret = |src: &str| {
        let f = only_function(src);
        (f.ret, f.blocks[0].terminator.clone())
    };
    assert_eq!(
        ret("i32 fn f() {}"),
        (VarType::Int32, Some(Terminator::Return(int32(0))))
    );
    assert_eq!(
        ret("i64 fn f() {}"),
        (VarType::Int64, Some(Terminator::Return(int64(0))))
    );
    assert_eq!(
        ret("f32 fn f() {}"),
        (VarType::Float32, Some(Terminator::Return(float32("0.0"))))
    );
    assert_eq!(
        ret("f64 fn f() {}"),
        (VarType::Float64, Some(Terminator::Return(float64("0.0"))))
    );
    assert_eq!(
        ret("bool fn f() {}"),
        (
            VarType::Bool,
            Some(Terminator::Return(Operand::Int { ty: VarType::Bool, value: 0 }))
        )
    );
    assert_eq!(
        ret("void fn f() {}"),
        (VarType::Int32, Some(Terminator::Return(int32(0))))
    );
}

#[test]
fn string_function_falls_back_to_integer_zero() {
    let program = vec![AST::FuncDef {
        name: "f".to_string(),
        params: vec![("s".to_string(), "str".to_string())],
        return_type: Some("str".to_string()),
        body: vec![],
    }];
    let m = compile(program).unwrap();
    let f = &m.functions[0];
    assert_eq!(f.ret, VarType::Str);
    assert_eq!(f.params, vec![VarType::Str]);
    assert_eq!(f.slots, vec![slot("s", VarType::Str)]);
    assert_eq!(
        f.blocks,
        vec![block(
            BlockLabel::Entry,
            vec![
                Instr::Alloca { slot: 0 },
                Instr::Store { slot: 0, value: Operand::Param(0) },
            ],
            Terminator::Return(int32(0)),
        )]
    );
}

#[test]
fn literal_declaration_stores_the_constant() {
    let f = only_function("fn main() { let i32 x = 5; }");
    assert_eq!(f.slots, vec![slot("x", VarType::Int32)]);
    assert_eq!(f.temps, vec![]);
    assert_eq!(
        f.blocks,
        vec![block(
            BlockLabel::Entry,
            vec![Instr::Alloca { slot: 0 }, Instr::Store { slot: 0, value: int32(5) }],
            Terminator::Return(int32(0)),
        )]
    );
}

#[test]
fn every_literal_kind_keeps_its_value() {
    let f = only_function(
        "fn main() { let a = 2147483647; let b = 9223372036854775807i64; let c = 1.25; \
         let d = 0.1f64; let e = true; let g = false; let h = \"text\"; }",
    );
    let stored: Vec<Operand> = f.blocks[0]
        .instrs
        .iter()
        .filter_map(|i| match i {
            Instr::Store { value, .. } => Some(value.clone()),
            _ => None,
        })
        .collect();
    assert_eq!(
        stored,
        vec![
            int32(2147483647),
            int64(9223372036854775807),
            float32("1.25"),
            float64("0.1"),
            Operand::Int { ty: VarType::Bool, value: 1 },
            Operand::Int { ty: VarType::Bool, value: 0 },
            Operand::Str("text".to_string()),
        ]
    );
    assert_eq!(
        f.slots,
        vec![
            slot("a", VarType::Int32),
            slot("b", VarType::Int64),
            slot("c", VarType::Float32),
            slot("d", VarType::Float64),
            slot("e", VarType::Bool),
            slot("g", VarType::Bool),
            slot("h", VarType::Str),
        ]
    );
    assert_eq!(f.temps, vec![]);
}

#[test]
fn declared_type_overrides_within_integers_and_floats() {
    let f = only_function(
        "fn main() { let i64 a = 5; let i32 b = 7i64; let f64 c = 1.5; let f32 d = 2.5f64; }",
    );
    assert_eq!(
        f.slots,
        vec![
            slot("a", VarType::Int64),
            slot("b", VarType::Int32),
            slot("c", VarType::Float64),
            slot("d", VarType::Float32),
        ]
    );
    assert_eq!(
        f.temps,
        vec![VarType::Int64, VarType::Int32, VarType::Float64, VarType::Float32]
    );
    assert_eq!(
        f.blocks[0].instrs,
        vec![
            Instr::Convert { dest: 0, kind: Conversion::SignExtend, value: int32(5) },
            Instr::Alloca { slot: 0 },
            Instr::Store { slot: 0, value: Operand::Temp(0) },
            Instr::Convert { dest: 1, kind: Conversion::Truncate, value: int64(7) },
            Instr::Alloca { slot: 1 },
            Instr::Store { slot: 1, value: Operand::Temp(1) },
            Instr::Convert { dest: 2, kind: Conversion::FloatExtend, value: float32("1.5") },
            Instr::Alloca { slot: 2 },
            Instr::Store { slot: 2, value: Operand::Temp(2) },
            Instr::Convert { dest: 3, kind: Conversion::FloatTruncate, value: float64("2.5") },
            Instr::Alloca { slot: 3 },
            Instr::Store { slot: 3, value: Operand::Temp(3) },
        ]
    );
}

#[test]
fn declared_type_of_another_kind_gives_way_to_the_value() {
    let f = only_function("fn main() { let f32 a = 5; let i32 b = true; let bool c = 1.5; }");
    assert_eq!(
        f.slots,
        vec![
            slot("a", VarType::Int32),
            slot("b", VarType::Bool),
            slot("c", VarType::Float32),
        ]
    );
    assert_eq!(f.temps, vec![]);
}

#[test]
fn parameters_get_slots() {
    let f = only_function("fn add(i32: a, i64: b) { return a; }");
    assert_eq!(f.params, vec![VarType::Int32, VarType::Int64]);
    assert_eq!(f.slots, vec![slot("a", VarType::Int32), slot("b", VarType::Int64)]);
    assert_eq!(f.temps, vec![VarType::Int32]);
    assert_eq!(
        f.blocks,
        vec![block(
            BlockLabel::Entry,
            vec![
                Instr::Alloca { slot: 0 },
                Instr::Store { slot: 0, value: Operand::Param(0) },
                Instr::Alloca { slot: 1 },
                Instr::Store { slot: 1, value: Operand::Param(1) },
                Instr::Load { dest: 0, slot: 0 },
            ],
            Terminator::Return(Operand::Temp(0)),
        )]
    );
}

#[test]
fn call_in_a_declaration_has_its_arguments_in_order() {
    let m = lower("fn add(i32: a, i32: b) { return a; } fn main() { let i32 r = add(1, 2); }")
        .unwrap();
    assert_eq!(m.functions.len(), 2);
    let main = &m.functions[1];
    assert_eq!(main.name, "main");
    assert_eq!(main.slots, vec![slot("r", VarType::Int32)]);
    assert_eq!(main.temps, vec![VarType::Int32]);
    assert_eq!(
        main.blocks[0].instrs,
        vec![
            Instr::Call { dest: 0, callee: "add".to_string(), args: vec![int32(1), int32(2)] },
            Instr::Alloca { slot: 0 },
            Instr::Store { slot: 0, value: Operand::Temp(0) },
        ]
    );
    match &main.blocks[0].instrs[0] {
        Instr::Call { args, .. } => assert_eq!(args.len(), 2),
        other => panic!("not a call: {:?}", other),
    }
}

#[test]
fn misspelled_function_is_unknown() {
    assert_eq!(
        lower("fn add(i32: a, i32: b) { return a; } fn main() { let i32 r = ad(1, 2); }"),
        Err(LoweringError::UnknownFunction("ad".to_string()))
    );
}

#[test]
fn misspelled_argument_is_unknown() {
    assert_eq!(
        lower("fn add(i32: a, i32: b) { return a; } fn main() { let i32 r = add(1, q); }"),
        Err(LoweringError::UnknownVariable("q".to_string()))
    );
}

#[test]
fn top_level_statement_is_left_out_and_recorded() {
    let m = lower("use io; fn add(i32: a, i32: b) { return a; } let i32 r = add(1, 2)").unwrap();
    assert_eq!(m.imports, vec!["io".to_string()]);
    assert_eq!(m.functions.len(), 1);
    assert_eq!(m.skipped, vec![3]);
}

#[test]
fn mutually_recursive_functions_lower() {
    let m = lower("fn even(i32: n) { return odd(n); } fn odd(i32: n) { return even(n); }")
        .unwrap();
    assert_eq!(m.functions.len(), 2);
    assert_eq!(
        m.functions[0].blocks[0].instrs[3],
        Instr::Call { dest: 1, callee: "odd".to_string(), args: vec![Operand::Temp(0)] }
    );
    assert_eq!(
        m.functions[1].blocks[0].instrs[3],
        Instr::Call { dest: 1, callee: "even".to_string(), args: vec![Operand::Temp(0)] }
    );
}

#[test]
fn forward_call_takes_the_return_type_of_the_callee() {
    let m = lower("fn main() { let r = later(); } i64 fn later() { return 1i64; }").unwrap();
    assert_eq!(m.functions[0].slots, vec![slot("r", VarType::Int64)]);
    assert_eq!(m.functions[0].temps, vec![VarType::Int64]);
}

#[test]
fn signatures_are_registered_for_every_definition() {
    let sigs = declare_functions(&ast("fn a(i32: x) {} let y = 1; f64 fn b(bool: p, str: q) {}"))
        .unwrap();
    assert_eq!(
        sigs,
        vec![
            Signature { name: "a".to_string(), params: vec![VarType::Int32], ret: VarType::Int32 },
            Signature {
                name: "b".to_string(),
                params: vec![VarType::Bool, VarType::Str],
                ret: VarType::Float64,
            },
        ]
    );
}

#[test]
fn conditional_with_elif_and_else_branches_to_one_merge_block() {
    let f = only_function(
        "fn main() { let i32 x = 1; if x < 2 { let i32 a = 1; } elif x == 3 { let i32 b = 2; } \
         else { let i32 c = 3; } }",
    );
    assert_eq!(
        f.slots,
        vec![
            slot("x", VarType::Int32),
            slot("a", VarType::Int32),
            slot("b", VarType::Int32),
            slot("c", VarType::Int32),
        ]
    );
    assert_eq!(
        f.temps,
        vec![VarType::Int32, VarType::Bool, VarType::Int32, VarType::Bool]
    );
    assert_eq!(
        f.blocks,
        vec![
            block(
                BlockLabel::Entry,
                vec![
                    Instr::Alloca { slot: 0 },
                    Instr::Store { slot: 0, value: int32(1) },
                    Instr::Load { dest: 0, slot: 0 },
                    Instr::Compare {
                        dest: 1,
                        pred: Predicate::Less,
                        lhs: Operand::Temp(0),
                        rhs: int32(2),
                    },
                ],
                Terminator::CondBranch { cond: Operand::Temp(1), then_block: 1, else_block: 3 },
            ),
            block(
                BlockLabel::Then,
                vec![Instr::Alloca { slot: 1 }, Instr::Store { slot: 1, value: int32(1) }],
                Terminator::Branch(2),
            ),
            block(BlockLabel::Merge, vec![], Terminator::Return(int32(0))),
            block(
                BlockLabel::Else,
                vec![
                    Instr::Load { dest: 2, slot: 0 },
                    Instr::Compare {
                        dest: 3,
                        pred: Predicate::Equal,
                        lhs: Operand::Temp(2),
                        rhs: int32(3),
                    },
                ],
                Terminator::CondBranch { cond: Operand::Temp(3), then_block: 4, else_block: 5 },
            ),
            block(
                BlockLabel::Elif,
                vec![Instr::Alloca { slot: 2 }, Instr::Store { slot: 2, value: int32(2) }],
                Terminator::Branch(2),
            ),
            block(
                BlockLabel::ElseNext,
                vec![Instr::Alloca { slot: 3 }, Instr::Store { slot: 3, value: int32(3) }],
                Terminator::Branch(2),
            ),
        ]
    );
}

#[test]
fn conditional_without_else_still_has_its_else_block() {
    let f = only_function("fn main() { if true { } }");
    assert_eq!(
        f.blocks,
        vec![
            block(
                BlockLabel::Entry,
                vec![],
                Terminator::CondBranch {
                    cond: Operand::Int { ty: VarType::Bool, value: 1 },
                    then_block: 1,
                    else_block: 3,
                },
            ),
            block(BlockLabel::Then, vec![], Terminator::Branch(2)),
            block(BlockLabel::Merge, vec![], Terminator::Return(int32(0))),
            block(BlockLabel::Else, vec![], Terminator::Branch(2)),
        ]
    );
}

#[test]
fn return_in_a_body_ends_its_block() {
    let f = only_function("fn f(i32: a) { if a < 1 { return 1; } return 2; }");
    assert_eq!(f.blocks.len(), 4);
    assert_eq!(f.blocks[1].terminator, Some(Terminator::Return(int32(1))));
    assert_eq!(f.blocks[2].terminator, Some(Terminator::Return(int32(2))));
    assert_eq!(f.blocks[3].terminator, Some(Terminator::Branch(2)));
    assert!(all_blocks_end(&f));
}

#[test]
fn statements_after_a_return_are_not_lowered() {
    let f = only_function("fn f() { return 1; let i32 x = 2; }");
    assert_eq!(f.slots, vec![]);
    assert_eq!(
        f.blocks,
        vec![block(BlockLabel::Entry, vec![], Terminator::Return(int32(1)))]
    );
}

#[test]
fn nested_conditionals_end_every_block() {
    let f = only_function(
        "fn f(i32: a) { if a < 1 { if a < 0 { return 0; } else { return 1; } let i32 z = 1; } \
         elif a == 2 { if a > 1 { } } else { } let i32 y = 2; }",
    );
    assert!(all_blocks_end(&f));
    assert_eq!(f.blocks.len(), 12);
    assert_eq!(f.blocks[2].label, BlockLabel::Merge);
    assert_eq!(f.blocks[2].terminator, Some(Terminator::Return(int32(0))));
}

#[test]
fn variable_declared_in_a_branch_is_visible_after_it() {
    let f = only_function("fn f() { if true { let i32 x = 1; } return x; }");
    assert_eq!(f.blocks[2].instrs, vec![Instr::Load { dest: 0, slot: 0 }]);
    assert_eq!(f.blocks[2].terminator, Some(Terminator::Return(Operand::Temp(0))));
}

#[test]
fn comparison_declaration_is_stored_as_an_integer() {
    let f = only_function("fn f(i32: a, i32: b) { let bool c = a < b; }");
    assert_eq!(f.slots[2], slot("c", VarType::Int32));
    assert_eq!(f.temps, vec![VarType::Int32, VarType::Int32, VarType::Bool, VarType::Int32]);
    assert_eq!(
        f.blocks[0].instrs[4..].to_vec(),
        vec![
            Instr::Load { dest: 0, slot: 0 },
            Instr::Load { dest: 1, slot: 1 },
            Instr::Compare {
                dest: 2,
                pred: Predicate::Less,
                lhs: Operand::Temp(0),
                rhs: Operand::Temp(1),
            },
            Instr::Convert { dest: 3, kind: Conversion::ZeroExtend, value: Operand::Temp(2) },
            Instr::Alloca { slot: 2 },
            Instr::Store { slot: 2, value: Operand::Temp(3) },
        ]
    );
}

#[test]
fn each_comparison_has_its_predicate() {
    let pred = |op: &str| {
        let f = only_function(&format!("fn f(i32: a) {{ if a {} 1 {{ }} }}", op));
        match &f.blocks[0].instrs[3] {
            Instr::Compare { pred, .. } => *pred,
            other => panic!("not a comparison: {:?}", other),
        }
    };
    assert_eq!(pred("<"), Predicate::Less);
    assert_eq!(pred(">"), Predicate::Greater);
    assert_eq!(pred("<="), Predicate::LessEq);
    assert_eq!(pred(">="), Predicate::GreaterEq);
    assert_eq!(pred("=="), Predicate::Equal);
    assert_eq!(pred("="), Predicate::Equal);
    assert_eq!(pred("!="), Predicate::NotEqual);
}

#[test]
fn operands_of_a_comparison_are_brought_to_integers() {
    let f = only_function(
        "fn f(i64: a, f32: b, f64: c, bool: d) { if a < b { } if c < d { } if 1i64 < 2.5 { } }",
    );
    let converts: Vec<Instr> = f
        .blocks
        .iter()
        .flat_map(|b| b.instrs.iter())
        .filter(|i| matches!(i, Instr::Convert { .. }))
        .cloned()
        .collect();
    assert_eq!(
        converts,
        vec![
            Instr::Convert { dest: 1, kind: Conversion::Truncate, value: Operand::Temp(0) },
            Instr::Convert { dest: 3, kind: Conversion::FloatToInt, value: Operand::Temp(2) },
            Instr::Convert { dest: 6, kind: Conversion::FloatToInt, value: Operand::Temp(5) },
            Instr::Convert { dest: 8, kind: Conversion::ZeroExtend, value: Operand::Temp(7) },
            Instr::Convert { dest: 10, kind: Conversion::Truncate, value: int64(1) },
            Instr::Convert { dest: 11, kind: Conversion::FloatToInt, value: float32("2.5") },
        ]
    );
}

#[test]
fn integer_context_and_natural_type() {
    let mut st = Lowering::new();
    let funcs: Vec<Signature> = vec![];
    assert_eq!(
        compile_basic_value(&mut st, &funcs, &ASTValue::Int64(9)),
        Ok((int64(9), VarType::Int64))
    );
    assert_eq!(st.blocks[0].instrs, vec![]);
    assert_eq!(compile_value(&mut st, &funcs, &ASTValue::Int64(9)), Ok(Operand::Temp(0)));
    assert_eq!(
        st.blocks[0].instrs,
        vec![Instr::Convert { dest: 0, kind: Conversion::Truncate, value: int64(9) }]
    );
    assert_eq!(st.temps, vec![VarType::Int32]);
    assert_eq!(compile_value(&mut st, &funcs, &ASTValue::Int(3)), Ok(int32(3)));
}

#[test]
fn string_in_integer_context_is_refused() {
    assert_eq!(
        lower("fn f() { let s = \"a\"; if s < 1 { } }"),
        Err(LoweringError::UnsupportedCoercion)
    );
    assert_eq!(
        lower("fn f() { if 1 < \"a\" { } }"),
        Err(LoweringError::UnsupportedCoercion)
    );
}

#[test]
fn condition_must_be_a_comparison_or_a_boolean_literal() {
    assert_eq!(
        lower("fn f() { let i32 x = 1; if x { } }"),
        Err(LoweringError::UnsupportedCondition)
    );
    assert_eq!(lower("fn f() { if 1 { } }"), Err(LoweringError::UnsupportedCondition));
    assert_eq!(
        lower("fn f() { if true { } elif g() { } } fn g() {}"),
        Err(LoweringError::UnsupportedCondition)
    );
    let mut st = Lowering::new();
    let funcs: Vec<Signature> = vec![];
    assert_eq!(
        compile_condition(&mut st, &funcs, &ASTValue::Bool(false)),
        Ok(Operand::Int { ty: VarType::Bool, value: 0 })
    );
}

#[test]
fn unknown_names_are_refused() {
    assert_eq!(
        lower("fn f() { return y; }"),
        Err(LoweringError::UnknownVariable("y".to_string()))
    );
    assert_eq!(
        lower("fn f() { console.print(y); }"),
        Err(LoweringError::UnknownVariable("y".to_string()))
    );
    assert_eq!(
        lower("fn f() { return g(); }"),
        Err(LoweringError::UnknownFunction("g".to_string()))
    );
    assert_eq!(
        lower("fn f() { let i32 x = 1 < h(2); }"),
        Err(LoweringError::UnknownFunction("h".to_string()))
    );
}

#[test]
fn unknown_type_names_are_refused() {
    assert_eq!(
        lower("fn f(text: s) {}"),
        Err(LoweringError::UnsupportedType("text".to_string()))
    );
    assert_eq!(
        lower("fn ok() {} fn f(i32: a, T: b) {}"),
        Err(LoweringError::UnsupportedType("T".to_string()))
    );
    let program = vec![AST::FuncDef {
        name: "f".to_string(),
        params: vec![],
        return_type: Some("auto".to_string()),
        body: vec![],
    }];
    assert_eq!(
        compile(program),
        Err(LoweringError::UnsupportedType("auto".to_string()))
    );
}

#[test]
fn string_keyword_names_the_string_type() {
    let f = only_function("fn f(string: s) { }");
    assert_eq!(f.params, vec![VarType::Str]);
    assert_eq!(f.ret, VarType::Int32);
    assert_eq!(f.slots, vec![slot("s", VarType::Str)]);
    assert_eq!(
        f.blocks,
        vec![block(
            BlockLabel::Entry,
            vec![
                Instr::Alloca { slot: 0 },
                Instr::Store { slot: 0, value: Operand::Param(0) },
            ],
            Terminator::Return(int32(0)),
        )]
    );
    let g = only_function("string fn g(String: a, str: b) { return a; }");
    assert_eq!(g.ret, VarType::Str);
    assert_eq!(g.params, vec![VarType::Str, VarType::Str]);
    assert_eq!(g.blocks[0].terminator, Some(Terminator::Return(Operand::Temp(0))));
    let h = only_function("string fn h() { }");
    assert_eq!(h.ret, VarType::Str);
    assert_eq!(h.blocks[0].terminator, Some(Terminator::Return(int32(0))));
}

#[test]
fn type_names() {
    assert_eq!(resolve_type(&"i32".to_string()), Some(VarType::Int32));
    assert_eq!(resolve_type(&"i64".to_string()), Some(VarType::Int64));
    assert_eq!(resolve_type(&"f32".to_string()), Some(VarType::Float32));
    assert_eq!(resolve_type(&"f64".to_string()), Some(VarType::Float64));
    assert_eq!(resolve_type(&"bool".to_string()), Some(VarType::Bool));
    assert_eq!(resolve_type(&"str".to_string()), Some(VarType::Str));
    assert_eq!(resolve_type(&"string".to_string()), Some(VarType::Str));
    assert_eq!(resolve_type(&"String".to_string()), None);
    assert_eq!(resolve_type(&"void".to_string()), None);
    assert_eq!(resolve_type(&"auto".to_string()), None);
}

#[test]
fn print_dispatches_on_the_type() {
    let f = only_function(
        "fn f(i32: n, bool: b, str: s) { console.print(n, b, s, \"lit\", 7i64, 1.5, true); }",
    );
    assert_eq!(
        f.blocks[0].instrs[6..].to_vec(),
        vec![
            Instr::Load { dest: 0, slot: 0 },
            Instr::Format { dest: 1, ty: VarType::Int32, value: Operand::Temp(0) },
            Instr::Print { value: Operand::Temp(1) },
            Instr::Load { dest: 2, slot: 1 },
            Instr::Select {
                dest: 3,
                cond: Operand::Temp(2),
                if_true: Operand::Str("true".to_string()),
                if_false: Operand::Str("false".to_string()),
            },
            Instr::Print { value: Operand::Temp(3) },
            Instr::Load { dest: 4, slot: 2 },
            Instr::Print { value: Operand::Temp(4) },
            Instr::Print { value: Operand::Str("lit".to_string()) },
            Instr::Format { dest: 5, ty: VarType::Int64, value: int64(7) },
            Instr::Print { value: Operand::Temp(5) },
            Instr::Format { dest: 6, ty: VarType::Float32, value: float32("1.5") },
            Instr::Print { value: Operand::Temp(6) },
            Instr::Select {
                dest: 7,
                cond: Operand::Int { ty: VarType::Bool, value: 1 },
                if_true: Operand::Str("true".to_string()),
                if_false: Operand::Str("false".to_string()),
            },
            Instr::Print { value: Operand::Temp(7) },
        ]
    );
    assert_eq!(
        f.temps,
        vec![
            VarType::Int32,
            VarType::Str,
            VarType::Bool,
            VarType::Str,
            VarType::Str,
            VarType::Str,
            VarType::Str,
            VarType::Str,
        ]
    );
}

#[test]
fn other_built_in_calls_lower_to_nothing() {
    let f = only_function("fn f() { console.log(1); other.print(2); x; 5; ; use m; }");
    assert_eq!(
        f.blocks,
        vec![block(BlockLabel::Entry, vec![], Terminator::Return(int32(0)))]
    );
}

#[test]
fn later_binding_of_a_name_is_the_one_in_force() {
    let f = only_function("fn f() { let i32 x = 1; let i64 x = 2i64; return x; }");
    assert_eq!(f.slots, vec![slot("x", VarType::Int32), slot("x", VarType::Int64)]);
    assert_eq!(f.blocks[0].instrs[4], Instr::Load { dest: 0, slot: 1 });
    assert_eq!(f.temps, vec![VarType::Int64]);
}

#[test]
fn later_definition_of_a_function_is_the_one_called() {
    let m = lower("i32 fn g() {} i64 fn g() {} fn main() { let r = g(); }").unwrap();
    assert_eq!(m.functions.len(), 3);
    assert_eq!(m.functions[2].slots, vec![slot("r", VarType::Int64)]);
}

#[test]
fn nested_call_arguments_are_evaluated_in_order() {
    let f = only_function("fn f(i32: a) { return f(f(1), a < 2, a); }");
    assert_eq!(
        f.blocks[0].instrs[2..].to_vec(),
        vec![
            Instr::Call { dest: 0, callee: "f".to_string(), args: vec![int32(1)] },
            Instr::Load { dest: 1, slot: 0 },
            Instr::Compare {
                dest: 2,
                pred: Predicate::Less,
                lhs: Operand::Temp(1),
                rhs: int32(2),
            },
            Instr::Convert { dest: 3, kind: Conversion::ZeroExtend, value: Operand::Temp(2) },
            Instr::Load { dest: 4, slot: 0 },
            Instr::Call {
                dest: 5,
                callee: "f".to_string(),
                args: vec![Operand::Temp(0), Operand::Temp(3), Operand::Temp(4)],
            },
        ]
    );
    assert_eq!(f.blocks[0].terminator, Some(Terminator::Return(Operand::Temp(5))));
}

#[test]
fn returned_string_is_returned() {
    let f = only_function("fn f() { return \"s\"; }");
    assert_eq!(
        f.blocks[0].terminator,
        Some(Terminator::Return(Operand::Str("s".to_string())))
    );
}

#[test]
fn format_specifiers_of_the_numbers() {
    assert_eq!(format_specifier(VarType::Int32), Some("%d"));
    assert_eq!(format_specifier(VarType::Int64), Some("%lld"));
    assert_eq!(format_specifier(VarType::Float32), Some("%.2f"));
    assert_eq!(format_specifier(VarType::Float64), Some("%.2lf"));
    assert_eq!(format_specifier(VarType::Bool), None);
    assert_eq!(format_specifier(VarType::Str), None);
}

#[test]
fn names_of_the_blocks() {
    assert_eq!(label_name(BlockLabel::Entry), "entry");
    assert_eq!(label_name(BlockLabel::Then), "then");
    assert_eq!(label_name(BlockLabel::Merge), "merge");
    assert_eq!(label_name(BlockLabel::Else), "else");
    assert_eq!(label_name(BlockLabel::Elif), "elif");
    assert_eq!(label_name(BlockLabel::ElseNext), "else_next");
}

fn operand_exists(f: &Function, v: &Operand) -> bool {
    match v {
        Operand::Temp(n) => *n < f.temps.len(),
        Operand::Param(n) => *n < f.params.len(),
        _ => true,
    }
}

fn instr_names_what_exists(f: &Function, i: &Instr) -> bool {
    let temp = |n: &usize| *n < f.temps.len();
    let slot = |n: &usize| *n < f.slots.len();
    let operand = |v: &Operand| operand_exists(f, v);
    match i {
        Instr::Alloca { slot: s } => slot(s),
        Instr::Store { slot: s, value } => slot(s) && operand(value),
        Instr::Load { dest, slot: s } => temp(dest) && slot(s),
        Instr::Call { dest, args, .. } => temp(dest) && args.iter().all(operand),
        Instr::Compare { dest, lhs, rhs, .. } => temp(dest) && operand(lhs) && operand(rhs),
        Instr::Convert { dest, value, .. } => temp(dest) && operand(value),
        Instr::Format { dest, value, .. } => temp(dest) && operand(value),
        Instr::Select { dest, cond, if_true, if_false } => {
            temp(dest) && operand(cond) && operand(if_true) && operand(if_false)
        }
        Instr::Print { value } => operand(value),
    }
}

fn terminator_names_what_exists(f: &Function, t: &Terminator) -> bool {
    match t {
        Terminator::Branch(b) => *b < f.blocks.len(),
        Terminator::CondBranch { cond, then_block, else_block } => {
            operand_exists(f, cond) && *then_block < f.blocks.len() && *else_block < f.blocks.len()
        }
        Terminator::Return(v) => operand_exists(f, v),
    }
}

#[test]
fn every_number_names_something_that_exists() {
    let m = lower(
        "i64 fn pick(i32: a, f64: b, bool: c) { \
           let i64 wide = a; let s = \"text\"; \
           if (a < b) { console.print(a, b, c, s); return wide; } \
           elif c == 1 { let i32 t = pick(a, b, c) < 2; } \
           elif a != 0 { if true { } else { return 1i64; } } \
           else { let f32 narrow = b; } \
           return pick(1, 2.5f64, false); } \
         fn main() { let r = pick(1, 2.0f64, true); console.print(r); }",
    )
    .unwrap();
    assert_eq!(m.functions.len(), 2);
    for f in &m.functions {
        for b in &f.blocks {
            assert!(b.instrs.iter().all(|i| instr_names_what_exists(f, i)));
            let t = b.terminator.as_ref().expect("every block has its terminator");
            assert!(terminator_names_what_exists(f, t));
        }
    }
}

fn call(name: &str, args: Vec<ASTValue>) -> ASTValue {
    ASTValue::FuncCall { name: name.to_string(), args }
}

fn declare_r(init: ASTValue) -> Vec<AST> {
    vec![AST::VarDecl("i32".to_string(), "r".to_string(), init)]
}

#[test]
fn misspelled_function_leaves_no_call_and_no_binding() {
    let funcs = declare_functions(&ast("fn add(i32: a, i32: b) { return a; }")).unwrap();
    let mut st = Lowering::new();
    let statements = declare_r(call("ad", vec![ASTValue::Int(1), ASTValue::Int(2)]));
    assert_eq!(
        compile_statements(&statements, &mut st, &funcs),
        Err(LoweringError::UnknownFunction("ad".to_string()))
    );
    assert_eq!(st, Lowering::new());
}

#[test]
fn misspelled_argument_leaves_no_call_and_no_binding() {
    let funcs = declare_functions(&ast("fn add(i32: a, i32: b) { return a; }")).unwrap();
    let mut st = Lowering::new();
    let statements = declare_r(call(
        "add",
        vec![ASTValue::VarRef("aa".to_string()), ASTValue::Int(2)],
    ));
    assert_eq!(
        compile_statements(&statements, &mut st, &funcs),
        Err(LoweringError::UnknownVariable("aa".to_string()))
    );
    assert_eq!(st, Lowering::new());
}

#[test]
fn failure_keeps_what_was_appended_and_binds_nothing() {
    let funcs = declare_functions(&ast("fn add(i32: a, i32: b) { return a; }")).unwrap();
    let mut st = Lowering::new();
    st.declare(&"x".to_string(), VarType::Int32, int32(7));
    let before = st.clone();
    let statements = declare_r(call(
        "add",
        vec![ASTValue::VarRef("x".to_string()), ASTValue::VarRef("aa".to_string())],
    ));
    assert_eq!(
        compile_statements(&statements, &mut st, &funcs),
        Err(LoweringError::UnknownVariable("aa".to_string()))
    );
    assert_eq!(
        st.locals,
        vec![Local { name: "x".to_string(), slot: 0, ty: VarType::Int32 }]
    );
    assert_eq!(st.slots, before.slots);
    assert_eq!(st.current, before.current);
    assert_eq!(st.blocks.len(), 1);
    assert_eq!(
        st.blocks[0].instrs,
        vec![
            Instr::Alloca { slot: 0 },
            Instr::Store { slot: 0, value: int32(7) },
            Instr::Load { dest: 0, slot: 0 },
        ]
    );
    assert_eq!(st.blocks[0].terminator, None);
}

#[test]
fn failure_inside_a_conditional_keeps_the_blocks_made() {
    let funcs: Vec<Signature> = vec![];
    let mut st = Lowering::new();
    let statements = ast("if true { return y; } else { }");
    assert_eq!(
        compile_statements(&statements, &mut st, &funcs),
        Err(LoweringError::UnknownVariable("y".to_string()))
    );
    assert_eq!(st.blocks.len(), 4);
    assert_eq!(st.current, 1);
    assert!(st.blocks[0].terminator.is_some());
    assert_eq!(st.blocks[1].terminator, None);
}

#[test]
fn syntax_tree_can_be_cloned() {
    let tree = ast(
        "use io; i32 fn f(i32: a) { let c = g(a, 1 < 2); if (a <= 1) { return \"s\"; } \
         elif a == 2 { console.print(a, 1.5); } else { x; } }",
    );
    let copy = tree.clone();
    assert_eq!(copy, tree);
    let value = ASTValue::GreaterEqual(
        Box::new(call("f", vec![ASTValue::Float64("2.5".to_string())])),
        Box::new(ASTValue::Bool(true)),
    );
    assert_eq!(value.clone(), value);
}
