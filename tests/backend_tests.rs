use rue::ir::instruction_vregs;
use rue::regalloc::allocate_registers;
use rue::{
    Assembler, BinOp, Codegen, Instruction, LabelId, Lexer, Register, RegisterAllocator, VReg,
    Value, analyze_cst, compile_source, compile_to_executable, parse,
};

fn lower(source: &str) -> (Vec<Instruction>, Vec<(String, LabelId)>) {
    let mut lexer = Lexer::new(source);
    let ast = parse(lexer.tokenize()).expect("parse");
    let scope = analyze_cst(&ast).expect("analysis");
    let mut codegen = Codegen::new();
    let instrs = codegen.generate(&ast, &scope).expect("lowering");
    (instrs, codegen.function_labels().clone())
}

const FACTORIAL: &str = "fn factorial(n) { if n <= 1 { 1 } else { n * factorial(n - 1) } } fn main() { factorial(5) }";

#[test]
fn main_returning_42_compiles_to_exact_code() {
    let image = compile_source("fn main() { 42 }").unwrap();
    let mut code = vec![0xe8, 0x1b, 0, 0, 0, 0x48, 0x89, 0xc3, 0x48, 0x89, 0xd9, 0x48, 0xba, 60];
    code.extend_from_slice(&[0; 7]);
    code.extend_from_slice(&[0x48, 0x89, 0xd0, 0x48, 0x89, 0xcf, 0x0f, 0x05, 0x48, 0x89, 0xc6]);
    code.extend_from_slice(&[0x48, 0xbf, 42, 0, 0, 0, 0, 0, 0, 0, 0x48, 0x89, 0xf8, 0xc3]);
    assert_eq!(image.len(), 120 + code.len());
    assert_eq!(&image[120..], &code[..]);
}

#[test]
fn elf_header_fields() {
    let assembler = Assembler::new();
    let code = vec![0x0f, 0x05, 0xc3];
    let elf = assembler.generate_elf(&code);
    assert_eq!(&elf[0..8], &[0x7f, 0x45, 0x4c, 0x46, 2, 1, 1, 0]);
    assert_eq!(&elf[16..18], &[2, 0]);
    assert_eq!(&elf[18..20], &[0x3e, 0]);
    assert_eq!(&elf[24..32], &0x400078u64.to_le_bytes());
    assert_eq!(&elf[64..68], &[1, 0, 0, 0]);
    assert_eq!(&elf[68..72], &[5, 0, 0, 0]);
    assert_eq!(&elf[80..88], &0x400000u64.to_le_bytes());
    assert_eq!(&elf[96..104], &123u64.to_le_bytes());
    assert_eq!(&elf[104..112], &123u64.to_le_bytes());
    assert_eq!(&elf[112..120], &0x1000u64.to_le_bytes());
    assert_eq!(&elf[120..], &code[..]);
}

#[test]
fn lowered_branch_targets_are_defined() {
    let (instrs, functions) = lower(FACTORIAL);
    let defined: Vec<u32> = instrs
        .iter()
        .filter_map(|i| match i {
            Instruction::Label(l) => Some(l.0),
            _ => None,
        })
        .collect();
    let mut branches = 0;
    for i in &instrs {
        match i {
            Instruction::Jump(l) => {
                branches += 1;
                assert!(defined.contains(&l.0));
            }
            Instruction::Branch { true_label, false_label, .. } => {
                branches += 1;
                assert!(defined.contains(&true_label.0));
                assert!(defined.contains(&false_label.0));
            }
            _ => {}
        }
    }
    assert_eq!(branches, 2);
    assert_eq!(functions.len(), 2);
    assert_eq!(functions[0].0, "main");
    assert_eq!(functions[1].0, "factorial");
}

#[test]
fn every_vreg_gets_a_register() {
    let (instrs, _) = lower(FACTORIAL);
    let allocator = allocate_registers(&instrs);
    for i in &instrs {
        for v in instruction_vregs(i) {
            assert!(allocator.get_register(v).is_some());
        }
    }
}

#[test]
fn label_offset_is_next_instruction_offset() {
    let instrs = vec![
        Instruction::Jump(LabelId(3)),
        Instruction::Label(LabelId(3)),
        Instruction::Label(LabelId(4)),
        Instruction::Return { value: None },
        Instruction::Jump(LabelId(4)),
    ];
    let mut assembler = Assembler::new();
    let code = assembler.assemble(instrs).unwrap();
    assert_eq!(code, vec![0xe9, 0, 0, 0, 0, 0xc3, 0xe9, 0xfa, 0xff, 0xff, 0xff]);
}

#[test]
fn compiled_programs_start_with_elf_magic() {
    for source in [
        "fn main() { 42 }",
        "fn main() { 2 + 3 * 4 }",
        "fn id(x) { x } fn main() { id(7) }",
        FACTORIAL,
        "fn main() { let x = 10; x = x + 5; x }",
        "fn main() { if 3 > 2 { 9 } else { 0 } }",
        "fn main() { let n = 3; while n > 0 { n = n - 1; }; n }",
    ] {
        let image = compile_source(source).unwrap();
        assert_eq!(&image[0..4], &[0x7f, 0x45, 0x4c, 0x46]);
    }
}

#[test]
fn compiling_twice_gives_identical_bytes() {
    let first = compile_source(FACTORIAL).unwrap();
    let second = compile_source(FACTORIAL).unwrap();
    assert_eq!(first, second);
}

#[test]
fn recursive_multiplication_spills_left_operand() {
    let (instrs, _) = lower(FACTORIAL);
    let push = instrs.iter().position(|i| matches!(i, Instruction::Push { .. })).unwrap();
    let call = push
        + instrs[push..]
            .iter()
            .position(|i| matches!(i, Instruction::Call { function, .. } if function == "factorial"))
            .unwrap();
    let pop = instrs.iter().position(|i| matches!(i, Instruction::Pop { .. })).unwrap();
    assert!(push < call && call < pop);
    assert!(matches!(instrs[pop + 1], Instruction::BinaryOp { op: BinOp::Mul, .. }));
}

#[test]
fn missing_main_is_an_error() {
    let mut lexer = Lexer::new("fn helper() { 1 }");
    let ast = parse(lexer.tokenize()).unwrap();
    let scope = analyze_cst(&ast).unwrap();
    let err = compile_to_executable(&ast, &scope).unwrap_err();
    assert_eq!(err.message, "No main function found");
}

#[test]
fn unsupported_operators_are_reported() {
    assert_eq!(
        compile_source("fn main() { 1 < 2 }").unwrap_err().message,
        "Unsupported operator: Less"
    );
    assert_eq!(
        compile_source("fn main() { 6 / 2 }").unwrap_err().message,
        "Division not yet implemented in TargetIR backend"
    );
}

#[test]
fn emission_errors() {
    let too_many = vec![Instruction::Call {
        dest: None,
        function: "f".to_string(),
        args: vec![VReg(0), VReg(1), VReg(2), VReg(3), VReg(4)],
    }];
    assert_eq!(
        Assembler::new().assemble(too_many).unwrap_err().message,
        "Too many arguments for function call (max 4 supported)"
    );
    let undefined_label = vec![Instruction::Jump(LabelId(7))];
    assert_eq!(
        Assembler::new().assemble(undefined_label).unwrap_err().message,
        "Undefined label: LabelId(7)"
    );
    let undefined_symbol = vec![Instruction::Call {
        dest: None,
        function: "nowhere".to_string(),
        args: vec![],
    }];
    assert_eq!(
        Assembler::new().assemble(undefined_symbol).unwrap_err().message,
        "Undefined symbol: nowhere"
    );
    let far_load = vec![Instruction::Load { dest: VReg(0), offset: 1 << 40 }];
    assert_eq!(
        Assembler::new().assemble(far_load).unwrap_err().message,
        "Stack offset out of range"
    );
    let immediate_rhs = vec![Instruction::BinaryOp {
        dest: VReg(0),
        lhs: Value::VReg(VReg(1)),
        rhs: Value::Immediate(3),
        op: BinOp::Add,
    }];
    assert_eq!(
        Assembler::new().assemble(immediate_rhs).unwrap_err().message,
        "Immediate operands not yet supported for binary ops"
    );
    let compare = vec![Instruction::BinaryOp {
        dest: VReg(0),
        lhs: Value::VReg(VReg(1)),
        rhs: Value::VReg(VReg(2)),
        op: BinOp::Eq,
    }];
    assert_eq!(
        Assembler::new().assemble(compare).unwrap_err().message,
        "Binary operation Eq not yet implemented"
    );
}

#[test]
fn unallocated_register_is_reported() {
    let mut assembler = Assembler::new();
    let regalloc = RegisterAllocator::new();
    let instr = Instruction::Push { src: VReg(12) };
    let err = assembler.emit_targetir_instruction(&instr, &regalloc).unwrap_err();
    assert_eq!(err.message, "No register allocated for VReg(12)");
}

#[test]
fn call_site_and_stack_encodings() {
    let mut assembler = Assembler::new();
    assembler.add_function_mapping("f".to_string(), LabelId(1));
    let instrs = vec![
        Instruction::Label(LabelId(1)),
        Instruction::Store { src: VReg(0), offset: -8 },
        Instruction::Load { dest: VReg(0), offset: 16 },
        Instruction::SaveRegisters { registers: vec![Register::Rbx, Register::Rcx] },
        Instruction::RestoreRegisters { registers: vec![Register::Rbx, Register::Rcx] },
        Instruction::Call { dest: None, function: "f".to_string(), args: vec![VReg(0)] },
    ];
    let code = assembler.assemble(instrs).unwrap();
    assert_eq!(
        code,
        vec![
            0x48, 0x89, 0x9c, 0x24, 0xf8, 0xff, 0xff, 0xff, 0x48, 0x8b, 0x9c, 0x24, 0x10, 0, 0, 0,
            0x53, 0x51, 0x59, 0x5b, 0x48, 0x89, 0xdf, 0xe8, 0xe4, 0xff, 0xff, 0xff,
        ]
    );
}

fn lower_unchecked(source: &str) -> Result<Vec<Instruction>, String> {
    let mut lexer = Lexer::new(source);
    let ast = parse(lexer.tokenize()).expect("parse");
    let scope = rue::Scope::new();
    let mut codegen = Codegen::new();
    codegen.generate(&ast, &scope).map_err(|e| e.message)
}

#[test]
fn lowering_errors() {
    assert_eq!(lower_unchecked("fn main() { x }").unwrap_err(), "Undefined variable: x");
    assert_eq!(
        lower_unchecked("fn main() { y = 1; 0 }").unwrap_err(),
        "Undefined variable in assignment: y"
    );
    assert_eq!(
        lower_unchecked("fn main() { (1)(2) }").unwrap_err(),
        "Function calls must use identifiers"
    );
}

#[test]
fn lowering_of_if_and_while_shapes() {
    let instrs = lower_unchecked("fn main() { if 3 > 2 { 9 } else { 0 } }").unwrap();
    // entry sequence, main label, condition, branch and then label, then
    // value, copy/jump/else label, else value, copy and end label, return
    assert_eq!(instrs.len(), 5 + 1 + 3 + 2 + 1 + 3 + 1 + 2 + 1);
    assert!(matches!(instrs[5], Instruction::Label(LabelId(0))));
    assert!(matches!(
        instrs[9],
        Instruction::Branch { true_label: LabelId(3), false_label: LabelId(1), .. }
    ));
    let looped = lower_unchecked("fn main() { while 0 > 1 { 5 }; 7 }").unwrap();
    assert!(matches!(looped[6], Instruction::Label(LabelId(1))));
    assert!(looped
        .iter()
        .any(|i| matches!(i, Instruction::Jump(LabelId(1)))));
}
