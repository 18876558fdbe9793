use rue::{
    Assembler, BinOp, CodegenError, Codegen, Instruction, LabelId, Lexer, Register,
    RegisterAllocator, VReg, Value, analyze_cst, compile_to_executable, parse,
};

fn compile_program(source: &str) -> Result<Vec<Instruction>, CodegenError> {
    let mut lexer = Lexer::new(source);
    let tokens = lexer.tokenize();
    let ast = parse(tokens).map_err(|e| CodegenError {
        message: format!("Parse error: {}", e.message),
    })?;

    let scope = analyze_cst(&ast).map_err(|e| CodegenError {
        message: format!("Semantic error: {}", e.message),
    })?;

    let mut codegen = Codegen::new();
    codegen.generate(&ast, &scope)
}

#[test]
fn test_simple_main() {
    let instructions = compile_program(
        r#"
fn main() {
42
}
"#,
    );
    assert!(instructions.is_ok());
    let instrs = instructions.unwrap();

    // Should have program setup and main function
    // Look for _start label (ID 999)
    assert!(
        instrs
            .iter()
            .any(|i| matches!(i, Instruction::Label(LabelId(999))))
    );
    // Should have a Copy instruction with immediate value 42
    assert!(instrs.iter().any(|i| matches!(
        i,
        Instruction::Copy {
            src: Value::Immediate(42),
            ..
        }
    )));
}

#[test]
fn test_arithmetic() {
    let instructions = compile_program(
        r#"
fn main() {
2 + 3
}
"#,
    );
    assert!(instructions.is_ok());
    let instrs = instructions.unwrap();

    // Should contain arithmetic operations
    assert!(
        instrs
            .iter()
            .any(|i| matches!(i, Instruction::BinaryOp { op: BinOp::Add, .. }))
    );
}

#[test]
fn test_function_with_parameter() {
    let instructions = compile_program(
        r#"
fn test(x) {
x
}

fn main() {
test(5)
}
"#,
    );
    assert!(instructions.is_ok());
}

#[test]
fn test_assembler_simple() {
    let vreg0 = VReg(0);
    let vreg1 = VReg(1);
    let vreg2 = VReg(2);
    let vreg3 = VReg(3);

    let instructions = vec![
        Instruction::Label(LabelId(999)), // _start
        Instruction::Copy {
            dest: vreg0,
            src: Value::Immediate(42),
        },
        Instruction::Copy {
            dest: vreg1,
            src: Value::VReg(vreg0),
        },
        Instruction::Copy {
            dest: vreg2,
            src: Value::Immediate(60),
        },
        Instruction::Syscall {
            result: vreg3,
            syscall_num: vreg2,
            args: vec![vreg1],
        },
    ];

    let mut assembler = Assembler::new();
    let result = assembler.assemble(instructions);
    assert!(result.is_ok());

    let machine_code = result.unwrap();
    assert!(!machine_code.is_empty());
}

#[test]
fn test_elf_generation() {
    let machine_code = vec![
        0x48, 0xc7, 0xc0, 0x2a, 0x00, 0x00, 0x00, // mov rax, 42
        0x48, 0x89, 0xc7, // mov rdi, rax
        0x48, 0xc7, 0xc0, 0x3c, 0x00, 0x00, 0x00, // mov rax, 60
        0x0f, 0x05, // syscall
    ];

    let assembler = Assembler::new();
    let elf = assembler.generate_elf(&machine_code);

    // Check ELF magic
    assert_eq!(&elf[0..4], &[0x7f, 0x45, 0x4c, 0x46]);
    // Check that machine code is included
    assert!(elf.len() > machine_code.len());
}

#[test]
fn test_factorial_compilation() {
    let factorial_source = r#"
fn factorial(n) {
if n <= 1 {
    1
} else {
    n * factorial(n - 1)
}
}

fn main() {
factorial(5)
}
"#;

    // Parse
    let mut lexer = Lexer::new(factorial_source);
    let tokens = lexer.tokenize();
    let ast = parse(tokens).expect("Parse failed");

    // Semantic analysis
    let scope = analyze_cst(&ast).expect("Semantic analysis failed");

    // Code generation
    let executable = compile_to_executable(&ast, &scope);
    if let Err(ref e) = executable {
        println!("Error: {}", e.message);
    }
    assert!(executable.is_ok());

    let elf = executable.unwrap();
    // Should produce a valid ELF executable
    assert_eq!(&elf[0..4], &[0x7f, 0x45, 0x4c, 0x46]); // ELF magic
    assert!(elf.len() > 200); // Should be reasonable size
}

#[test]
fn test_assignment_compilation() {
    let instructions = compile_program(
        r#"
fn main() {
let x = 42;
x = 100;
x
}
"#,
    );
    assert!(instructions.is_ok());
    let instrs = instructions.unwrap();

    // Should contain multiple copy operations (for let and assignment)
    let copy_count = instrs
        .iter()
        .filter(|i| matches!(i, Instruction::Copy { .. }))
        .count();
    assert!(copy_count >= 3); // At least initial value, assignment, and return loading
}

#[test]
fn test_physical_reg_error_in_binary_ops() {
    let mut assembler = Assembler::new();
    let mut regalloc = RegisterAllocator::new();
    let dest_vreg = VReg(0);
    regalloc.allocate(dest_vreg);

    // Test that using PhysicalReg in binary operations returns proper error
    let instr = Instruction::BinaryOp {
        dest: dest_vreg,
        lhs: Value::PhysicalReg(Register::Rax),
        rhs: Value::VReg(VReg(1)),
        op: BinOp::Add,
    };

    let result = assembler.emit_targetir_instruction(&instr, &regalloc);
    assert!(result.is_err());
    assert!(
        result
            .unwrap_err()
            .message
            .contains("PhysicalReg not supported in binary operations")
    );
}
