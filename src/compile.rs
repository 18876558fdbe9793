//! The whole backend: lowering, register allocation, emission and ELF
//! packaging of a checked program.
use crate::assembler::{Assembler, assemble_spec};
use crate::ast::{CstNode, CstRoot};
use crate::elf::{elf_image, lemma_elf_image_shape};
use crate::ir::CodegenError;
use crate::lower::{Codegen, initial_state, lower_program, name_view};
use crate::semantic::Scope;
use vstd::prelude::*;
use vstd::string::StringExecFns;

verus! {

pub open spec fn too_large_message() -> Seq<char> {
    "Code too large"@
}

/// The executable image of a program, or the message of the first error.
pub open spec fn compile_spec(items: Seq<CstNode>) -> Result<Seq<u8>, Seq<char>> {
    match lower_program(items, initial_state()) {
        Err(m) => Err(m),
        Ok((ir, st)) => match assemble_spec(ir, st.functions) {
            Err(m) => Err(m),
            Ok(code) => if code.len() + 120 <= u64::MAX {
                Ok(elf_image(code))
            } else {
                Err(too_large_message())
            },
        },
    }
}

/// Compiles a checked program to a statically linked x86-64 ELF executable.
pub fn compile_to_executable(ast: &CstRoot, scope: &Scope) -> (r: Result<Vec<u8>, CodegenError>)
    ensures
        match compile_spec(ast.items@) {
            Ok(b) => r is Ok && r->Ok_0@ == b,
            Err(m) => r is Err && r->Err_0.message@ == m,
        },
{
    let mut codegen = Codegen::new();
    let instructions = match codegen.generate(ast, scope) {
        Ok(v) => v,
        Err(e) => {
            return Err(e);
        },
    };
    let mut assembler = Assembler::new();
    let labels = codegen.function_labels();
    let mut i: usize = 0;
    while i < labels.len()
        invariant
            i <= labels@.len(),
            assembler.functions() == name_view(labels@.subrange(0, i as int)),
        decreases labels@.len() - i,
    {
        assembler.add_function_mapping(labels[i].0.clone(), labels[i].1);
        i = i + 1;
        assert(name_view(labels@.subrange(0, i as int)) =~= name_view(
            labels@.subrange(0, i - 1),
        ).push((labels@[i - 1].0@, labels@[i - 1].1)));
    }
    assert(labels@.subrange(0, labels@.len() as int) =~= labels@);
    let machine_code = match assembler.assemble(instructions) {
        Ok(c) => c,
        Err(e) => {
            return Err(e);
        },
    };
    if machine_code.len() as u64 > u64::MAX - 120 {
        return Err(CodegenError { message: String::from_str("Code too large") });
    }
    let elf = assembler.generate_elf(machine_code.as_slice());
    Ok(elf)
}

/// Whatever compiles yields an image that starts with the ELF magic number.
pub proof fn lemma_output_is_elf(items: Seq<CstNode>)
    requires
        compile_spec(items) is Ok,
    ensures
        compile_spec(items)->Ok_0.len() >= 4,
        compile_spec(items)->Ok_0.subrange(0, 4) == seq![0x7fu8, 0x45u8, 0x4cu8, 0x46u8],
{
    let (ir, st) = lower_program(items, initial_state())->Ok_0;
    lemma_elf_image_shape(assemble_spec(ir, st.functions)->Ok_0);
}

/// Compiling the same program twice gives byte-identical output: the result
/// is a function of the syntax tree alone.
pub proof fn lemma_compilation_idempotent(first: CstRoot, second: CstRoot)
    requires
        first.items@ == second.items@,
    ensures
        compile_spec(first.items@) == compile_spec(second.items@),
{
}

} // verus!
