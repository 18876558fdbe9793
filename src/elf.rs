//! ELF64 packaging: one read+execute `PT_LOAD` segment holding the headers
//! and the code, entered right after the program header.
use crate::encode::{le_bytes, push_le_bytes};
use vstd::prelude::*;

verus! {

/// Virtual address at which the segment is loaded.
pub const BASE_ADDRESS: u64 = 0x400000;

/// Size of the ELF header plus the one program header; the code starts here.
pub const HEADERS_SIZE: u64 = 120;

/// The ELF and program headers for `code_len` bytes of code.
pub open spec fn elf_header(code_len: nat) -> Seq<u8> {
    seq![0x7fu8, 0x45u8, 0x4cu8, 0x46u8, 2u8, 1u8, 1u8, 0u8] + le_bytes(0, 8) + le_bytes(2, 2)
        + le_bytes(0x3e, 2) + le_bytes(1, 4) + le_bytes(0x400078, 8) + le_bytes(64, 8) + le_bytes(
        0,
        8,
    ) + le_bytes(0, 4) + le_bytes(64, 2) + le_bytes(56, 2) + le_bytes(1, 2) + le_bytes(0, 2)
        + le_bytes(0, 2) + le_bytes(0, 2) + program_header(code_len)
}

pub open spec fn program_header(code_len: nat) -> Seq<u8> {
    le_bytes(1, 4) + le_bytes(5, 4) + le_bytes(0, 8) + le_bytes(0x400000, 8) + le_bytes(
        0x400000,
        8,
    ) + le_bytes(120 + code_len, 8) + le_bytes(120 + code_len, 8) + le_bytes(0x1000, 8)
}

/// The executable image that runs `code`.
pub open spec fn elf_image(code: Seq<u8>) -> Seq<u8> {
    elf_header(code.len()) + code
}

pub proof fn lemma_le_bytes_len(u: nat, n: nat)
    ensures
        le_bytes(u, n).len() == n,
    decreases n,
{
    if n > 0 {
        lemma_le_bytes_len(u / 256, (n - 1) as nat);
    }
}

/// Every image starts with the ELF magic number, and its code follows the
/// 120 bytes of headers.
pub proof fn lemma_elf_image_shape(code: Seq<u8>)
    ensures
        elf_image(code).len() == 120 + code.len(),
        elf_image(code).subrange(0, 4) == seq![0x7fu8, 0x45u8, 0x4cu8, 0x46u8],
        elf_image(code).subrange(120, 120 + code.len() as int) == code,
{
    lemma_le_bytes_len(0, 8);
    lemma_le_bytes_len(2, 2);
    lemma_le_bytes_len(0x3e, 2);
    lemma_le_bytes_len(1, 4);
    lemma_le_bytes_len(0x400078, 8);
    lemma_le_bytes_len(64, 8);
    lemma_le_bytes_len(0, 4);
    lemma_le_bytes_len(64, 2);
    lemma_le_bytes_len(56, 2);
    lemma_le_bytes_len(1, 2);
    lemma_le_bytes_len(0, 2);
    lemma_le_bytes_len(5, 4);
    lemma_le_bytes_len(0x400000, 8);
    lemma_le_bytes_len(120 + code.len(), 8);
    lemma_le_bytes_len(0x1000, 8);
    assert(elf_header(code.len()).len() == 120);
    assert(elf_image(code).subrange(0, 4) =~= seq![0x7fu8, 0x45u8, 0x4cu8, 0x46u8]);
    assert(elf_image(code).subrange(120, 120 + code.len() as int) =~= code);
}

/// Wraps `machine_code` in a minimal ELF64 executable.
pub fn wrap_elf(machine_code: &[u8]) -> (r: Vec<u8>)
    requires
        machine_code@.len() + 120 <= u64::MAX,
    ensures
        r@ == elf_image(machine_code@),
{
    let mut elf: Vec<u8> = Vec::new();
    elf.push(0x7f);
    elf.push(0x45);
    elf.push(0x4c);
    elf.push(0x46);
    elf.push(0x02);
    elf.push(0x01);
    elf.push(0x01);
    elf.push(0x00);
    push_le_bytes(&mut elf, 0, 8);
    push_le_bytes(&mut elf, 2, 2);
    push_le_bytes(&mut elf, 0x3e, 2);
    push_le_bytes(&mut elf, 1, 4);
    push_le_bytes(&mut elf, BASE_ADDRESS + 0x78, 8);
    push_le_bytes(&mut elf, 64, 8);
    push_le_bytes(&mut elf, 0, 8);
    push_le_bytes(&mut elf, 0, 4);
    push_le_bytes(&mut elf, 64, 2);
    push_le_bytes(&mut elf, 56, 2);
    push_le_bytes(&mut elf, 1, 2);
    push_le_bytes(&mut elf, 0, 2);
    push_le_bytes(&mut elf, 0, 2);
    push_le_bytes(&mut elf, 0, 2);
    let ghost ehdr = elf@;
    let total = HEADERS_SIZE + machine_code.len() as u64;
    push_le_bytes(&mut elf, 1, 4);
    push_le_bytes(&mut elf, 5, 4);
    push_le_bytes(&mut elf, 0, 8);
    push_le_bytes(&mut elf, BASE_ADDRESS, 8);
    push_le_bytes(&mut elf, BASE_ADDRESS, 8);
    push_le_bytes(&mut elf, total, 8);
    push_le_bytes(&mut elf, total, 8);
    push_le_bytes(&mut elf, 0x1000, 8);
    assert(elf@ =~= ehdr + program_header(machine_code@.len()));
    assert(elf@ =~= elf_header(machine_code@.len()));
    let mut i: usize = 0;
    while i < machine_code.len()
        invariant
            i <= machine_code@.len(),
            elf@ == elf_header(machine_code@.len()) + machine_code@.subrange(0, i as int),
        decreases machine_code@.len() - i,
    {
        elf.push(machine_code[i]);
        i = i + 1;
        assert(elf@ =~= elf_header(machine_code@.len()) + machine_code@.subrange(0, i as int));
    }
    assert(machine_code@.subrange(0, machine_code@.len() as int) =~= machine_code@);
    elf
}

} // verus!
