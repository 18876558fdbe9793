//! Byte-level x86-64 encoding of single IR instructions.
use crate::ir::{BinOp, CodegenError, IrInstr, LabelId, Register, VReg, Value, vregs_of};
use crate::regalloc::RegisterAllocator;
use crate::text::{decimal, decimal_string, join};
use vstd::prelude::*;
use vstd::string::StringExecFns;

verus! {

/// The low three bits that name a register in ModR/M and opcode bytes.
pub open spec fn reg_code(r: Register) -> u8 {
    match r {
        Register::Rax => 0,
        Register::Rcx => 1,
        Register::Rdx => 2,
        Register::Rbx => 3,
        Register::Rsp => 4,
        Register::Rbp => 5,
        Register::Rsi => 6,
        Register::Rdi => 7,
        Register::R8 => 0,
        Register::R9 => 1,
        Register::R10 => 2,
        Register::R11 => 3,
        Register::R12 => 4,
        Register::R13 => 5,
        Register::R14 => 6,
        Register::R15 => 7,
    }
}

pub fn register_code(reg: &Register) -> (c: u8)
    ensures
        c == reg_code(*reg),
        c < 8,
{
    match reg {
        Register::Rax => 0,
        Register::Rcx => 1,
        Register::Rdx => 2,
        Register::Rbx => 3,
        Register::Rsp => 4,
        Register::Rbp => 5,
        Register::Rsi => 6,
        Register::Rdi => 7,
        Register::R8 => 0,
        Register::R9 => 1,
        Register::R10 => 2,
        Register::R11 => 3,
        Register::R12 => 4,
        Register::R13 => 5,
        Register::R14 => 6,
        Register::R15 => 7,
    }
}

/// The `n` low-order bytes of `u`, least significant first.
pub open spec fn le_bytes(u: nat, n: nat) -> Seq<u8>
    decreases n,
{
    if n == 0 {
        seq![]
    } else {
        seq![(u % 256) as u8] + le_bytes(u / 256, (n - 1) as nat)
    }
}

/// Two's-complement image of `v` in `bits` bits.
pub open spec fn twos(v: int, bits: nat) -> nat {
    if v < 0 {
        (v + vstd::arithmetic::power2::pow2(bits)) as nat
    } else {
        v as nat
    }
}

pub open spec fn le32(v: int) -> Seq<u8> {
    le_bytes(twos(v, 32), 4)
}

pub open spec fn le64(v: int) -> Seq<u8> {
    le_bytes(twos(v, 64), 8)
}

pub open spec fn fits_i32(v: int) -> bool {
    -0x8000_0000 <= v <= 0x7fff_ffff
}

/// `mov dst, src` (REX.W 89 /r).
pub open spec fn mov_rr(src: Register, dst: Register) -> Seq<u8> {
    seq![0x48u8, 0x89u8, (0xc0 + reg_code(src) * 8 + reg_code(dst)) as u8]
}

/// `mov dst, src`, left out when the registers are the same.
pub open spec fn move_if(src: Register, dst: Register) -> Seq<u8> {
    if src == dst {
        seq![]
    } else {
        mov_rr(src, dst)
    }
}

/// `mov dst, imm64` (REX.W B8+r).
pub open spec fn mov_imm(dst: Register, imm: i64) -> Seq<u8> {
    seq![0x48u8, (0xb8 + reg_code(dst)) as u8] + le64(imm as int)
}

/// `cmp`/`setcc al`/`movzx dst, al` for a comparison whose setcc opcode is `cc`.
pub open spec fn compare_bytes(rhs: Register, dst: Register, cc: u8) -> Seq<u8> {
    seq![
        0x48u8,
        0x39u8,
        (0xc0 + reg_code(rhs) * 8 + reg_code(dst)) as u8,
        0x0fu8,
        cc,
        0xc0u8,
        0x48u8,
        0x0fu8,
        0xb6u8,
        (0xc0 + reg_code(dst) * 8) as u8,
    ]
}

pub open spec fn arg_register(i: int) -> Register {
    if i == 0 {
        Register::Rdi
    } else if i == 1 {
        Register::Rsi
    } else if i == 2 {
        Register::Rdx
    } else {
        Register::Rcx
    }
}

/// The register that allocation gave `v`.
pub open spec fn reg_of(ra: Map<u32, Register>, v: VReg) -> Register {
    ra[v.0]
}

/// Moves of call arguments into RDI, RSI, RDX, RCX, in order.
pub open spec fn arg_moves(args: Seq<VReg>, ra: Map<u32, Register>) -> Seq<u8>
    decreases args.len(),
{
    if args.len() == 0 {
        seq![]
    } else {
        arg_moves(args.drop_last(), ra) + move_if(
            reg_of(ra, args.last()),
            arg_register(args.len() - 1),
        )
    }
}

pub open spec fn push_all(regs: Seq<Register>) -> Seq<u8>
    decreases regs.len(),
{
    if regs.len() == 0 {
        seq![]
    } else {
        push_all(regs.drop_last()) + seq![(0x50 + reg_code(regs.last())) as u8]
    }
}

pub open spec fn pop_all_reversed(regs: Seq<Register>) -> Seq<u8>
    decreases regs.len(),
{
    if regs.len() == 0 {
        seq![]
    } else {
        seq![(0x58 + reg_code(regs.last())) as u8] + pop_all_reversed(regs.drop_last())
    }
}

/// The first of `vs` that `ra` does not map.
pub open spec fn first_unallocated(vs: Seq<VReg>, ra: Map<u32, Register>) -> Option<VReg>
    decreases vs.len(),
{
    if vs.len() == 0 {
        None
    } else if !ra.contains_key(vs[0].0) {
        Some(vs[0])
    } else {
        first_unallocated(vs.drop_first(), ra)
    }
}

pub open spec fn unallocated_message(v: VReg) -> Seq<char> {
    "No register allocated for VReg("@ + decimal(v.0 as nat) + ")"@
}

pub open spec fn physical_operand_message() -> Seq<char> {
    "PhysicalReg not supported in binary operations"@
}

pub open spec fn immediate_operand_message(op: BinOp) -> Seq<char> {
    if op is Le || op is Gt {
        "Immediate operands not yet supported for comparisons"@
    } else {
        "Immediate operands not yet supported for binary ops"@
    }
}

pub open spec fn division_message() -> Seq<char> {
    "Division not yet implemented in TargetIR backend"@
}

pub open spec fn unsupported_op_message(op: BinOp) -> Seq<char> {
    "Binary operation "@ + op.spec_name() + " not yet implemented"@
}

pub open spec fn too_many_arguments_message() -> Seq<char> {
    "Too many arguments for function call (max 4 supported)"@
}

pub open spec fn stack_offset_message() -> Seq<char> {
    "Stack offset out of range"@
}

/// The bytes that put `lhs` into the destination register of a `BinaryOp`.
pub open spec fn lhs_bytes(lhs: Value, dst: Register, ra: Map<u32, Register>) -> Seq<u8> {
    match lhs {
        Value::Immediate(imm) => mov_imm(dst, imm),
        Value::VReg(l) => mov_rr(reg_of(ra, l), dst),
        Value::PhysicalReg(_) => seq![],
    }
}

/// The bytes that apply `op` with `rhs` to the destination register.
pub open spec fn op_bytes(op: BinOp, rhs: Value, dst: Register, ra: Map<u32, Register>) -> Result<
    Seq<u8>,
    Seq<char>,
> {
    match op {
        BinOp::Div => Err(division_message()),
        BinOp::Add | BinOp::Sub | BinOp::Mul | BinOp::Le | BinOp::Gt => match rhs {
            Value::Immediate(_) => Err(immediate_operand_message(op)),
            Value::PhysicalReg(_) => Err(physical_operand_message()),
            Value::VReg(x) => if !ra.contains_key(x.0) {
                Err(unallocated_message(x))
            } else {
                let r = reg_of(ra, x);
                Ok(
                    match op {
                        BinOp::Add => seq![
                            0x48u8,
                            0x01u8,
                            (0xc0 + reg_code(r) * 8 + reg_code(dst)) as u8,
                        ],
                        BinOp::Sub => seq![
                            0x48u8,
                            0x29u8,
                            (0xc0 + reg_code(r) * 8 + reg_code(dst)) as u8,
                        ],
                        BinOp::Mul => seq![
                            0x48u8,
                            0x0fu8,
                            0xafu8,
                            (0xc0 + reg_code(dst) * 8 + reg_code(r)) as u8,
                        ],
                        BinOp::Le => compare_bytes(r, dst, 0x9e),
                        _ => compare_bytes(r, dst, 0x9f),
                    },
                )
            },
        },
        _ => Err(unsupported_op_message(op)),
    }
}

/// A `BinaryOp`: the destination's register is looked up first, then the
/// left operand is moved in, then the operator is applied with the right one.
pub open spec fn encode_binary(
    dest: VReg,
    lhs: Value,
    rhs: Value,
    op: BinOp,
    ra: Map<u32, Register>,
) -> Result<Seq<u8>, Seq<char>> {
    if !ra.contains_key(dest.0) {
        Err(unallocated_message(dest))
    } else {
        match lhs {
            Value::PhysicalReg(_) => Err(physical_operand_message()),
            _ => if lhs is VReg && !ra.contains_key(lhs->VReg_0.0) {
                Err(unallocated_message(lhs->VReg_0))
            } else {
                match op_bytes(op, rhs, reg_of(ra, dest), ra) {
                    Ok(t) => Ok(lhs_bytes(lhs, reg_of(ra, dest), ra) + t),
                    Err(e) => Err(e),
                }
            },
        }
    }
}

/// The encoding of an instruction whose registers are all allocated; branch
/// and call displacements are left as four zero bytes.
pub open spec fn encode_allocated(instr: IrInstr, ra: Map<u32, Register>) -> Result<
    Seq<u8>,
    Seq<char>,
> {
    match instr {
        IrInstr::Copy { dest, src } => Ok(
            match src {
                Value::Immediate(imm) => mov_imm(reg_of(ra, dest), imm),
                Value::VReg(s) => mov_rr(reg_of(ra, s), reg_of(ra, dest)),
                Value::PhysicalReg(p) => mov_rr(p, reg_of(ra, dest)),
            },
        ),
        IrInstr::BinaryOp { dest, lhs, rhs, op } => encode_binary(dest, lhs, rhs, op, ra),
        IrInstr::Load { dest, offset } => if fits_i32(offset as int) {
            Ok(
                seq![
                    0x48u8,
                    0x8bu8,
                    (0x80 + reg_code(reg_of(ra, dest)) * 8 + 4) as u8,
                    0x24u8,
                ] + le32(offset as int),
            )
        } else {
            Err(stack_offset_message())
        },
        IrInstr::Store { src, offset } => if fits_i32(offset as int) {
            Ok(
                seq![
                    0x48u8,
                    0x89u8,
                    (0x80 + reg_code(reg_of(ra, src)) * 8 + 4) as u8,
                    0x24u8,
                ] + le32(offset as int),
            )
        } else {
            Err(stack_offset_message())
        },
        IrInstr::Push { src } => Ok(seq![(0x50 + reg_code(reg_of(ra, src))) as u8]),
        IrInstr::Pop { dest } => Ok(seq![(0x58 + reg_code(reg_of(ra, dest))) as u8]),
        IrInstr::Label(_) => Ok(seq![]),
        IrInstr::Jump(_) => Ok(seq![0xe9u8, 0u8, 0u8, 0u8, 0u8]),
        IrInstr::Branch { condition, .. } => Ok(
            seq![
                0x48u8,
                0x83u8,
                (0xf8 + reg_code(reg_of(ra, condition))) as u8,
                0x00u8,
                0x0fu8,
                0x85u8,
                0u8,
                0u8,
                0u8,
                0u8,
                0xe9u8,
                0u8,
                0u8,
                0u8,
                0u8,
            ],
        ),
        IrInstr::Call { dest, args, .. } => if args.len() > 4 {
            Err(too_many_arguments_message())
        } else {
            Ok(
                arg_moves(args, ra) + seq![0xe8u8, 0u8, 0u8, 0u8, 0u8] + match dest {
                    Some(d) => move_if(Register::Rax, reg_of(ra, d)),
                    None => seq![],
                },
            )
        },
        IrInstr::Return { value } => Ok(
            match value {
                Some(v) => move_if(reg_of(ra, v), Register::Rax),
                None => seq![],
            } + seq![0xc3u8],
        ),
        IrInstr::Syscall { result, syscall_num, args } => Ok(
            move_if(reg_of(ra, syscall_num), Register::Rax) + (if args.len() > 0 {
                move_if(reg_of(ra, args[0]), Register::Rdi)
            } else {
                seq![]
            }) + seq![0x0fu8, 0x05u8] + move_if(Register::Rax, reg_of(ra, result)),
        ),
        IrInstr::SaveRegisters { registers } => Ok(push_all(registers)),
        IrInstr::RestoreRegisters { registers } => Ok(pop_all_reversed(registers)),
    }
}

/// The bytes of one instruction, or the message of the error it raises.
pub open spec fn encode(instr: IrInstr, ra: Map<u32, Register>) -> Result<Seq<u8>, Seq<char>> {
    match instr {
        IrInstr::BinaryOp { dest, lhs, rhs, op } => encode_binary(dest, lhs, rhs, op, ra),
        _ => match first_unallocated(vregs_of(instr), ra) {
            Some(v) => Err(unallocated_message(v)),
            None => encode_allocated(instr, ra),
        },
    }
}

/// Where, relative to the start of an instruction's bytes, its label
/// displacements go, and to which label.
pub open spec fn label_fixups(instr: IrInstr) -> Seq<(int, LabelId)> {
    match instr {
        IrInstr::Jump(l) => seq![(1int, l)],
        IrInstr::Branch { true_label, false_label, .. } => seq![
            (6int, true_label),
            (11int, false_label),
        ],
        _ => seq![],
    }
}

/// Where, relative to the start of a call's bytes, its displacement goes.
pub open spec fn call_fixup_offset(args: Seq<VReg>, ra: Map<u32, Register>) -> int {
    arg_moves(args, ra).len() as int + 1
}

pub proof fn lemma_first_unallocated_none(vs: Seq<VReg>, ra: Map<u32, Register>)
    requires
        first_unallocated(vs, ra) is None,
    ensures
        forall|k: int| 0 <= k < vs.len() ==> ra.contains_key(#[trigger] vs[k].0),
    decreases vs.len(),
{
    if vs.len() > 0 {
        lemma_first_unallocated_none(vs.drop_first(), ra);
        assert forall|k: int| 0 <= k < vs.len() implies ra.contains_key(#[trigger] vs[k].0) by {
            if k > 0 {
                assert(vs[k] == vs.drop_first()[k - 1]);
            }
        }
    }
}

/// Finds the first of `vs` without a register.
pub fn find_unallocated(vs: &Vec<VReg>, regalloc: &RegisterAllocator) -> (r: Option<VReg>)
    ensures
        r == first_unallocated(vs@, regalloc.mapping()),
{
    let mut i: usize = 0;
    assert(vs@.subrange(0, vs@.len() as int) =~= vs@);
    while i < vs.len()
        invariant
            i <= vs.len(),
            first_unallocated(vs@, regalloc.mapping()) == first_unallocated(
                vs@.subrange(i as int, vs@.len() as int),
                regalloc.mapping(),
            ),
        decreases vs.len() - i,
    {
        let ghost rest = vs@.subrange(i as int, vs@.len() as int);
        assert(rest.drop_first() =~= vs@.subrange(i + 1, vs@.len() as int));
        if regalloc.get_register(vs[i]).is_none() {
            return Some(vs[i]);
        }
        i = i + 1;
    }
    None
}

/// The register of an allocated virtual register.
pub fn reg(regalloc: &RegisterAllocator, v: VReg) -> (r: Register)
    requires
        regalloc.mapping().contains_key(v.0),
    ensures
        r == reg_of(regalloc.mapping(), v),
{
    regalloc.get_register(v).unwrap()
}

pub fn unallocated_error(v: VReg) -> (e: CodegenError)
    ensures
        e.message@ == unallocated_message(v),
{
    let n = decimal_string(v.0 as u64);
    let m = join("No register allocated for VReg(", n.as_str()).concat(")");
    CodegenError { message: m }
}

pub fn error_with(message: &str) -> (e: CodegenError)
    ensures
        e.message@ == message@,
{
    CodegenError { message: String::from_str(message) }
}

pub fn push_le_bytes(out: &mut Vec<u8>, u: u64, n: usize)
    ensures
        final(out)@ == old(out)@ + le_bytes(u as nat, n as nat),
    decreases n,
{
    if n > 0 {
        out.push((u % 256) as u8);
        push_le_bytes(out, u / 256, n - 1);
        assert(final(out)@ =~= old(out)@ + le_bytes(u as nat, n as nat));
    } else {
        assert(final(out)@ =~= old(out)@ + le_bytes(u as nat, n as nat));
    }
}

pub fn push_le64(out: &mut Vec<u8>, v: i64)
    ensures
        final(out)@ == old(out)@ + le64(v as int),
{
    proof {
        vstd::arithmetic::power2::lemma2_to64();
    }
    let u: u64 = if v >= 0 {
        v as u64
    } else {
        let m: i64 = -(v + 1);
        u64::MAX - (m as u64)
    };
    assert(u as nat == twos(v as int, 64));
    push_le_bytes(out, u, 8);
}

pub fn push_le32(out: &mut Vec<u8>, v: i64)
    requires
        fits_i32(v as int),
    ensures
        final(out)@ == old(out)@ + le32(v as int),
{
    proof {
        vstd::arithmetic::power2::lemma2_to64();
    }
    let u: u64 = if v >= 0 {
        v as u64
    } else {
        (v + 0x1_0000_0000) as u64
    };
    assert(u as nat == twos(v as int, 32));
    push_le_bytes(out, u, 4);
}

pub fn push_mov_rr(out: &mut Vec<u8>, src: Register, dst: Register)
    ensures
        final(out)@ == old(out)@ + mov_rr(src, dst),
{
    let s = register_code(&src);
    let d = register_code(&dst);
    out.push(0x48);
    out.push(0x89);
    out.push(0xc0 + s * 8 + d);
    assert(final(out)@ =~= old(out)@ + mov_rr(src, dst));
}

pub fn push_move_if(out: &mut Vec<u8>, src: Register, dst: Register)
    ensures
        final(out)@ == old(out)@ + move_if(src, dst),
{
    if src != dst {
        push_mov_rr(out, src, dst);
    } else {
        assert(final(out)@ =~= old(out)@ + move_if(src, dst));
    }
}

pub fn push_mov_imm(out: &mut Vec<u8>, dst: Register, imm: i64)
    ensures
        final(out)@ == old(out)@ + mov_imm(dst, imm),
{
    let d = register_code(&dst);
    out.push(0x48);
    out.push(0xb8 + d);
    push_le64(out, imm);
    assert(final(out)@ =~= old(out)@ + mov_imm(dst, imm));
}

pub fn push_compare(out: &mut Vec<u8>, rhs: Register, dst: Register, cc: u8)
    ensures
        final(out)@ == old(out)@ + compare_bytes(rhs, dst, cc),
{
    let r = register_code(&rhs);
    let d = register_code(&dst);
    out.push(0x48);
    out.push(0x39);
    out.push(0xc0 + r * 8 + d);
    out.push(0x0f);
    out.push(cc);
    out.push(0xc0);
    out.push(0x48);
    out.push(0x0f);
    out.push(0xb6);
    out.push(0xc0 + d * 8);
    assert(final(out)@ =~= old(out)@ + compare_bytes(rhs, dst, cc));
}

} // verus!
