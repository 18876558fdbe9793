//! The virtual-register IR that lowering produces and emission consumes.
use vstd::prelude::*;

verus! {

/// An error raised by lowering or emission, with a human-readable message.
#[derive(Debug, Clone)]
pub struct CodegenError {
    pub message: String,
}

/// A virtual register: an integer name for a 64-bit value.
#[derive(Debug, Clone, Copy, PartialEq, Eq, Hash, Structural)]
pub struct VReg(pub u32);

/// An integer name for a code position.
#[derive(Debug, Clone, Copy, PartialEq, Eq, Hash, Structural)]
pub struct LabelId(pub u32);

/// The label id reserved for the program entry point.
pub const START_LABEL: u32 = 999;

/// Operand of a `Copy` or `BinaryOp`.
#[derive(Debug, Clone, Copy, PartialEq, Eq, Structural)]
pub enum Value {
    VReg(VReg),
    Immediate(i64),
    PhysicalReg(Register),
}

/// Binary operators of the IR.
#[derive(Debug, Clone, Copy, PartialEq, Eq, Structural)]
pub enum BinOp {
    Add,
    Sub,
    Mul,
    Div,
    Lt,
    Le,
    Gt,
    Ge,
    Eq,
    Ne,
}

impl BinOp {
    pub open spec fn spec_name(self) -> Seq<char> {
        match self {
            BinOp::Add => seq!['A', 'd', 'd'],
            BinOp::Sub => seq!['S', 'u', 'b'],
            BinOp::Mul => seq!['M', 'u', 'l'],
            BinOp::Div => seq!['D', 'i', 'v'],
            BinOp::Lt => seq!['L', 't'],
            BinOp::Le => seq!['L', 'e'],
            BinOp::Gt => seq!['G', 't'],
            BinOp::Ge => seq!['G', 'e'],
            BinOp::Eq => seq!['E', 'q'],
            BinOp::Ne => seq!['N', 'e'],
        }
    }

    /// The operator's name as written in the IR.
    pub fn name(&self) -> (r: String)
        ensures
            r@ == self.spec_name(),
    {
        let s = match self {
            BinOp::Add => "Add",
            BinOp::Sub => "Sub",
            BinOp::Mul => "Mul",
            BinOp::Div => "Div",
            BinOp::Lt => "Lt",
            BinOp::Le => "Le",
            BinOp::Gt => "Gt",
            BinOp::Ge => "Ge",
            BinOp::Eq => "Eq",
            BinOp::Ne => "Ne",
        };
        proof {
            reveal_strlit("Add");
            reveal_strlit("Sub");
            reveal_strlit("Mul");
            reveal_strlit("Div");
            reveal_strlit("Lt");
            reveal_strlit("Le");
            reveal_strlit("Gt");
            reveal_strlit("Ge");
            reveal_strlit("Eq");
            reveal_strlit("Ne");
        }
        let r = s.to_owned();
        assert(r@ =~= self.spec_name());
        r
    }
}

/// x86-64 general-purpose registers.
#[derive(Debug, Clone, Copy, PartialEq, Eq, Hash, Structural)]
pub enum Register {
    Rax,
    Rbx,
    Rcx,
    Rdx,
    Rsp,
    Rbp,
    Rsi,
    Rdi,
    R8,
    R9,
    R10,
    R11,
    R12,
    R13,
    R14,
    R15,
}

/// One IR instruction.
#[derive(Debug, Clone)]
pub enum Instruction {
    /// `dest <- src`
    Copy { dest: VReg, src: Value },
    /// `dest <- lhs op rhs`
    BinaryOp { dest: VReg, lhs: Value, rhs: Value, op: BinOp },
    /// Load from `[rsp + offset]`.
    Load { dest: VReg, offset: i64 },
    /// Store to `[rsp + offset]`.
    Store { src: VReg, offset: i64 },
    /// Spill a value across a call.
    Push { src: VReg },
    /// Reload a spilled value.
    Pop { dest: VReg },
    /// Position marker; emits no bytes.
    Label(LabelId),
    /// Unconditional branch.
    Jump(LabelId),
    /// Go to `true_label` if `condition` is non-zero, else to `false_label`.
    Branch { condition: VReg, true_label: LabelId, false_label: LabelId },
    /// Call a function by name; first arguments in RDI, RSI, RDX, RCX.
    Call { dest: Option<VReg>, function: String, args: Vec<VReg> },
    /// Return, with the value (if any) moved into RAX.
    Return { value: Option<VReg> },
    /// Linux system call: number in RAX, first argument in RDI.
    Syscall { result: VReg, syscall_num: VReg, args: Vec<VReg> },
    /// Push physical registers in order.
    SaveRegisters { registers: Vec<Register> },
    /// Pop physical registers in reverse order.
    RestoreRegisters { registers: Vec<Register> },
}

/// The mathematical content of an instruction: names as character
/// sequences and operand lists as sequences.
pub enum IrInstr {
    Copy { dest: VReg, src: Value },
    BinaryOp { dest: VReg, lhs: Value, rhs: Value, op: BinOp },
    Load { dest: VReg, offset: i64 },
    Store { src: VReg, offset: i64 },
    Push { src: VReg },
    Pop { dest: VReg },
    Label(LabelId),
    Jump(LabelId),
    Branch { condition: VReg, true_label: LabelId, false_label: LabelId },
    Call { dest: Option<VReg>, function: Seq<char>, args: Seq<VReg> },
    Return { value: Option<VReg> },
    Syscall { result: VReg, syscall_num: VReg, args: Seq<VReg> },
    SaveRegisters { registers: Seq<Register> },
    RestoreRegisters { registers: Seq<Register> },
}

impl View for Instruction {
    type V = IrInstr;

    open spec fn view(&self) -> IrInstr {
        match self {
            Instruction::Copy { dest, src } => IrInstr::Copy { dest: *dest, src: *src },
            Instruction::BinaryOp { dest, lhs, rhs, op } => IrInstr::BinaryOp {
                dest: *dest,
                lhs: *lhs,
                rhs: *rhs,
                op: *op,
            },
            Instruction::Load { dest, offset } => IrInstr::Load { dest: *dest, offset: *offset },
            Instruction::Store { src, offset } => IrInstr::Store { src: *src, offset: *offset },
            Instruction::Push { src } => IrInstr::Push { src: *src },
            Instruction::Pop { dest } => IrInstr::Pop { dest: *dest },
            Instruction::Label(l) => IrInstr::Label(*l),
            Instruction::Jump(l) => IrInstr::Jump(*l),
            Instruction::Branch { condition, true_label, false_label } => IrInstr::Branch {
                condition: *condition,
                true_label: *true_label,
                false_label: *false_label,
            },
            Instruction::Call { dest, function, args } => IrInstr::Call {
                dest: *dest,
                function: function@,
                args: args@,
            },
            Instruction::Return { value } => IrInstr::Return { value: *value },
            Instruction::Syscall { result, syscall_num, args } => IrInstr::Syscall {
                result: *result,
                syscall_num: *syscall_num,
                args: args@,
            },
            Instruction::SaveRegisters { registers } => IrInstr::SaveRegisters {
                registers: registers@,
            },
            Instruction::RestoreRegisters { registers } => IrInstr::RestoreRegisters {
                registers: registers@,
            },
        }
    }
}

impl Instruction {
    /// A copy of this instruction.
    pub fn duplicate(&self) -> (r: Instruction)
        ensures
            r@ == self@,
    {
        match self {
            Instruction::Copy { dest, src } => Instruction::Copy { dest: *dest, src: *src },
            Instruction::BinaryOp { dest, lhs, rhs, op } => Instruction::BinaryOp {
                dest: *dest,
                lhs: *lhs,
                rhs: *rhs,
                op: *op,
            },
            Instruction::Load { dest, offset } => Instruction::Load { dest: *dest, offset: *offset },
            Instruction::Store { src, offset } => Instruction::Store { src: *src, offset: *offset },
            Instruction::Push { src } => Instruction::Push { src: *src },
            Instruction::Pop { dest } => Instruction::Pop { dest: *dest },
            Instruction::Label(l) => Instruction::Label(*l),
            Instruction::Jump(l) => Instruction::Jump(*l),
            Instruction::Branch { condition, true_label, false_label } => Instruction::Branch {
                condition: *condition,
                true_label: *true_label,
                false_label: *false_label,
            },
            Instruction::Call { dest, function, args } => Instruction::Call {
                dest: *dest,
                function: function.clone(),
                args: copy_vec(args),
            },
            Instruction::Return { value } => Instruction::Return { value: *value },
            Instruction::Syscall { result, syscall_num, args } => Instruction::Syscall {
                result: *result,
                syscall_num: *syscall_num,
                args: copy_vec(args),
            },
            Instruction::SaveRegisters { registers } => Instruction::SaveRegisters {
                registers: copy_vec(registers),
            },
            Instruction::RestoreRegisters { registers } => Instruction::RestoreRegisters {
                registers: copy_vec(registers),
            },
        }
    }
}

/// An element-by-element copy of a vector of plain values.
pub fn copy_vec<T: Copy>(v: &Vec<T>) -> (r: Vec<T>)
    ensures
        r@ == v@,
{
    let mut out: Vec<T> = Vec::new();
    let mut i: usize = 0;
    while i < v.len()
        invariant
            i <= v@.len(),
            out@ == v@.subrange(0, i as int),
        decreases v@.len() - i,
    {
        out.push(v[i]);
        i = i + 1;
        assert(out@ =~= v@.subrange(0, i as int));
    }
    assert(v@.subrange(0, v@.len() as int) =~= v@);
    out
}

/// The views of a sequence of instructions.
pub open spec fn ir_view(s: Seq<Instruction>) -> Seq<IrInstr> {
    s.map_values(|i: Instruction| i@)
}

/// The virtual registers an instruction names, in the order in which
/// register allocation visits them.
pub open spec fn vregs_of(instr: IrInstr) -> Seq<VReg> {
    match instr {
        IrInstr::Copy { dest, src } => match src {
            Value::VReg(s) => seq![dest, s],
            _ => seq![dest],
        },
        IrInstr::BinaryOp { dest, lhs, rhs, .. } => seq![dest] + value_vregs(lhs)
            + value_vregs(rhs),
        IrInstr::Load { dest, .. } => seq![dest],
        IrInstr::Store { src, .. } => seq![src],
        IrInstr::Push { src } => seq![src],
        IrInstr::Pop { dest } => seq![dest],
        IrInstr::Branch { condition, .. } => seq![condition],
        IrInstr::Call { dest, args, .. } => opt_vregs(dest) + args,
        IrInstr::Return { value } => opt_vregs(value),
        IrInstr::Syscall { result, syscall_num, args } => seq![result, syscall_num] + args,
        _ => seq![],
    }
}

pub open spec fn opt_vregs(v: Option<VReg>) -> Seq<VReg> {
    match v {
        Some(r) => seq![r],
        None => seq![],
    }
}

pub open spec fn value_vregs(v: Value) -> Seq<VReg> {
    match v {
        Value::VReg(r) => seq![r],
        _ => seq![],
    }
}

/// The label ids an instruction branches to.
pub open spec fn label_targets(instr: IrInstr) -> Seq<LabelId> {
    match instr {
        IrInstr::Jump(l) => seq![l],
        IrInstr::Branch { true_label, false_label, .. } => seq![true_label, false_label],
        _ => seq![],
    }
}

/// Whether `instrs` holds a `Label(l)` instruction.
pub open spec fn defines_label(instrs: Seq<IrInstr>, l: LabelId) -> bool {
    exists|j: int| 0 <= j < instrs.len() && instrs[j] == IrInstr::Label(l)
}

/// Every label that an instruction of `instrs` branches to is defined in `instrs`.
pub open spec fn labels_closed(instrs: Seq<IrInstr>) -> bool {
    forall|i: int, k: int|
        0 <= i < instrs.len() && 0 <= k < label_targets(#[trigger] instrs[i]).len()
            ==> defines_label(instrs, #[trigger] label_targets(instrs[i])[k])
}

/// The virtual registers named anywhere in `instrs`.
pub open spec fn vreg_occurs(instrs: Seq<IrInstr>, v: VReg) -> bool {
    exists|i: int, k: int|
        0 <= i < instrs.len() && 0 <= k < vregs_of(instrs[i]).len() && vregs_of(instrs[i])[k]
            == v
}

/// Collects the virtual registers of one instruction, in allocation order.
pub fn instruction_vregs(instr: &Instruction) -> (r: Vec<VReg>)
    ensures
        r@ == vregs_of(instr@),
{
    match instr {
        Instruction::Copy { dest, src } => match src {
            Value::VReg(s) => vec![*dest, *s],
            _ => vec![*dest],
        },
        Instruction::BinaryOp { dest, lhs, rhs, .. } => {
            let mut r = vec![*dest];
            if let Value::VReg(l) = lhs {
                r.push(*l);
            }
            if let Value::VReg(x) = rhs {
                r.push(*x);
            }
            assert(r@ =~= vregs_of(instr@));
            r
        },
        Instruction::Load { dest, .. } => vec![*dest],
        Instruction::Store { src, .. } => vec![*src],
        Instruction::Push { src } => vec![*src],
        Instruction::Pop { dest } => vec![*dest],
        Instruction::Branch { condition, .. } => vec![*condition],
        Instruction::Call { dest, args, .. } => {
            let mut r = Vec::new();
            if let Some(d) = dest {
                r.push(*d);
            }
            let mut i: usize = 0;
            while i < args.len()
                invariant
                    i <= args.len(),
                    r@ == opt_vregs(*dest) + args@.subrange(0, i as int),
                decreases args.len() - i,
            {
                r.push(args[i]);
                i = i + 1;
                proof {
                    assert(args@.subrange(0, i as int) =~= args@.subrange(0, i - 1) + seq![
                        args@[i - 1],
                    ]);
                }
            }
            assert(args@.subrange(0, args.len() as int) =~= args@);
            assert(r@ =~= vregs_of(instr@));
            r
        },
        Instruction::Return { value } => match value {
            Some(v) => vec![*v],
            None => Vec::new(),
        },
        Instruction::Syscall { result, syscall_num, args } => {
            let mut r = vec![*result, *syscall_num];
            let mut i: usize = 0;
            while i < args.len()
                invariant
                    i <= args.len(),
                    r@ == seq![*result, *syscall_num] + args@.subrange(0, i as int),
                decreases args.len() - i,
            {
                r.push(args[i]);
                i = i + 1;
                proof {
                    assert(args@.subrange(0, i as int) =~= args@.subrange(0, i - 1) + seq![
                        args@[i - 1],
                    ]);
                }
            }
            assert(args@.subrange(0, args.len() as int) =~= args@);
            assert(r@ =~= vregs_of(instr@));
            r
        },
        _ => Vec::new(),
    }
}

} // verus!
