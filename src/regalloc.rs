//! Round-robin register allocation over a fixed pool of caller-saved registers.
use crate::ir::{
    Instruction, IrInstr, Register, VReg, instruction_vregs, ir_view, vregs_of, vreg_occurs,
};
use std::collections::HashMap;
use vstd::prelude::*;

verus! {

broadcast use vstd::std_specs::hash::group_hash_axioms;

/// The allocation pool, in the order in which registers are handed out.
pub open spec fn pool() -> Seq<Register> {
    seq![Register::Rbx, Register::Rcx, Register::Rdx, Register::Rsi, Register::Rdi]
}

/// Allocation state after visiting `v`: its register is kept if it has one,
/// else it takes the pool register at `st.1` and the index moves on.
pub open spec fn alloc_step(st: (Map<u32, Register>, nat), v: VReg) -> (Map<u32, Register>, nat) {
    if st.0.contains_key(v.0) {
        st
    } else {
        (st.0.insert(v.0, pool()[st.1 as int]), (st.1 + 1) % 5)
    }
}

pub open spec fn alloc_seq(st: (Map<u32, Register>, nat), vs: Seq<VReg>) -> (
    Map<u32, Register>,
    nat,
)
    decreases vs.len(),
{
    if vs.len() == 0 {
        st
    } else {
        alloc_step(alloc_seq(st, vs.drop_last()), vs.last())
    }
}

/// Allocation state after visiting every virtual register of `instrs`.
pub open spec fn alloc_instrs(instrs: Seq<IrInstr>) -> (Map<u32, Register>, nat)
    decreases instrs.len(),
{
    if instrs.len() == 0 {
        (Map::empty(), 0)
    } else {
        alloc_seq(alloc_instrs(instrs.drop_last()), vregs_of(instrs.last()))
    }
}

/// The register mapping that allocation gives `instrs`.
pub open spec fn allocation_of(instrs: Seq<IrInstr>) -> Map<u32, Register> {
    alloc_instrs(instrs).0
}

/// Maps each virtual register to a physical register, handing out the pool
/// round-robin to registers seen for the first time.
pub struct RegisterAllocator {
    allocation: HashMap<u32, Register>,
    available_registers: Vec<Register>,
    next_register_index: usize,
}

impl RegisterAllocator {
    /// The virtual-to-physical mapping, keyed by virtual register number.
    pub closed spec fn mapping(&self) -> Map<u32, Register> {
        self.allocation@
    }

    /// Index in the pool of the register the next new virtual register gets.
    pub closed spec fn next_index(&self) -> nat {
        self.next_register_index as nat
    }

    pub closed spec fn wf(&self) -> bool {
        &&& self.available_registers@ == pool()
        &&& self.next_register_index < 5
        &&& forall|k: u32| #[trigger]
            self.allocation@.contains_key(k) ==> pool().contains(self.allocation@[k])
    }

    pub fn new() -> (r: Self)
        ensures
            r.wf(),
            r.mapping() == Map::<u32, Register>::empty(),
            r.next_index() == 0,
    {
        let available_registers = vec![
            Register::Rbx,
            Register::Rcx,
            Register::Rdx,
            Register::Rsi,
            Register::Rdi,
        ];
        let r = RegisterAllocator {
            allocation: HashMap::new(),
            available_registers,
            next_register_index: 0,
        };
        assert(r.available_registers@ =~= pool());
        r
    }

    /// Returns the register of `vreg`, assigning the next pool register on
    /// first sight.
    pub fn allocate(&mut self, vreg: VReg) -> (r: Register)
        requires
            old(self).wf(),
        ensures
            final(self).wf(),
            pool().contains(r),
            old(self).mapping().contains_key(vreg.0) ==> {
                &&& r == old(self).mapping()[vreg.0]
                &&& final(self).mapping() == old(self).mapping()
                &&& final(self).next_index() == old(self).next_index()
            },
            !old(self).mapping().contains_key(vreg.0) ==> {
                &&& r == pool()[old(self).next_index() as int]
                &&& final(self).mapping() == old(self).mapping().insert(vreg.0, r)
                &&& final(self).next_index() == (old(self).next_index() + 1) % 5
            },
    {
        match self.allocation.get(&vreg.0) {
            Some(reg) => *reg,
            None => {
                let physical_reg = self.available_registers[self.next_register_index];
                self.next_register_index = (self.next_register_index + 1) % 5;
                self.allocation.insert(vreg.0, physical_reg);
                physical_reg
            },
        }
    }

    /// The whole mapping, keyed by virtual register number.
    pub fn get_allocation(&self) -> (r: &HashMap<u32, Register>)
        ensures
            r@ == self.mapping(),
    {
        &self.allocation
    }

    /// The register of `vreg`, if it has one.
    pub fn get_register(&self, vreg: VReg) -> (r: Option<Register>)
        ensures
            r == (if self.mapping().contains_key(vreg.0) {
                Some(self.mapping()[vreg.0])
            } else {
                None
            }),
    {
        match self.allocation.get(&vreg.0) {
            Some(reg) => Some(*reg),
            None => None,
        }
    }

    /// Allocates every virtual register of `instr`, in order.
    pub fn allocate_instruction(&mut self, instr: &Instruction)
        requires
            old(self).wf(),
        ensures
            final(self).wf(),
            (final(self).mapping(), final(self).next_index()) == alloc_seq(
                (old(self).mapping(), old(self).next_index()),
                vregs_of(instr@),
            ),
            forall|k: u32| old(self).mapping().contains_key(k) ==> #[trigger]
                final(self).mapping().contains_key(k) && final(self).mapping()[k]
                    == old(self).mapping()[k],
            forall|k: int|
                0 <= k < vregs_of(instr@).len() ==> final(self).mapping().contains_key(
                    #[trigger] vregs_of(instr@)[k].0,
                ),
    {
        let vs = instruction_vregs(instr);
        let mut i: usize = 0;
        while i < vs.len()
            invariant
                self.wf(),
                vs@ == vregs_of(instr@),
                i <= vs.len(),
                (self.mapping(), self.next_index()) == alloc_seq(
                    (old(self).mapping(), old(self).next_index()),
                    vs@.subrange(0, i as int),
                ),
                forall|k: u32| old(self).mapping().contains_key(k) ==> #[trigger]
                    self.mapping().contains_key(k) && self.mapping()[k] == old(self).mapping()[k],
                forall|k: int| 0 <= k < i ==> self.mapping().contains_key(#[trigger] vs@[k].0),
            decreases vs.len() - i,
        {
            self.allocate(vs[i]);
            i = i + 1;
            assert(vs@.subrange(0, i as int).drop_last() =~= vs@.subrange(0, i - 1));
        }
        assert(vs@.subrange(0, vs@.len() as int) =~= vs@);
    }
}

impl Default for RegisterAllocator {
    fn default() -> (r: Self)
        ensures
            r.wf(),
            r.mapping() == Map::<u32, Register>::empty(),
            r.next_index() == 0,
    {
        Self::new()
    }
}

/// Allocates registers for a whole instruction sequence, visiting each
/// instruction's virtual registers in order.
pub fn allocate_registers(instructions: &Vec<Instruction>) -> (r: RegisterAllocator)
    ensures
        r.wf(),
        r.mapping() == allocation_of(ir_view(instructions@)),
        forall|v: VReg| vreg_occurs(ir_view(instructions@), v) ==> #[trigger] r.mapping().contains_key(v.0),
{
    let mut ra = RegisterAllocator::new();
    let mut i: usize = 0;
    while i < instructions.len()
        invariant
            ra.wf(),
            i <= instructions.len(),
            (ra.mapping(), ra.next_index()) == alloc_instrs(ir_view(instructions@).subrange(0, i as int)),
            forall|j: int, k: int|
                0 <= j < i && 0 <= k < vregs_of(instructions@[j]@).len() ==> ra.mapping().contains_key(
                    #[trigger] vregs_of(#[trigger] instructions@[j]@)[k].0,
                ),
        decreases instructions.len() - i,
    {
        ra.allocate_instruction(&instructions[i]);
        i = i + 1;
        assert(ir_view(instructions@).subrange(0, i as int).drop_last() =~= ir_view(
            instructions@,
        ).subrange(0, i - 1));
    }
    assert(ir_view(instructions@).subrange(0, instructions@.len() as int) =~= ir_view(
        instructions@,
    ));
    assert forall|v: VReg| vreg_occurs(ir_view(instructions@), v) implies #[trigger] ra.mapping().contains_key(
        v.0,
    ) by {
        let (j, k) = choose|j: int, k: int|
            0 <= j < instructions@.len() && 0 <= k < vregs_of(instructions@[j]@).len()
                && vregs_of(instructions@[j]@)[k] == v;
        assert(ra.mapping().contains_key(vregs_of(instructions@[j]@)[k].0));
    }
    ra
}

} // verus!
