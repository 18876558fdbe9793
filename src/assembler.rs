//! Emission of a whole IR sequence: one pass that lays out bytes and records
//! fix-ups, then patching of branch displacements and call relocations, and
//! packaging as an ELF64 executable.
use crate::encode::{
    arg_moves, call_fixup_offset, encode, encode_allocated, error_with, find_unallocated, fits_i32,
    label_fixups, le32, le_bytes, lemma_first_unallocated_none, pop_all_reversed, push_all,
    push_compare, push_le32, push_mov_imm, push_mov_rr, push_move_if, reg, register_code, twos,
    unallocated_error,
};
use crate::ir::{
    CodegenError, Instruction, IrInstr, LabelId, Register, START_LABEL, Value, VReg,
    instruction_vregs, ir_view, vregs_of,
};
use crate::elf::{elf_image, wrap_elf};
use crate::regalloc::{RegisterAllocator, allocate_registers, allocation_of};
use crate::text::{decimal, decimal_string, join};
use std::collections::HashMap;
use vstd::prelude::*;
use vstd::string::StringExecFns;

verus! {

broadcast use vstd::std_specs::hash::group_hash_axioms;

/// A call site whose displacement is resolved against a function symbol.
pub struct Relocation {
    pub offset: usize,
    pub symbol: String,
}

/// The code bytes of `instrs` with zero displacements, or the first error.
pub open spec fn layout(instrs: Seq<IrInstr>, ra: Map<u32, Register>) -> Result<
    Seq<u8>,
    Seq<char>,
>
    decreases instrs.len(),
{
    if instrs.len() == 0 {
        Ok(seq![])
    } else {
        match layout(instrs.drop_last(), ra) {
            Err(e) => Err(e),
            Ok(c) => match encode(instrs.last(), ra) {
                Ok(b) => Ok(c + b),
                Err(e) => Err(e),
            },
        }
    }
}

/// Byte offset at which the `i`-th instruction's bytes start.
pub open spec fn offset_of(instrs: Seq<IrInstr>, ra: Map<u32, Register>, i: int) -> nat {
    layout(instrs.subrange(0, i), ra)->Ok_0.len()
}

/// Label id to byte offset, the last definition of a label winning.
pub open spec fn label_table(instrs: Seq<IrInstr>, ra: Map<u32, Register>) -> Map<u32, usize>
    decreases instrs.len(),
{
    if instrs.len() == 0 {
        Map::empty()
    } else {
        let m = label_table(instrs.drop_last(), ra);
        match instrs.last() {
            IrInstr::Label(l) => m.insert(
                l.0,
                layout(instrs.drop_last(), ra)->Ok_0.len() as usize,
            ),
            _ => m,
        }
    }
}

pub open spec fn shifted(fx: Seq<(int, LabelId)>, base: int) -> Seq<(usize, LabelId)> {
    fx.map_values(|f: (int, LabelId)| ((f.0 + base) as usize, f.1))
}

/// Branch displacement sites of `instrs`, in order, with their target labels.
pub open spec fn label_refs(instrs: Seq<IrInstr>, ra: Map<u32, Register>) -> Seq<
    (usize, LabelId),
>
    decreases instrs.len(),
{
    if instrs.len() == 0 {
        seq![]
    } else {
        label_refs(instrs.drop_last(), ra) + shifted(
            label_fixups(instrs.last()),
            layout(instrs.drop_last(), ra)->Ok_0.len() as int,
        )
    }
}

pub open spec fn call_site(instr: IrInstr, ra: Map<u32, Register>, base: int) -> Seq<
    (usize, Seq<char>),
> {
    match instr {
        IrInstr::Call { function, args, .. } => seq![
            ((base + call_fixup_offset(args, ra)) as usize, function),
        ],
        _ => seq![],
    }
}

/// Call displacement sites of `instrs`, in order, with the called names.
pub open spec fn call_refs(instrs: Seq<IrInstr>, ra: Map<u32, Register>) -> Seq<
    (usize, Seq<char>),
>
    decreases instrs.len(),
{
    if instrs.len() == 0 {
        seq![]
    } else {
        call_refs(instrs.drop_last(), ra) + call_site(
            instrs.last(),
            ra,
            layout(instrs.drop_last(), ra)->Ok_0.len() as int,
        )
    }
}

pub open spec fn undefined_label_message(l: LabelId) -> Seq<char> {
    "Undefined label: LabelId("@ + decimal(l.0 as nat) + ")"@
}

pub open spec fn undefined_symbol_message(name: Seq<char>) -> Seq<char> {
    "Undefined symbol: "@ + name
}

pub open spec fn range_message() -> Seq<char> {
    "Relative address out of range"@
}

/// The four displacement bytes at `at` that reach `target`.
pub open spec fn displacement(target: int, at: int) -> Result<Seq<u8>, Seq<char>> {
    let d = target - (at + 4);
    if fits_i32(d) {
        Ok(le32(d))
    } else {
        Err(range_message())
    }
}

pub open spec fn write_at(code: Seq<u8>, at: int, b: Seq<u8>) -> Seq<u8> {
    code.update(at, b[0]).update(at + 1, b[1]).update(at + 2, b[2]).update(at + 3, b[3])
}

/// `code` with each branch displacement filled in.
pub open spec fn patch_labels(
    code: Seq<u8>,
    refs: Seq<(usize, LabelId)>,
    labels: Map<u32, usize>,
) -> Result<Seq<u8>, Seq<char>>
    decreases refs.len(),
{
    if refs.len() == 0 {
        Ok(code)
    } else {
        match patch_labels(code, refs.drop_last(), labels) {
            Err(e) => Err(e),
            Ok(c) => {
                let (at, l) = refs.last();
                if !labels.contains_key(l.0) {
                    Err(undefined_label_message(l))
                } else {
                    match displacement(labels[l.0] as int, at as int) {
                        Ok(b) => Ok(write_at(c, at as int, b)),
                        Err(e) => Err(e),
                    }
                }
            },
        }
    }
}

/// The last label recorded for `name` in a function label list.
pub open spec fn lookup_function(functions: Seq<(Seq<char>, LabelId)>, name: Seq<char>) -> Option<
    LabelId,
>
    decreases functions.len(),
{
    if functions.len() == 0 {
        None
    } else if functions.last().0 == name {
        Some(functions.last().1)
    } else {
        lookup_function(functions.drop_last(), name)
    }
}

/// The label a symbol stands for: a function's entry, or the program entry
/// for `_start`.
pub open spec fn symbol_label(functions: Seq<(Seq<char>, LabelId)>, name: Seq<char>) -> Option<
    LabelId,
> {
    match lookup_function(functions, name) {
        Some(l) => Some(l),
        None => if name == "_start"@ {
            Some(LabelId(START_LABEL))
        } else {
            None
        },
    }
}

/// `code` with each call displacement filled in.
pub open spec fn patch_calls(
    code: Seq<u8>,
    refs: Seq<(usize, Seq<char>)>,
    labels: Map<u32, usize>,
    functions: Seq<(Seq<char>, LabelId)>,
) -> Result<Seq<u8>, Seq<char>>
    decreases refs.len(),
{
    if refs.len() == 0 {
        Ok(code)
    } else {
        match patch_calls(code, refs.drop_last(), labels, functions) {
            Err(e) => Err(e),
            Ok(c) => {
                let (at, name) = refs.last();
                match symbol_label(functions, name) {
                    Some(l) => if labels.contains_key(l.0) {
                        match displacement(labels[l.0] as int, at as int) {
                            Ok(b) => Ok(write_at(c, at as int, b)),
                            Err(e) => Err(e),
                        }
                    } else {
                        Err(undefined_symbol_message(name))
                    },
                    None => Err(undefined_symbol_message(name)),
                }
            },
        }
    }
}

/// The machine code of `instrs` under register mapping `ra` and function
/// labels `functions`, or the message of the first error.
pub open spec fn assemble_with(
    instrs: Seq<IrInstr>,
    ra: Map<u32, Register>,
    functions: Seq<(Seq<char>, LabelId)>,
) -> Result<Seq<u8>, Seq<char>> {
    match layout(instrs, ra) {
        Err(e) => Err(e),
        Ok(c) => match patch_labels(c, label_refs(instrs, ra), label_table(instrs, ra)) {
            Err(e) => Err(e),
            Ok(c2) => patch_calls(c2, call_refs(instrs, ra), label_table(instrs, ra), functions),
        },
    }
}

/// The machine code of `instrs`, allocated by round-robin allocation.
pub open spec fn assemble_spec(
    instrs: Seq<IrInstr>,
    functions: Seq<(Seq<char>, LabelId)>,
) -> Result<Seq<u8>, Seq<char>> {
    assemble_with(instrs, allocation_of(instrs), functions)
}

/// Reserves four zero bytes for a displacement patched later.
fn push_placeholder(out: &mut Vec<u8>)
    ensures
        final(out)@ == old(out)@ + seq![0u8, 0u8, 0u8, 0u8],
{
    out.push(0);
    out.push(0);
    out.push(0);
    out.push(0);
    assert(final(out)@ =~= old(out)@ + seq![0u8, 0u8, 0u8, 0u8]);
}

pub proof fn lemma_layout_prefix(instrs: Seq<IrInstr>, ra: Map<u32, Register>, n: int)
    requires
        layout(instrs, ra) is Ok,
        0 <= n <= instrs.len(),
    ensures
        layout(instrs.subrange(0, n), ra) is Ok,
        layout(instrs.subrange(0, n), ra)->Ok_0.len() <= layout(instrs, ra)->Ok_0.len(),
    decreases instrs.len(),
{
    if n < instrs.len() {
        assert(instrs.drop_last().subrange(0, n) =~= instrs.subrange(0, n));
        lemma_layout_prefix(instrs.drop_last(), ra, n);
    } else {
        assert(instrs.subrange(0, n) =~= instrs);
    }
}

/// A label's recorded position is the offset of its own instruction, as long
/// as no later instruction defines the same label.
pub proof fn lemma_label_table_entry(instrs: Seq<IrInstr>, ra: Map<u32, Register>, i: int)
    requires
        layout(instrs, ra) is Ok,
        0 <= i < instrs.len(),
        instrs[i] is Label,
        forall|k: int| i < k < instrs.len() ==> instrs[k] != IrInstr::Label(instrs[i]->Label_0),
    ensures
        label_table(instrs, ra).contains_key(instrs[i]->Label_0.0),
        label_table(instrs, ra)[instrs[i]->Label_0.0] == offset_of(instrs, ra, i) as usize,
    decreases instrs.len(),
{
    let l = instrs[i]->Label_0;
    lemma_layout_prefix(instrs, ra, instrs.len() - 1);
    assert(instrs.subrange(0, instrs.len() - 1) =~= instrs.drop_last());
    if i == instrs.len() - 1 {
    } else {
        assert(instrs.drop_last()[i] == instrs[i]);
        assert forall|k: int| i < k < instrs.drop_last().len() implies instrs.drop_last()[k]
            != IrInstr::Label(l) by {
            assert(instrs.drop_last()[k] == instrs[k]);
        }
        lemma_label_table_entry(instrs.drop_last(), ra, i);
        assert(instrs.drop_last().subrange(0, i) =~= instrs.subrange(0, i));
        match instrs.last() {
            IrInstr::Label(m) => {
                assert(m != l);
                assert(m.0 != l.0);
            },
            _ => {},
        }
    }
}

/// Labels emit no bytes: across a run of labels the offset does not move.
pub proof fn lemma_offsets_across_labels(
    instrs: Seq<IrInstr>,
    ra: Map<u32, Register>,
    i: int,
    j: int,
)
    requires
        layout(instrs, ra) is Ok,
        0 <= i <= j <= instrs.len(),
        forall|k: int| i <= k < j ==> instrs[k] is Label,
    ensures
        offset_of(instrs, ra, j) == offset_of(instrs, ra, i),
    decreases j - i,
{
    if i < j {
        lemma_offsets_across_labels(instrs, ra, i, j - 1);
        lemma_layout_prefix(instrs, ra, j);
        assert(instrs.subrange(0, j).drop_last() =~= instrs.subrange(0, j - 1));
        assert(instrs.subrange(0, j).last() == instrs[j - 1]);
        assert(vregs_of(instrs[j - 1]) =~= Seq::<VReg>::empty());
    }
}

/// The position recorded for a label is the offset at which the bytes of
/// the next instruction that is not a label start.
pub proof fn lemma_label_position(instrs: Seq<IrInstr>, ra: Map<u32, Register>, i: int, j: int)
    requires
        layout(instrs, ra) is Ok,
        layout(instrs, ra)->Ok_0.len() <= usize::MAX,
        0 <= i < j <= instrs.len(),
        forall|k: int| i <= k < j ==> instrs[k] is Label,
        j < instrs.len() ==> !(instrs[j] is Label),
        forall|k: int| i < k < instrs.len() ==> instrs[k] != IrInstr::Label(instrs[i]->Label_0),
    ensures
        label_table(instrs, ra).contains_key(instrs[i]->Label_0.0),
        label_table(instrs, ra)[instrs[i]->Label_0.0] as int == offset_of(instrs, ra, j),
        j < instrs.len() ==> layout(instrs.subrange(0, j + 1), ra)->Ok_0 == layout(
            instrs.subrange(0, j),
            ra,
        )->Ok_0 + encode(instrs[j], ra)->Ok_0,
{
    lemma_label_table_entry(instrs, ra, i);
    lemma_offsets_across_labels(instrs, ra, i, j);
    lemma_layout_prefix(instrs, ra, i);
    if j < instrs.len() {
        lemma_layout_prefix(instrs, ra, j + 1);
        assert(instrs.subrange(0, j + 1).drop_last() =~= instrs.subrange(0, j));
    }
}

/// Writes at `at` the displacement that reaches `target`.
fn write_displacement(code: &mut Vec<u8>, target: usize, at: usize) -> (r: Result<(), CodegenError>)
    requires
        at + 4 <= old(code)@.len(),
    ensures
        match displacement(target as int, at as int) {
            Ok(b) => r is Ok && final(code)@ == write_at(old(code)@, at as int, b),
            Err(m) => r is Err && r->Err_0.message@ == m,
        },
        final(code)@.len() == old(code)@.len(),
{
    proof {
        vstd::arithmetic::power2::lemma2_to64();
        reveal_with_fuel(le_bytes, 5);
    }
    let n = code.len();
    let end = at + 4;
    let u: u64 = if target >= end {
        let d = target - end;
        if d > 0x7fff_ffff {
            return Err(error_with("Relative address out of range"));
        }
        d as u64
    } else {
        let d = end - target;
        if d > 0x8000_0000 {
            return Err(error_with("Relative address out of range"));
        }
        0x1_0000_0000u64 - (d as u64)
    };
    assert(u as nat == twos(target - (at + 4), 32));
    let b0 = (u % 256) as u8;
    let u1 = u / 256;
    let b1 = (u1 % 256) as u8;
    let u2 = u1 / 256;
    let b2 = (u2 % 256) as u8;
    let u3 = u2 / 256;
    let b3 = (u3 % 256) as u8;
    assert(le32(target - (at + 4)) =~= seq![b0, b1, b2, b3]);
    code.set(at, b0);
    code.set(at + 1, b1);
    code.set(at + 2, b2);
    code.set(at + 3, b3);
    Ok(())
}

/// An error in a prefix of the layout is the error of the whole layout.
pub proof fn lemma_layout_error_extends(instrs: Seq<IrInstr>, ra: Map<u32, Register>, i: int)
    requires
        0 <= i <= instrs.len(),
        layout(instrs.subrange(0, i), ra) is Err,
    ensures
        layout(instrs, ra) == layout(instrs.subrange(0, i), ra),
    decreases instrs.len(),
{
    if i < instrs.len() {
        assert(instrs.drop_last().subrange(0, i) =~= instrs.subrange(0, i));
        lemma_layout_error_extends(instrs.drop_last(), ra, i);
    } else {
        assert(instrs.subrange(0, i) =~= instrs);
    }
}

pub proof fn lemma_patch_labels_error_extends(
    code: Seq<u8>,
    refs: Seq<(usize, LabelId)>,
    labels: Map<u32, usize>,
    i: int,
)
    requires
        0 <= i <= refs.len(),
        patch_labels(code, refs.subrange(0, i), labels) is Err,
    ensures
        patch_labels(code, refs, labels) == patch_labels(code, refs.subrange(0, i), labels),
    decreases refs.len(),
{
    if i < refs.len() {
        assert(refs.drop_last().subrange(0, i) =~= refs.subrange(0, i));
        lemma_patch_labels_error_extends(code, refs.drop_last(), labels, i);
    } else {
        assert(refs.subrange(0, i) =~= refs);
    }
}

pub proof fn lemma_patch_calls_error_extends(
    code: Seq<u8>,
    refs: Seq<(usize, Seq<char>)>,
    labels: Map<u32, usize>,
    functions: Seq<(Seq<char>, LabelId)>,
    i: int,
)
    requires
        0 <= i <= refs.len(),
        patch_calls(code, refs.subrange(0, i), labels, functions) is Err,
    ensures
        patch_calls(code, refs, labels, functions) == patch_calls(
            code,
            refs.subrange(0, i),
            labels,
            functions,
        ),
    decreases refs.len(),
{
    if i < refs.len() {
        assert(refs.drop_last().subrange(0, i) =~= refs.subrange(0, i));
        lemma_patch_calls_error_extends(code, refs.drop_last(), labels, functions, i);
    } else {
        assert(refs.subrange(0, i) =~= refs);
    }
}

/// Every displacement site of an instruction lies inside its own bytes.
pub proof fn lemma_fixups_within(instr: IrInstr, ra: Map<u32, Register>)
    requires
        encode(instr, ra) is Ok,
    ensures
        forall|k: int|
            0 <= k < label_fixups(instr).len() ==> 0 <= #[trigger] label_fixups(instr)[k].0 && label_fixups(
                instr,
            )[k].0 + 4 <= encode(instr, ra)->Ok_0.len(),
        instr is Call ==> call_fixup_offset(instr->Call_args, ra) + 4 <= encode(
            instr,
            ra,
        )->Ok_0.len(),
{
}

/// Lowered code being turned into bytes: the byte buffer, where each label
/// landed, the branch and call sites still to patch, and the function
/// entry labels that calls resolve against.
pub struct Assembler {
    code: Vec<u8>,
    label_positions: HashMap<u32, usize>,
    forward_refs: Vec<(usize, LabelId)>,
    relocations: Vec<Relocation>,
    function_labels: Vec<(String, LabelId)>,
}

pub open spec fn function_view(fs: Seq<(String, LabelId)>) -> Seq<(Seq<char>, LabelId)> {
    fs.map_values(|e: (String, LabelId)| (e.0@, e.1))
}

pub open spec fn reloc_view(rs: Seq<Relocation>) -> Seq<(usize, Seq<char>)> {
    rs.map_values(|r: Relocation| (r.offset, r.symbol@))
}

impl Assembler {
    /// Bytes emitted so far.
    pub closed spec fn code_view(&self) -> Seq<u8> {
        self.code@
    }

    /// Byte offset of each label met so far.
    pub closed spec fn labels(&self) -> Map<u32, usize> {
        self.label_positions@
    }

    /// Branch displacement sites awaiting their label.
    pub closed spec fn refs(&self) -> Seq<(usize, LabelId)> {
        self.forward_refs@
    }

    /// Call displacement sites awaiting their symbol.
    pub closed spec fn relocs(&self) -> Seq<(usize, Seq<char>)> {
        reloc_view(self.relocations@)
    }

    /// Function name to entry label, in the order recorded.
    pub closed spec fn functions(&self) -> Seq<(Seq<char>, LabelId)> {
        function_view(self.function_labels@)
    }

    pub fn new() -> (r: Self)
        ensures
            r.code_view() == Seq::<u8>::empty(),
            r.labels() == Map::<u32, usize>::empty(),
            r.refs() == Seq::<(usize, LabelId)>::empty(),
            r.relocs() == Seq::<(usize, Seq<char>)>::empty(),
            r.functions() == Seq::<(Seq<char>, LabelId)>::empty(),
    {
        let r = Assembler {
            code: Vec::new(),
            label_positions: HashMap::new(),
            forward_refs: Vec::new(),
            relocations: Vec::new(),
            function_labels: Vec::new(),
        };
        assert(r.relocs() =~= Seq::<(usize, Seq<char>)>::empty());
        assert(r.functions() =~= Seq::<(Seq<char>, LabelId)>::empty());
        r
    }

    /// Records that function `name` starts at label `label_id`.
    pub fn add_function_mapping(&mut self, name: String, label_id: LabelId)
        ensures
            final(self).functions() == old(self).functions().push((name@, label_id)),
            final(self).code_view() == old(self).code_view(),
    {
        let ghost n = name@;
        self.function_labels.push((name, label_id));
        assert(self.functions() =~= old(self).functions().push((n, label_id)));
    }

    /// Turns `instructions` into machine code: allocates registers, lays out
    /// the bytes in one pass, then patches branch and call displacements.
    pub fn assemble(&mut self, instructions: Vec<Instruction>) -> (r: Result<Vec<u8>, CodegenError>)
        ensures
            match assemble_spec(ir_view(instructions@), old(self).functions()) {
                Ok(b) => r is Ok && r->Ok_0@ == b,
                Err(m) => r is Err && r->Err_0.message@ == m,
            },
            final(self).functions() == old(self).functions(),
    {
        let regalloc = allocate_registers(&instructions);
        let ghost ra = regalloc.mapping();
        let ghost instrs = ir_view(instructions@);
        self.code = Vec::new();
        self.label_positions = HashMap::new();
        self.forward_refs = Vec::new();
        self.relocations = Vec::new();
        assert(self.relocs() =~= Seq::<(usize, Seq<char>)>::empty());
        assert(instrs.subrange(0, 0) =~= Seq::<IrInstr>::empty());
        let mut i: usize = 0;
        while i < instructions.len()
            invariant
                i <= instructions.len(),
                instrs == ir_view(instructions@),
                instrs.len() == instructions@.len(),
                ra == regalloc.mapping(),
                ra == allocation_of(instrs),
                layout(instrs.subrange(0, i as int), ra) == Ok::<Seq<u8>, Seq<char>>(self.code@),
                self.label_positions@ == label_table(instrs.subrange(0, i as int), ra),
                self.forward_refs@ == label_refs(instrs.subrange(0, i as int), ra),
                self.relocs() == call_refs(instrs.subrange(0, i as int), ra),
                self.functions() == old(self).functions(),
                forall|k: int|
                    0 <= k < self.forward_refs@.len() ==> #[trigger] self.forward_refs@[k].0 + 4
                        <= self.code@.len(),
                forall|k: int|
                    0 <= k < self.relocs().len() ==> #[trigger] self.relocs()[k].0 + 4
                        <= self.code@.len(),
            decreases instructions.len() - i,
        {
            let ghost before = *self;
            let ghost pre = instrs.subrange(0, i as int);
            let ghost post = instrs.subrange(0, i + 1);
            assert(post.drop_last() =~= pre);
            match self.emit_targetir_instruction(&instructions[i], &regalloc) {
                Err(e) => {
                    proof {
                        lemma_layout_error_extends(instrs, ra, i + 1);
                    }
                    return Err(e);
                },
                Ok(()) => {},
            }
            proof {
                let b = encode(instrs[i as int], ra)->Ok_0;
                lemma_fixups_within(instrs[i as int], ra);
                assert(self.forward_refs@ == before.forward_refs@ + shifted(
                    label_fixups(instrs[i as int]),
                    before.code@.len() as int,
                ));
                assert forall|k: int|
                    0 <= k < self.forward_refs@.len() implies #[trigger] self.forward_refs@[k].0
                    + 4 <= self.code@.len() by {
                    if k >= before.forward_refs@.len() {
                        let j = k - before.forward_refs@.len();
                        assert(self.forward_refs@[k] == shifted(
                            label_fixups(instrs[i as int]),
                            before.code@.len() as int,
                        )[j]);
                    } else {
                        assert(self.forward_refs@[k] == before.forward_refs@[k]);
                    }
                }
                assert forall|k: int|
                    0 <= k < self.relocs().len() implies #[trigger] self.relocs()[k].0 + 4
                    <= self.code@.len() by {
                    if k >= before.relocs().len() {
                        assert(self.relocs()[k] == call_site(
                            instrs[i as int],
                            ra,
                            before.code@.len() as int,
                        )[k - before.relocs().len()]);
                    } else {
                        assert(self.relocs()[k] == before.relocs()[k]);
                    }
                }
            }
            i = i + 1;
        }
        assert(instrs.subrange(0, instrs.len() as int) =~= instrs);
        let ghost laid = self.code@;
        match self.patch_forward_refs() {
            Err(e) => {
                return Err(e);
            },
            Ok(()) => {},
        }
        match self.resolve_relocations() {
            Err(e) => {
                return Err(e);
            },
            Ok(()) => {},
        }
        let mut out: Vec<u8> = Vec::new();
        let mut k: usize = 0;
        while k < self.code.len()
            invariant
                k <= self.code@.len(),
                out@ == self.code@.subrange(0, k as int),
            decreases self.code@.len() - k,
        {
            out.push(self.code[k]);
            k = k + 1;
            assert(out@ =~= self.code@.subrange(0, k as int));
        }
        assert(out@ =~= self.code@);
        Ok(out)
    }

    /// Writes each recorded branch displacement.
    fn patch_forward_refs(&mut self) -> (r: Result<(), CodegenError>)
        requires
            forall|k: int|
                0 <= k < old(self).forward_refs@.len() ==> #[trigger] old(self).forward_refs@[k].0
                    + 4 <= old(self).code@.len(),
        ensures
            match patch_labels(old(self).code@, old(self).forward_refs@, old(self).labels()) {
                Ok(c) => r is Ok && final(self).code@ == c,
                Err(m) => r is Err && r->Err_0.message@ == m,
            },
            final(self).labels() == old(self).labels(),
            final(self).relocs() == old(self).relocs(),
            final(self).functions() == old(self).functions(),
            final(self).code@.len() == old(self).code@.len(),
    {
        let ghost refs = self.forward_refs@;
        assert(refs.subrange(0, 0) =~= Seq::<(usize, LabelId)>::empty());
        let mut i: usize = 0;
        while i < self.forward_refs.len()
            invariant
                i <= refs.len(),
                refs == self.forward_refs@,
                refs == old(self).forward_refs@,
                self.label_positions == old(self).label_positions,
                self.relocations == old(self).relocations,
                self.function_labels == old(self).function_labels,
                self.code@.len() == old(self).code@.len(),
                forall|k: int| 0 <= k < refs.len() ==> #[trigger] refs[k].0 + 4 <= self.code@.len(),
                patch_labels(old(self).code@, refs.subrange(0, i as int), self.labels()) == Ok::<
                    Seq<u8>,
                    Seq<char>,
                >(self.code@),
            decreases refs.len() - i,
        {
            let (at, l) = self.forward_refs[i];
            let ghost pre = refs.subrange(0, i as int);
            assert(refs.subrange(0, i + 1).drop_last() =~= pre);
            assert(refs.subrange(0, i + 1).last() == (at, l));
            match self.label_positions.get(&l.0) {
                None => {
                    proof {
                        lemma_patch_labels_error_extends(old(self).code@, refs, self.labels(), i + 1);
                    }
                    let n = decimal_string(l.0 as u64);
                    let m = join("Undefined label: LabelId(", n.as_str()).concat(")");
                    return Err(CodegenError { message: m });
                },
                Some(target) => {
                    let t = *target;
                    match write_displacement(&mut self.code, t, at) {
                        Err(e) => {
                            proof {
                                lemma_patch_labels_error_extends(
                                    old(self).code@,
                                    refs,
                                    self.labels(),
                                    i + 1,
                                );
                            }
                            return Err(e);
                        },
                        Ok(()) => {},
                    }
                },
            }
            i = i + 1;
        }
        assert(refs.subrange(0, refs.len() as int) =~= refs);
        Ok(())
    }

    /// The label that `name` resolves to.
    fn lookup_symbol(&self, name: &String) -> (r: Option<LabelId>)
        ensures
            r == symbol_label(self.functions(), name@),
    {
        let ghost fs = self.functions();
        let mut i: usize = self.function_labels.len();
        assert(fs.subrange(0, i as int) =~= fs);
        while i > 0
            invariant
                i <= fs.len(),
                fs == self.functions(),
                lookup_function(fs, name@) == lookup_function(fs.subrange(0, i as int), name@),
            decreases i,
        {
            let ghost pre = fs.subrange(0, i as int);
            assert(pre.drop_last() =~= fs.subrange(0, i - 1));
            assert(pre.last() == fs[i - 1]);
            if self.function_labels[i - 1].0 == *name {
                return Some(self.function_labels[i - 1].1);
            }
            i = i - 1;
        }
        proof {
            reveal_strlit("_start");
        }
        let start = String::from_str("_start");
        if *name == start {
            Some(LabelId(START_LABEL))
        } else {
            None
        }
    }

    /// Writes each call displacement, resolving the called name to its label.
    fn resolve_relocations(&mut self) -> (r: Result<(), CodegenError>)
        requires
            forall|k: int|
                0 <= k < old(self).relocs().len() ==> #[trigger] old(self).relocs()[k].0 + 4
                    <= old(self).code@.len(),
        ensures
            match patch_calls(
                old(self).code@,
                old(self).relocs(),
                old(self).labels(),
                old(self).functions(),
            ) {
                Ok(c) => r is Ok && final(self).code@ == c,
                Err(m) => r is Err && r->Err_0.message@ == m,
            },
            final(self).functions() == old(self).functions(),
    {
        let ghost refs = self.relocs();
        assert(refs.subrange(0, 0) =~= Seq::<(usize, Seq<char>)>::empty());
        let mut i: usize = 0;
        while i < self.relocations.len()
            invariant
                i <= refs.len(),
                refs == self.relocs(),
                refs == old(self).relocs(),
                refs.len() == self.relocations@.len(),
                self.label_positions == old(self).label_positions,
                self.function_labels == old(self).function_labels,
                self.code@.len() == old(self).code@.len(),
                forall|k: int| 0 <= k < refs.len() ==> #[trigger] refs[k].0 + 4 <= self.code@.len(),
                patch_calls(
                    old(self).code@,
                    refs.subrange(0, i as int),
                    self.labels(),
                    self.functions(),
                ) == Ok::<Seq<u8>, Seq<char>>(self.code@),
            decreases refs.len() - i,
        {
            let at = self.relocations[i].offset;
            let ghost pre = refs.subrange(0, i as int);
            assert(refs.subrange(0, i + 1).drop_last() =~= pre);
            assert(refs[i as int] == (at, self.relocations@[i as int].symbol@));
            assert(refs.subrange(0, i + 1).last() == refs[i as int]);
            let label = self.lookup_symbol(&self.relocations[i].symbol);
            let target = match label {
                Some(l) => match self.label_positions.get(&l.0) {
                    Some(t) => Some(*t),
                    None => None,
                },
                None => None,
            };
            match target {
                None => {
                    proof {
                        lemma_patch_calls_error_extends(
                            old(self).code@,
                            refs,
                            self.labels(),
                            self.functions(),
                            i + 1,
                        );
                    }
                    let m = join("Undefined symbol: ", self.relocations[i].symbol.as_str());
                    return Err(CodegenError { message: m });
                },
                Some(t) => {
                    match write_displacement(&mut self.code, t, at) {
                        Err(e) => {
                            proof {
                                lemma_patch_calls_error_extends(
                                    old(self).code@,
                                    refs,
                                    self.labels(),
                                    self.functions(),
                                    i + 1,
                                );
                            }
                            return Err(e);
                        },
                        Ok(()) => {},
                    }
                },
            }
            i = i + 1;
        }
        assert(refs.subrange(0, refs.len() as int) =~= refs);
        Ok(())
    }

    /// Wraps `machine_code` in a minimal ELF64 executable.
    pub fn generate_elf(&self, machine_code: &[u8]) -> (r: Vec<u8>)
        requires
            machine_code@.len() + 120 <= u64::MAX,
        ensures
            r@ == elf_image(machine_code@),
    {
        wrap_elf(machine_code)
    }

    /// `next` is `self` after emitting `instr` as bytes `b`.
    pub open spec fn appended(
        &self,
        next: &Self,
        instr: IrInstr,
        ra: Map<u32, Register>,
        b: Seq<u8>,
    ) -> bool {
        &&& next.code_view() == self.code_view() + b
        &&& next.labels() == match instr {
            IrInstr::Label(l) => self.labels().insert(l.0, self.code_view().len() as usize),
            _ => self.labels(),
        }
        &&& next.refs() == self.refs() + shifted(label_fixups(instr), self.code_view().len() as int)
        &&& next.relocs() == self.relocs() + call_site(instr, ra, self.code_view().len() as int)
        &&& next.functions() == self.functions()
    }

    /// Appends the bytes of one instruction, recording its label, branch
    /// sites and call site.
    pub fn emit_targetir_instruction(
        &mut self,
        instr: &Instruction,
        regalloc: &RegisterAllocator,
    ) -> (r: Result<(), CodegenError>)
        ensures
            match encode(instr@, regalloc.mapping()) {
                Ok(b) => {
                    &&& r is Ok
                    &&& old(self).appended(final(self), instr@, regalloc.mapping(), b)
                },
                Err(m) => r is Err && r->Err_0.message@ == m,
            },
            final(self).functions() == old(self).functions(),
    {
        if let Instruction::BinaryOp { .. } = instr {
            return self.emit_binary(instr, regalloc);
        }
        let vs = instruction_vregs(instr);
        if let Some(v) = find_unallocated(&vs, regalloc) {
            return Err(unallocated_error(v));
        }
        proof {
            lemma_first_unallocated_none(vs@, regalloc.mapping());
        }
        match instr {
            Instruction::Call { .. } => self.emit_call(instr, regalloc),
            Instruction::Load { .. } | Instruction::Store { .. } => self.emit_stack_access(
                instr,
                regalloc,
            ),
            Instruction::SaveRegisters { .. } | Instruction::RestoreRegisters { .. } => {
                self.emit_register_saves(instr);
                Ok(())
            },
            Instruction::Label(_) | Instruction::Jump(_) | Instruction::Branch { .. } => {
                self.emit_control(instr, regalloc);
                Ok(())
            },
            _ => {
                self.emit_move(instr, regalloc);
                Ok(())
            },
        }
    }

    fn emit_move(&mut self, instr: &Instruction, regalloc: &RegisterAllocator)
        requires
            forall|k: int|
                0 <= k < vregs_of(instr@).len() ==> regalloc.mapping().contains_key(
                    #[trigger] vregs_of(instr@)[k].0,
                ),
            match instr@ {
                IrInstr::Copy { .. } | IrInstr::Push { .. } | IrInstr::Pop { .. }
                | IrInstr::Return { .. } | IrInstr::Syscall { .. } => true,
                _ => false,
            },
        ensures
            old(self).appended(
                final(self),
                instr@,
                regalloc.mapping(),
                encode_allocated(instr@, regalloc.mapping())->Ok_0,
            ),
            encode_allocated(instr@, regalloc.mapping()) is Ok,
    {
        let ghost ra = regalloc.mapping();
        let ghost vs = vregs_of(instr@);
        let base = self.code.len();
        match instr {
            Instruction::Copy { dest, src } => {
                assert(vs[0] == *dest);
                let d = reg(regalloc, *dest);
                match src {
                    Value::Immediate(imm) => push_mov_imm(&mut self.code, d, *imm),
                    Value::VReg(s) => {
                        assert(vs[1] == *s);
                        let sr = reg(regalloc, *s);
                        push_mov_rr(&mut self.code, sr, d);
                    },
                    Value::PhysicalReg(p) => push_mov_rr(&mut self.code, *p, d),
                }
            },
            Instruction::Push { src } => {
                assert(vs[0] == *src);
                let d = register_code(&reg(regalloc, *src));
                self.code.push(0x50 + d);
            },
            Instruction::Pop { dest } => {
                assert(vs[0] == *dest);
                let d = register_code(&reg(regalloc, *dest));
                self.code.push(0x58 + d);
            },
            Instruction::Return { value } => {
                if let Some(v) = value {
                    assert(vs[0] == *v);
                    let r = reg(regalloc, *v);
                    push_move_if(&mut self.code, r, Register::Rax);
                }
                self.code.push(0xc3);
            },
            Instruction::Syscall { result, syscall_num, args } => {
                assert(vs[0] == *result);
                assert(vs[1] == *syscall_num);
                let n = reg(regalloc, *syscall_num);
                push_move_if(&mut self.code, n, Register::Rax);
                if args.len() > 0 {
                    assert(vs[2] == args@[0]);
                    let a = reg(regalloc, args[0]);
                    push_move_if(&mut self.code, a, Register::Rdi);
                }
                self.code.push(0x0f);
                self.code.push(0x05);
                let res = reg(regalloc, *result);
                push_move_if(&mut self.code, Register::Rax, res);
            },
            _ => {},
        }
        assert(self.code@ =~= old(self).code@ + encode_allocated(instr@, ra)->Ok_0);
        assert(self.forward_refs@ =~= old(self).forward_refs@ + shifted(
            label_fixups(instr@),
            base as int,
        ));
        assert(self.relocs() =~= old(self).relocs() + call_site(instr@, ra, base as int));
    }

    fn emit_control(&mut self, instr: &Instruction, regalloc: &RegisterAllocator)
        requires
            forall|k: int|
                0 <= k < vregs_of(instr@).len() ==> regalloc.mapping().contains_key(
                    #[trigger] vregs_of(instr@)[k].0,
                ),
            match instr@ {
                IrInstr::Label(_) | IrInstr::Jump(_) | IrInstr::Branch { .. } => true,
                _ => false,
            },
        ensures
            old(self).appended(
                final(self),
                instr@,
                regalloc.mapping(),
                encode_allocated(instr@, regalloc.mapping())->Ok_0,
            ),
            encode_allocated(instr@, regalloc.mapping()) is Ok,
    {
        let ghost ra = regalloc.mapping();
        let ghost vs = vregs_of(instr@);
        let base = self.code.len();
        match instr {
            Instruction::Label(l) => {
                self.label_positions.insert(l.0, base);
            },
            Instruction::Jump(l) => {
                self.code.push(0xe9);
                let at = self.code.len();
                self.forward_refs.push((at, *l));
                push_placeholder(&mut self.code);
            },
            Instruction::Branch { condition, true_label, false_label } => {
                assert(vs[0] == *condition);
                let c = register_code(&reg(regalloc, *condition));
                self.code.push(0x48);
                self.code.push(0x83);
                self.code.push(0xf8 + c);
                self.code.push(0x00);
                self.code.push(0x0f);
                self.code.push(0x85);
                let at = self.code.len();
                self.forward_refs.push((at, *true_label));
                push_placeholder(&mut self.code);
                self.code.push(0xe9);
                let at2 = self.code.len();
                self.forward_refs.push((at2, *false_label));
                push_placeholder(&mut self.code);
            },
            _ => {},
        }
        assert(self.code@ =~= old(self).code@ + encode_allocated(instr@, ra)->Ok_0);
        assert(self.forward_refs@ =~= old(self).forward_refs@ + shifted(
            label_fixups(instr@),
            base as int,
        ));
        assert(self.relocs() =~= old(self).relocs() + call_site(instr@, ra, base as int));
    }

    fn emit_stack_access(&mut self, instr: &Instruction, regalloc: &RegisterAllocator) -> (r: Result<
        (),
        CodegenError,
    >)
        requires
            forall|k: int|
                0 <= k < vregs_of(instr@).len() ==> regalloc.mapping().contains_key(
                    #[trigger] vregs_of(instr@)[k].0,
                ),
            match instr@ {
                IrInstr::Load { .. } | IrInstr::Store { .. } => true,
                _ => false,
            },
        ensures
            match encode_allocated(instr@, regalloc.mapping()) {
                Ok(b) => r is Ok && old(self).appended(final(self), instr@, regalloc.mapping(), b),
                Err(m) => r is Err && r->Err_0.message@ == m,
            },
            final(self).functions() == old(self).functions(),
    {
        let ghost ra = regalloc.mapping();
        let ghost vs = vregs_of(instr@);
        let base = self.code.len();
        let (v, offset, opcode) = match instr {
            Instruction::Load { dest, offset } => (*dest, *offset, 0x8bu8),
            Instruction::Store { src, offset } => (*src, *offset, 0x89u8),
            _ => (VReg(0), 0, 0),
        };
        if offset < -0x8000_0000 || offset > 0x7fff_ffff {
            return Err(error_with("Stack offset out of range"));
        }
        assert(vs[0] == v);
        let d = register_code(&reg(regalloc, v));
        self.code.push(0x48);
        self.code.push(opcode);
        self.code.push(0x80 + d * 8 + 4);
        self.code.push(0x24);
        push_le32(&mut self.code, offset);
        assert(self.code@ =~= old(self).code@ + encode_allocated(instr@, ra)->Ok_0);
        assert(self.forward_refs@ =~= old(self).forward_refs@ + shifted(
            label_fixups(instr@),
            base as int,
        ));
        assert(self.relocs() =~= old(self).relocs() + call_site(instr@, ra, base as int));
        Ok(())
    }

    fn emit_binary(&mut self, instr: &Instruction, regalloc: &RegisterAllocator) -> (r: Result<
        (),
        CodegenError,
    >)
        requires
            instr@ is BinaryOp,
        ensures
            match encode(instr@, regalloc.mapping()) {
                Ok(b) => r is Ok && old(self).appended(final(self), instr@, regalloc.mapping(), b),
                Err(m) => r is Err && r->Err_0.message@ == m,
            },
            final(self).functions() == old(self).functions(),
    {
        let ghost ra = regalloc.mapping();
        let base = self.code.len();
        let (dest, lhs, rhs, op) = match instr {
            Instruction::BinaryOp { dest, lhs, rhs, op } => (*dest, *lhs, *rhs, *op),
            _ => (VReg(0), Value::Immediate(0), Value::Immediate(0), crate::ir::BinOp::Add),
        };
        let d = match regalloc.get_register(dest) {
            Some(d) => d,
            None => {
                return Err(unallocated_error(dest));
            },
        };
        let lhs_reg = match lhs {
            Value::PhysicalReg(_) => {
                return Err(error_with("PhysicalReg not supported in binary operations"));
            },
            Value::VReg(l) => match regalloc.get_register(l) {
                Some(lr) => Some(lr),
                None => {
                    return Err(unallocated_error(l));
                },
            },
            Value::Immediate(_) => None,
        };
        match op {
            crate::ir::BinOp::Div => {
                return Err(error_with("Division not yet implemented in TargetIR backend"));
            },
            crate::ir::BinOp::Add | crate::ir::BinOp::Sub | crate::ir::BinOp::Mul
            | crate::ir::BinOp::Le | crate::ir::BinOp::Gt => {},
            _ => {
                let name = op.name();
                let m = join("Binary operation ", name.as_str()).concat(" not yet implemented");
                return Err(CodegenError { message: m });
            },
        }
        let x = match rhs {
            Value::Immediate(_) => {
                return Err(
                    match op {
                        crate::ir::BinOp::Le | crate::ir::BinOp::Gt => error_with(
                            "Immediate operands not yet supported for comparisons",
                        ),
                        _ => error_with("Immediate operands not yet supported for binary ops"),
                    },
                );
            },
            Value::PhysicalReg(_) => {
                return Err(error_with("PhysicalReg not supported in binary operations"));
            },
            Value::VReg(xv) => match regalloc.get_register(xv) {
                Some(xr) => xr,
                None => {
                    return Err(unallocated_error(xv));
                },
            },
        };
        match lhs {
            Value::Immediate(imm) => push_mov_imm(&mut self.code, d, imm),
            _ => push_mov_rr(&mut self.code, lhs_reg.unwrap(), d),
        }
        let xc = register_code(&x);
        let dc = register_code(&d);
        match op {
            crate::ir::BinOp::Add => {
                self.code.push(0x48);
                self.code.push(0x01);
                self.code.push(0xc0 + xc * 8 + dc);
            },
            crate::ir::BinOp::Sub => {
                self.code.push(0x48);
                self.code.push(0x29);
                self.code.push(0xc0 + xc * 8 + dc);
            },
            crate::ir::BinOp::Mul => {
                self.code.push(0x48);
                self.code.push(0x0f);
                self.code.push(0xaf);
                self.code.push(0xc0 + dc * 8 + xc);
            },
            crate::ir::BinOp::Le => push_compare(&mut self.code, x, d, 0x9e),
            _ => push_compare(&mut self.code, x, d, 0x9f),
        }
        assert(self.code@ =~= old(self).code@ + encode(instr@, ra)->Ok_0);
        assert(self.forward_refs@ =~= old(self).forward_refs@ + shifted(
            label_fixups(instr@),
            base as int,
        ));
        assert(self.relocs() =~= old(self).relocs() + call_site(instr@, ra, base as int));
        Ok(())
    }

    fn emit_call(&mut self, instr: &Instruction, regalloc: &RegisterAllocator) -> (r: Result<
        (),
        CodegenError,
    >)
        requires
            forall|k: int|
                0 <= k < vregs_of(instr@).len() ==> regalloc.mapping().contains_key(
                    #[trigger] vregs_of(instr@)[k].0,
                ),
            instr@ is Call,
        ensures
            match encode_allocated(instr@, regalloc.mapping()) {
                Ok(b) => r is Ok && old(self).appended(final(self), instr@, regalloc.mapping(), b),
                Err(m) => r is Err && r->Err_0.message@ == m,
            },
            final(self).functions() == old(self).functions(),
    {
        let ghost ra = regalloc.mapping();
        let ghost vs = vregs_of(instr@);
        let base = self.code.len();
        match instr {
            Instruction::Call { dest, function, args } => {
                if args.len() > 4 {
                    return Err(
                        error_with("Too many arguments for function call (max 4 supported)"),
                    );
                }
                let mut i: usize = 0;
                while i < args.len()
                    invariant
                        i <= args.len() <= 4,
                        vs == crate::ir::opt_vregs(*dest) + args@,
                        forall|k: int| 0 <= k < vs.len() ==> ra.contains_key(#[trigger] vs[k].0),
                        ra == regalloc.mapping(),
                        self.code@ == old(self).code@ + arg_moves(args@.subrange(0, i as int), ra),
                        self.label_positions == old(self).label_positions,
                        self.forward_refs == old(self).forward_refs,
                        self.relocations == old(self).relocations,
                        self.function_labels == old(self).function_labels,
                    decreases args.len() - i,
                {
                    assert(vs[vs.len() - args@.len() + i] == args@[i as int]);
                    let a = reg(regalloc, args[i]);
                    let target = if i == 0 {
                        Register::Rdi
                    } else if i == 1 {
                        Register::Rsi
                    } else if i == 2 {
                        Register::Rdx
                    } else {
                        Register::Rcx
                    };
                    push_move_if(&mut self.code, a, target);
                    i = i + 1;
                    assert(args@.subrange(0, i as int).drop_last() =~= args@.subrange(0, i - 1));
                }
                assert(args@.subrange(0, args@.len() as int) =~= args@);
                self.code.push(0xe8);
                let at = self.code.len();
                self.relocations.push(Relocation { offset: at, symbol: function.clone() });
                push_placeholder(&mut self.code);
                if let Some(dv) = dest {
                    assert(vs[0] == *dv);
                    let d = reg(regalloc, *dv);
                    push_move_if(&mut self.code, Register::Rax, d);
                }
            },
            _ => {},
        }
        assert(self.code@ =~= old(self).code@ + encode_allocated(instr@, ra)->Ok_0);
        assert(self.forward_refs@ =~= old(self).forward_refs@ + shifted(
            label_fixups(instr@),
            base as int,
        ));
        assert(self.relocs() =~= old(self).relocs() + call_site(instr@, ra, base as int));
        Ok(())
    }

    fn emit_register_saves(&mut self, instr: &Instruction)
        requires
            match instr@ {
                IrInstr::SaveRegisters { .. } | IrInstr::RestoreRegisters { .. } => true,
                _ => false,
            },
        ensures
            forall|ra: Map<u32, Register>|
                old(self).appended(
                    final(self),
                    instr@,
                    ra,
                    #[trigger] encode_allocated(instr@, ra)->Ok_0,
                ),
            forall|ra: Map<u32, Register>| #[trigger] encode_allocated(instr@, ra) is Ok,
    {
        let base = self.code.len();
        match instr {
            Instruction::SaveRegisters { registers } => {
                let mut i: usize = 0;
                while i < registers.len()
                    invariant
                        i <= registers.len(),
                        self.code@ == old(self).code@ + push_all(registers@.subrange(0, i as int)),
                        self.label_positions == old(self).label_positions,
                        self.forward_refs == old(self).forward_refs,
                        self.relocations == old(self).relocations,
                        self.function_labels == old(self).function_labels,
                    decreases registers.len() - i,
                {
                    let c = register_code(&registers[i]);
                    self.code.push(0x50 + c);
                    i = i + 1;
                    assert(registers@.subrange(0, i as int).drop_last() =~= registers@.subrange(
                        0,
                        i - 1,
                    ));
                    assert(self.code@ =~= old(self).code@ + push_all(
                        registers@.subrange(0, i as int),
                    ));
                }
                assert(registers@.subrange(0, registers@.len() as int) =~= registers@);
            },
            Instruction::RestoreRegisters { registers } => {
                let mut i: usize = registers.len();
                assert(registers@.subrange(0, i as int) =~= registers@);
                assert(old(self).code@ + pop_all_reversed(registers@) =~= self.code@
                    + pop_all_reversed(registers@.subrange(0, i as int)));
                while i > 0
                    invariant
                        i <= registers.len(),
                        old(self).code@ + pop_all_reversed(registers@) == self.code@
                            + pop_all_reversed(registers@.subrange(0, i as int)),
                        self.label_positions == old(self).label_positions,
                        self.forward_refs == old(self).forward_refs,
                        self.relocations == old(self).relocations,
                        self.function_labels == old(self).function_labels,
                    decreases i,
                {
                    let c = register_code(&registers[i - 1]);
                    let ghost before = self.code@;
                    self.code.push(0x58 + c);
                    let ghost pre = registers@.subrange(0, i as int);
                    assert(pre.drop_last() =~= registers@.subrange(0, i - 1));
                    assert(before + pop_all_reversed(pre) =~= self.code@ + pop_all_reversed(
                        registers@.subrange(0, i - 1),
                    ));
                    i = i - 1;
                }
                assert(registers@.subrange(0, 0) =~= Seq::<Register>::empty());
                assert(self.code@ =~= old(self).code@ + pop_all_reversed(registers@));
            },
            _ => {},
        }
        assert forall|ra: Map<u32, Register>|
            old(self).appended(
                final(self),
                instr@,
                ra,
                #[trigger] encode_allocated(instr@, ra)->Ok_0,
            ) by {
            assert(self.forward_refs@ =~= old(self).forward_refs@ + shifted(
                label_fixups(instr@),
                base as int,
            ));
            assert(self.relocs() =~= old(self).relocs() + call_site(instr@, ra, base as int));
        }
    }
}

impl Default for Assembler {
    fn default() -> (r: Self)
        ensures
            r.code_view() == Seq::<u8>::empty(),
            r.functions() == Seq::<(Seq<char>, LabelId)>::empty(),
    {
        Self::new()
    }
}

} // verus!
