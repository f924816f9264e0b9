//! The two-pass RISC-V emulator. A Harvard-style first pass runs with
//! separate instruction, input, output and data memories, gathering the
//! statistics that shape the second pass's layout; a Linear second pass runs
//! against one unified address space and emits the full memory transcript
//! with access timestamps. Both passes share one instruction semantics and a
//! basic-block cache keyed by starting program counter.

use vstd::prelude::*;

use crate::cpu::{
    add32, slt32, sll32, sra32, srl32, spec_add32, spec_signed, spec_sll32, spec_sra32,
    spec_srl32, spec_sub32, sub32, Cpu,
};
use crate::decoder::{decode_instruction, decode_until_end_of_a_block, spec_block_decode};
use crate::memory::{
    LoadOp, MemAccessSize, MemoryError, MemoryRecord, MemoryRecords, Mode, StoreOp, UnifiedMemory,
    VariableMemory, FixedMemory,
};
use crate::rv32::{builtin_type, BasicBlock, BuiltinOpcode, Instruction, Opcode, RIN_FN3, WOU_FN3,
    DYNAMIC_RTYPE_OPCODE};

verus! {

/// Failure of emulation. Execution errors abort the run; `VMExited` is the
/// clean termination carrying the program's exit code.
#[derive(Debug, PartialEq, Eq)]
pub enum VMError {
    /// The instruction has no executor: an unrecognized encoding, or a
    /// custom opcode with no registered executor.
    UndefinedInstruction(Opcode),
    /// The program counter left the code segment.
    VMOutOfInstructions,
    /// The program performed the exit system call with this code.
    VMExited(u32),
    /// A system call number the machine does not provide.
    UnsupportedSyscall(u32),
    /// A memory access failed.
    MemoryFault(MemoryError),
    /// An opcode was registered twice.
    DuplicateOpcode(Opcode),
    /// The global clock would leave the machine's integer range; no real
    /// program reaches this.
    CycleLimitExceeded,
    /// A registered host-defined instruction awaits its host executor: the
    /// host computes the result and applies it with `apply_custom_result`.
    HostInstruction(Opcode),
}

/// The result an instruction leaves in its destination register, where it
/// has one.
pub type InstructionResult = Option<u32>;

/// The per-instruction memory transcript of a run.
pub type MemoryTranscript = Vec<MemoryRecords>;

/// A decoded program image: instruction words, read-only and read-write
/// data (byte address of each word, word aligned and strictly increasing),
/// the entry point and the load base. The ELF parser producing it is
/// external.
#[derive(Debug, PartialEq, Eq)]
pub struct ElfFile {
    pub instructions: Vec<u32>,
    pub rom_image: Vec<(u32, u32)>,
    pub ram_image: Vec<(u32, u32)>,
    pub base: u32,
    pub entry: u32,
}

impl ElfFile {
    /// Addresses aligned, strictly increasing, and the image within the
    /// address space.
    pub open spec fn wf(self) -> bool {
        &&& self.base % 4 == 0
        &&& self.entry % 4 == 0
        &&& self.base + 4 * self.instructions@.len() <= 0x1_0000_0000
        &&& forall|i: int, j: int|
            0 <= i < j < self.rom_image@.len() ==> self.rom_image@[i].0 < self.rom_image@[j].0
        &&& forall|i: int|
            0 <= i < self.rom_image@.len() ==> (#[trigger] self.rom_image@[i].0) % 4 == 0
                && self.rom_image@[i].0 + 4 <= 0x1_0000_0000
        &&& forall|i: int, j: int|
            0 <= i < j < self.ram_image@.len() ==> self.ram_image@[i].0 < self.ram_image@[j].0
        &&& forall|i: int|
            0 <= i < self.ram_image@.len() ==> (#[trigger] self.ram_image@[i].0) % 4 == 0
                && self.ram_image@[i].0 + 4 <= 0x1_0000_0000
    }
}

/// The late-bound instruction executor registry: which custom opcodes have
/// been claimed, and which custom instructions read the public input or
/// write the public output. Registering the same opcode twice is refused.
#[derive(Debug, PartialEq, Eq)]
pub struct InstructionExecutorRegistry {
    pub custom: Vec<(u8, u8, u8)>,
}

/// Whether an opcode is a registered host-defined custom instruction
/// other than the built-in input and output forms.
pub open spec fn spec_is_host_custom(reg: InstructionExecutorRegistry, op: Opcode) -> bool {
    op.raw == DYNAMIC_RTYPE_OPCODE && !spec_is_rin(op) && !spec_is_wou(op) && reg.spec_registered(
        spec_opcode_key(op),
    )
}

/// Whether an opcode is the custom read-input instruction.
pub open spec fn spec_is_rin(op: Opcode) -> bool {
    op.raw == DYNAMIC_RTYPE_OPCODE && op.fn3 == Some(RIN_FN3)
}

/// Whether an opcode is the custom write-output instruction.
pub open spec fn spec_is_wou(op: Opcode) -> bool {
    op.raw == DYNAMIC_RTYPE_OPCODE && op.fn3 == Some(WOU_FN3)
}

/// The (raw, fn3, fn7) key of an opcode, absent fields as zero.
pub open spec fn spec_opcode_key(op: Opcode) -> (u8, u8, u8) {
    (
        op.raw,
        match op.fn3 {
            Some(v) => v,
            None => 0,
        },
        match op.fn7 {
            Some(v) => v,
            None => 0,
        },
    )
}

impl InstructionExecutorRegistry {
    /// An empty registry.
    pub fn new() -> (r: InstructionExecutorRegistry)
        ensures
            r.custom@.len() == 0,
    {
        InstructionExecutorRegistry { custom: Vec::new() }
    }

    /// Whether a custom opcode key is registered.
    pub open spec fn spec_registered(self, key: (u8, u8, u8)) -> bool {
        exists|i: int| 0 <= i < self.custom@.len() && self.custom@[i] == key
    }

    /// Whether an opcode reads the public input segment.
    pub fn is_read_input(&self, op: &Opcode) -> (r: bool)
        ensures
            r == spec_is_rin(*op),
    {
        op.raw == DYNAMIC_RTYPE_OPCODE && match op.fn3 {
            Some(v) => v == RIN_FN3,
            None => false,
        }
    }

    /// Whether an opcode writes the public output segment.
    pub fn is_write_output(&self, op: &Opcode) -> (r: bool)
        ensures
            r == spec_is_wou(*op),
    {
        op.raw == DYNAMIC_RTYPE_OPCODE && match op.fn3 {
            Some(v) => v == WOU_FN3,
            None => false,
        }
    }

    /// Whether an opcode is registered.
    pub fn contains(&self, op: &Opcode) -> (r: bool)
        ensures
            r == self.spec_registered(spec_opcode_key(*op)),
    {
        let key = (
            op.raw,
            match op.fn3 {
                Some(v) => v,
                None => 0,
            },
            match op.fn7 {
                Some(v) => v,
                None => 0,
            },
        );
        let mut i: usize = 0;
        while i < self.custom.len()
            invariant
                i <= self.custom@.len(),
                key == spec_opcode_key(*op),
                forall|j: int| 0 <= j < i ==> self.custom@[j] != key,
            decreases self.custom@.len() - i,
        {
            if self.custom[i].0 == key.0 && self.custom[i].1 == key.1 && self.custom[i].2 == key.2 {
                return true;
            }
            i = i + 1;
        }
        false
    }

    /// Claims a custom opcode; claiming one twice is a configuration error
    /// and is refused.
    pub fn add_opcode(&mut self, op: &Opcode) -> (r: Result<(), VMError>)
        ensures
            match r {
                Ok(()) => !old(self).spec_registered(spec_opcode_key(*op))
                    && final(self).custom@ == old(self).custom@.push(spec_opcode_key(*op)),
                Err(e) => e == VMError::DuplicateOpcode(*op) && old(self).spec_registered(
                    spec_opcode_key(*op),
                ) && *final(self) == *old(self),
            },
    {
        let key = (
            op.raw,
            match op.fn3 {
                Some(v) => v,
                None => 0,
            },
            match op.fn7 {
                Some(v) => v,
                None => 0,
            },
        );
        let mut i: usize = 0;
        while i < self.custom.len()
            invariant
                i <= self.custom@.len(),
                key == spec_opcode_key(*op),
                forall|j: int| 0 <= j < i ==> self.custom@[j] != key,
            decreases self.custom@.len() - i,
        {
            if self.custom[i].0 == key.0 && self.custom[i].1 == key.1 && self.custom[i].2 == key.2 {
                return Err(VMError::DuplicateOpcode(*op));
            }
            i = i + 1;
        }
        self.custom.push(key);
        Ok(())
    }
}

/// First cached block at or after position `k` for the given address.
pub open spec fn find_block_from(entries: Seq<(u32, Seq<Instruction>)>, pc: u32, k: int) -> Option<
    int,
>
    decreases entries.len() - k,
{
    if k < 0 || k >= entries.len() {
        None
    } else if entries[k].0 == pc {
        Some(k)
    } else {
        find_block_from(entries, pc, k + 1)
    }
}

/// The basic-block cache, keyed by starting program counter.
#[derive(Debug, PartialEq, Eq)]
pub struct BlockCache {
    pub entries: Vec<(u32, BasicBlock)>,
}

impl BlockCache {
    /// The cache's view: each entry as its key and instruction sequence.
    pub open spec fn view_entries(self) -> Seq<(u32, Seq<Instruction>)> {
        self.entries@.map_values(|e: (u32, BasicBlock)| (e.0, e.1@))
    }

    /// Keys occur at most once.
    pub open spec fn wf(self) -> bool {
        forall|i: int, j: int|
            0 <= i < j < self.entries@.len() ==> self.entries@[i].0 != self.entries@[j].0
    }

    /// The cached block for a program counter, if any.
    pub open spec fn spec_get(self, pc: u32) -> Option<Seq<Instruction>> {
        match find_block_from(self.view_entries(), pc, 0) {
            Some(i) => Some(self.view_entries()[i].1),
            None => None,
        }
    }

    /// An empty cache.
    pub fn new() -> (r: BlockCache)
        ensures
            r.wf(),
            r.entries@.len() == 0,
            forall|pc: u32| r.spec_get(pc) is None,
    {
        BlockCache { entries: Vec::new() }
    }

    /// The position of the cached block for a program counter, if any.
    pub fn find(&self, pc: u32) -> (r: Option<usize>)
        ensures
            match r {
                Some(i) => 0 <= i < self.entries@.len() && self.entries@[i as int].0 == pc
                    && self.spec_get(pc) == Some(self.entries@[i as int].1@),
                None => self.spec_get(pc) is None,
            },
    {
        let mut i: usize = 0;
        while i < self.entries.len()
            invariant
                i <= self.entries@.len(),
                find_block_from(self.view_entries(), pc, 0) == find_block_from(
                    self.view_entries(),
                    pc,
                    i as int,
                ),
            decreases self.entries@.len() - i,
        {
            if self.entries[i].0 == pc {
                proof {
                    assert(self.view_entries()[i as int].0 == pc);
                }
                return Some(i);
            }
            i = i + 1;
            proof {
                assert(self.view_entries()[i - 1].0 != pc);
            }
        }
        None
    }

    /// Caches a block under a program counter not yet present; every other
    /// entry is kept.
    pub fn insert(&mut self, pc: u32, block: BasicBlock)
        requires
            old(self).wf(),
            old(self).spec_get(pc) is None,
        ensures
            final(self).wf(),
            final(self).entries@ == old(self).entries@.push((pc, block)),
            final(self).spec_get(pc) == Some(block@),
            forall|q: u32| q != pc ==> final(self).spec_get(q) == old(self).spec_get(q),
    {
        let ghost pre = self.view_entries();
        proof {
            lemma_block_find_none_all(pre, pc, 0);
        }
        self.entries.push((pc, block));
        proof {
            let post = self.view_entries();
            assert(post =~= pre.push((pc, block@)));
            lemma_block_find_push_found(pre, pc, block@, 0);
            assert forall|q: u32| q != pc implies final(self).spec_get(q) == old(self).spec_get(
                q,
            ) by {
                lemma_block_find_push_other(pre, pc, block@, q, 0);
                if find_block_from(post, q, 0) is Some {
                    let k = find_block_from(post, q, 0)->Some_0;
                    lemma_block_find_found(post, q, 0, k);
                    assert(k < pre.len());
                }
            }
            assert forall|i: int, j: int|
                0 <= i < j < self.entries@.len() implies self.entries@[i].0
                != self.entries@[j].0 by {
                if j == self.entries@.len() - 1 {
                    assert(pre[i].0 == self.entries@[i].0);
                }
            }
        }
    }
}

/// Where a key was found, the entry there holds it.
proof fn lemma_block_find_found(entries: Seq<(u32, Seq<Instruction>)>, pc: u32, k: int, i: int)
    requires
        0 <= k,
        find_block_from(entries, pc, k) == Some(i),
    ensures
        k <= i < entries.len(),
        entries[i].0 == pc,
    decreases entries.len() - k,
{
    if k < entries.len() {
        if entries[k].0 == pc {
        } else {
            lemma_block_find_found(entries, pc, k + 1, i);
        }
    }
}

/// A key never found occurs in no entry.
proof fn lemma_block_find_none_all(entries: Seq<(u32, Seq<Instruction>)>, pc: u32, k: int)
    requires
        0 <= k,
        find_block_from(entries, pc, k) is None,
    ensures
        forall|a: int| k <= a < entries.len() ==> entries[a].0 != pc,
    decreases entries.len() - k,
{
    if k < entries.len() {
        lemma_block_find_none_all(entries, pc, k + 1);
    }
}

/// After appending a fresh key, searching for it finds the appended entry.
proof fn lemma_block_find_push_found(
    pre: Seq<(u32, Seq<Instruction>)>,
    pc: u32,
    b: Seq<Instruction>,
    k: int,
)
    requires
        0 <= k <= pre.len(),
        find_block_from(pre, pc, k) is None,
    ensures
        find_block_from(pre.push((pc, b)), pc, k) == Some(pre.len() as int),
    decreases pre.len() - k,
{
    let post = pre.push((pc, b));
    if k < pre.len() {
        lemma_block_find_push_found(pre, pc, b, k + 1);
    } else {
        assert(post[k].0 == pc);
    }
}

/// A push of one key leaves searches for any other key unchanged.
proof fn lemma_block_find_push_other(
    pre: Seq<(u32, Seq<Instruction>)>,
    pc: u32,
    b: Seq<Instruction>,
    q: u32,
    k: int,
)
    requires
        0 <= k,
        q != pc,
    ensures
        find_block_from(pre.push((pc, b)), q, k) == find_block_from(pre, q, k),
    decreases pre.len() + 1 - k,
{
    if k < pre.len() + 1 {
        if k < pre.len() {
            lemma_block_find_push_other(pre, pc, b, q, k + 1);
        } else {
            assert(pre.push((pc, b))[k].0 == pc);
        }
    }
}

/// The core execution state shared by both passes: the CPU, the private
/// input tape, the global clock, the basic-block cache with its decode
/// counter, and the program's addresses.
#[derive(Debug, PartialEq, Eq)]
pub struct Executor {
    pub cpu: Cpu,
    pub instruction_executor: InstructionExecutorRegistry,
    pub private_input_tape: Vec<u8>,
    pub global_clock: usize,
    pub basic_block_cache: BlockCache,
    pub base_address: u32,
    pub entrypoint: u32,
    pub block_decode_count: usize,
}

impl Executor {
    /// CPU and cache well formed.
    pub open spec fn wf(self) -> bool {
        self.cpu.wf() && self.basic_block_cache.wf()
    }

    /// A fresh executor: zeroed CPU, empty tape and cache, clock one (clock
    /// zero stands for memory initialization in the transcript).
    pub fn new() -> (r: Executor)
        ensures
            r.wf(),
            r.cpu.pc.value == 0,
            forall|k: u8| k < 32 ==> r.cpu.registers.spec_read(k) == 0,
            r.private_input_tape@.len() == 0,
            r.global_clock == 1,
            r.basic_block_cache.entries@.len() == 0,
            r.base_address == 0,
            r.entrypoint == 0,
            r.block_decode_count == 0,
    {
        Executor {
            cpu: Cpu::new(),
            instruction_executor: InstructionExecutorRegistry::new(),
            private_input_tape: Vec::new(),
            global_clock: 1,
            basic_block_cache: BlockCache::new(),
            base_address: 0,
            entrypoint: 0,
            block_decode_count: 0,
        }
    }

    /// Claims a custom opcode for a host-defined instruction.
    pub fn add_opcode(&mut self, op: &Opcode) -> (r: Result<(), VMError>)
        ensures
            final(self).cpu == old(self).cpu,
            final(self).private_input_tape == old(self).private_input_tape,
            final(self).global_clock == old(self).global_clock,
            final(self).basic_block_cache == old(self).basic_block_cache,
            final(self).base_address == old(self).base_address,
            final(self).entrypoint == old(self).entrypoint,
            final(self).block_decode_count == old(self).block_decode_count,
            match r {
                Ok(()) => !old(self).instruction_executor.spec_registered(spec_opcode_key(*op)),
                Err(e) => e == VMError::DuplicateOpcode(*op) && *final(self) == *old(self),
            },
    {
        self.instruction_executor.add_opcode(op)
    }

    /// Sets (or replaces) the private input tape.
    pub fn set_private_input(&mut self, private_input: &[u8])
        ensures
            final(self).private_input_tape@ == private_input@,
            final(self).cpu == old(self).cpu,
            final(self).global_clock == old(self).global_clock,
            final(self).basic_block_cache == old(self).basic_block_cache,
    {
        self.private_input_tape = slice_to_vec(private_input);
    }
}

impl Executor {
    /// Applies a host executor's result for a registered host-defined
    /// instruction: writes the result to the destination register,
    /// advances the program counter past the instruction and the global
    /// clock by one. The host performs the instruction's outside work and
    /// hands the destination value here; the step is then verified for
    /// every value the host can return.
    pub fn apply_custom_result(&mut self, bare_instruction: &Instruction, value: u32) -> (r:
        Result<(), VMError>)
        requires
            old(self).wf(),
            exec_wf_instr(*bare_instruction),
        ensures
            final(self).wf(),
            match r {
                Ok(()) => {
                    &&& old(self).global_clock < usize::MAX
                    &&& final(self).global_clock == old(self).global_clock + 1
                    &&& final(self).cpu.registers.regs@ == upd_reg(
                        old(self).cpu.registers.regs@,
                        bare_instruction.op_a,
                        value,
                    )
                    &&& final(self).cpu.pc.value == spec_add32(old(self).cpu.pc.value, 4)
                    &&& final(self).private_input_tape == old(self).private_input_tape
                    &&& final(self).basic_block_cache == old(self).basic_block_cache
                    &&& final(self).instruction_executor == old(self).instruction_executor
                    &&& final(self).block_decode_count == old(self).block_decode_count
                    &&& final(self).base_address == old(self).base_address
                    &&& final(self).entrypoint == old(self).entrypoint
                },
                Err(e) => e == VMError::CycleLimitExceeded && old(self).global_clock
                    == usize::MAX && *final(self) == *old(self),
            },
    {
        if self.global_clock == usize::MAX {
            return Err(VMError::CycleLimitExceeded);
        }
        self.cpu.registers.write(bare_instruction.op_a, value);
        self.cpu.pc.step();
        self.global_clock = self.global_clock + 1;
        Ok(())
    }
}

/// Copies a byte slice into an owned vector.
pub fn slice_to_vec(s: &[u8]) -> (r: Vec<u8>)
    ensures
        r@ == s@,
{
    let mut out: Vec<u8> = Vec::new();
    let mut i: usize = 0;
    while i < s.len()
        invariant
            i <= s@.len(),
            out@ == s@.subrange(0, i as int),
        decreases s@.len() - i,
    {
        out.push(s[i]);
        i = i + 1;
    }
    proof {
        assert(out@ =~= s@);
    }
    out
}

} // verus!

verus! {

/// ALU operations of the register and immediate forms.
pub open spec fn is_alu_op(b: BuiltinOpcode) -> bool {
    match b {
        BuiltinOpcode::ADD | BuiltinOpcode::SUB | BuiltinOpcode::SLL | BuiltinOpcode::SLT
        | BuiltinOpcode::SLTU | BuiltinOpcode::XOR | BuiltinOpcode::SRL | BuiltinOpcode::SRA
        | BuiltinOpcode::OR | BuiltinOpcode::AND | BuiltinOpcode::ADDI | BuiltinOpcode::SLTI
        | BuiltinOpcode::SLTIU | BuiltinOpcode::XORI | BuiltinOpcode::ORI | BuiltinOpcode::ANDI
        | BuiltinOpcode::SLLI | BuiltinOpcode::SRLI | BuiltinOpcode::SRAI => true,
        _ => false,
    }
}

/// Load instructions.
pub open spec fn is_load_op(b: BuiltinOpcode) -> bool {
    match b {
        BuiltinOpcode::LB | BuiltinOpcode::LH | BuiltinOpcode::LW | BuiltinOpcode::LBU
        | BuiltinOpcode::LHU => true,
        _ => false,
    }
}

/// Store instructions.
pub open spec fn is_store_op(b: BuiltinOpcode) -> bool {
    match b {
        BuiltinOpcode::SB | BuiltinOpcode::SH | BuiltinOpcode::SW => true,
        _ => false,
    }
}

/// Conditional branches.
pub open spec fn is_branch_op(b: BuiltinOpcode) -> bool {
    match b {
        BuiltinOpcode::BEQ | BuiltinOpcode::BNE | BuiltinOpcode::BLT | BuiltinOpcode::BGE
        | BuiltinOpcode::BLTU | BuiltinOpcode::BGEU => true,
        _ => false,
    }
}

/// The access width of a load or store instruction.
pub open spec fn mem_op_size(b: BuiltinOpcode) -> MemAccessSize {
    match b {
        BuiltinOpcode::LB | BuiltinOpcode::LBU | BuiltinOpcode::SB => MemAccessSize::Byte,
        BuiltinOpcode::LH | BuiltinOpcode::LHU | BuiltinOpcode::SH => MemAccessSize::HalfWord,
        _ => MemAccessSize::Word,
    }
}

/// The register value a load leaves: the raw part, sign extended for the
/// signed narrow loads.
pub open spec fn load_extend(b: BuiltinOpcode, v: u32) -> u32 {
    match b {
        BuiltinOpcode::LB => if v % 0x100 >= 0x80 {
            (v % 0x100 + 0xFFFF_FF00) as u32
        } else {
            (v % 0x100) as u32
        },
        BuiltinOpcode::LH => if v % 0x10000 >= 0x8000 {
            (v % 0x10000 + 0xFFFF_0000) as u32
        } else {
            (v % 0x10000) as u32
        },
        _ => v,
    }
}

/// What an ALU instruction computes from its two operands.
pub open spec fn spec_alu(b: BuiltinOpcode, x: u32, y: u32) -> u32 {
    match b {
        BuiltinOpcode::ADD | BuiltinOpcode::ADDI => spec_add32(x, y),
        BuiltinOpcode::SUB => spec_sub32(x, y),
        BuiltinOpcode::SLL | BuiltinOpcode::SLLI => spec_sll32(x, y),
        BuiltinOpcode::SLT | BuiltinOpcode::SLTI => if spec_signed(x) < spec_signed(y) {
            1
        } else {
            0
        },
        BuiltinOpcode::SLTU | BuiltinOpcode::SLTIU => if x < y {
            1
        } else {
            0
        },
        BuiltinOpcode::XOR | BuiltinOpcode::XORI => x ^ y,
        BuiltinOpcode::SRL | BuiltinOpcode::SRLI => spec_srl32(x, y),
        BuiltinOpcode::SRA | BuiltinOpcode::SRAI => spec_sra32(x, y),
        BuiltinOpcode::OR | BuiltinOpcode::ORI => x | y,
        BuiltinOpcode::AND | BuiltinOpcode::ANDI => x & y,
        _ => 0,
    }
}

/// Whether a conditional branch is taken on its two operands.
pub open spec fn spec_branch_taken(b: BuiltinOpcode, x: u32, y: u32) -> bool {
    match b {
        BuiltinOpcode::BEQ => x == y,
        BuiltinOpcode::BNE => x != y,
        BuiltinOpcode::BLT => spec_signed(x) < spec_signed(y),
        BuiltinOpcode::BGE => spec_signed(x) >= spec_signed(y),
        BuiltinOpcode::BLTU => x < y,
        BuiltinOpcode::BGEU => x >= y,
        _ => false,
    }
}

/// The register file after writing `v` to `r`; a write to `x0` is dropped.
pub open spec fn upd_reg(regs: Seq<u32>, r: u8, v: u32) -> Seq<u32> {
    if r == 0 {
        regs
    } else {
        regs.update(r as int, v)
    }
}

/// Fields in range for execution: register numbers below 32, and for the
/// register forms the third operand a register number too.
pub open spec fn exec_wf_instr(i: Instruction) -> bool {
    i.op_a < 32 && i.op_b < 32 && (i.ins_type == crate::rv32::InstructionType::RType ==> i.op_c
        < 32) && (match i.opcode.spec_builtin() {
        Some(b) => (builtin_type(b) == crate::rv32::InstructionType::RType && is_alu_op(b))
            ==> i.op_c < 32,
        None => i.opcode.raw == DYNAMIC_RTYPE_OPCODE ==> i.op_c < 32,
    })
}

/// One step of the shared instruction semantics, short of system calls and
/// the custom input/output instructions: the error if the step fails, the
/// destination-register result, the register file after, the program
/// counter after (changed only by branches and jumps), and the load and
/// store operations performed.
pub open spec fn spec_execute_bare(cpu: Cpu, mem: UnifiedMemory, i: Instruction) -> (
    Option<VMError>,
    Option<u32>,
    Seq<u32>,
    u32,
    Seq<LoadOp>,
    Seq<StoreOp>,
) {
    let regs = cpu.registers.regs@;
    let pc = cpu.pc.value;
    match i.opcode.spec_builtin() {
        Some(b) => if is_alu_op(b) {
            let x = regs[i.op_b as int];
            let y = if builtin_type(b) == crate::rv32::InstructionType::RType {
                regs[i.op_c as int]
            } else {
                i.op_c
            };
            let v = spec_alu(b, x, y);
            (None, Some(v), upd_reg(regs, i.op_a, v), pc, Seq::empty(), Seq::empty())
        } else if is_load_op(b) {
            let addr = spec_add32(regs[i.op_b as int], i.op_c);
            let size = mem_op_size(b);
            match mem.spec_load(addr, size) {
                Ok(v0) => {
                    let v = load_extend(b, v0);
                    (
                        None,
                        Some(v),
                        upd_reg(regs, i.op_a, v),
                        pc,
                        seq![LoadOp { address: addr, size, value: v0 }],
                        Seq::empty(),
                    )
                },
                Err(e) => (Some(VMError::MemoryFault(e)), None, regs, pc, Seq::empty(), Seq::empty()),
            }
        } else if is_store_op(b) {
            let addr = spec_add32(regs[i.op_b as int], i.op_c);
            let size = mem_op_size(b);
            match mem.spec_store_err(addr, size) {
                None => (
                    None,
                    None,
                    regs,
                    pc,
                    Seq::empty(),
                    seq![
                        StoreOp {
                            address: addr,
                            size,
                            value: crate::memory::truncate_value(regs[i.op_a as int], size),
                            prev_value: crate::memory::extract_part(
                                mem.spec_word_before(addr),
                                addr % 4,
                                size,
                            ),
                        },
                    ],
                ),
                Some(e) => (
                    Some(VMError::MemoryFault(e)),
                    None,
                    regs,
                    pc,
                    Seq::empty(),
                    Seq::empty(),
                ),
            }
        } else if is_branch_op(b) {
            let taken = spec_branch_taken(b, regs[i.op_a as int], regs[i.op_b as int]);
            let pc2 = if taken {
                spec_add32(pc, i.op_c)
            } else {
                spec_add32(pc, 4)
            };
            (None, None, regs, pc2, Seq::empty(), Seq::empty())
        } else if b == BuiltinOpcode::JAL {
            let link = spec_add32(pc, 4);
            (
                None,
                Some(link),
                upd_reg(regs, i.op_a, link),
                spec_add32(pc, i.op_c),
                Seq::empty(),
                Seq::empty(),
            )
        } else if b == BuiltinOpcode::JALR {
            let link = spec_add32(pc, 4);
            let target = spec_add32(regs[i.op_b as int], i.op_c) & 0xFFFF_FFFE;
            (None, Some(link), upd_reg(regs, i.op_a, link), target, Seq::empty(), Seq::empty())
        } else if b == BuiltinOpcode::LUI {
            let v = ((i.op_c % 0x100000) * 0x1000) as u32;
            (None, Some(v), upd_reg(regs, i.op_a, v), pc, Seq::empty(), Seq::empty())
        } else if b == BuiltinOpcode::AUIPC {
            let v = spec_add32(pc, ((i.op_c % 0x100000) * 0x1000) as u32);
            (None, Some(v), upd_reg(regs, i.op_a, v), pc, Seq::empty(), Seq::empty())
        } else {
            (
                Some(VMError::UndefinedInstruction(i.opcode)),
                None,
                regs,
                pc,
                Seq::empty(),
                Seq::empty(),
            )
        },
        None => (
            Some(VMError::UndefinedInstruction(i.opcode)),
            None,
            regs,
            pc,
            Seq::empty(),
            Seq::empty(),
        ),
    }
}

/// How a successful store of `value` at `addr` leaves a unified memory:
/// the containing word rewritten where the address lives, all else kept.
pub open spec fn spec_mem_after_store(
    m0: UnifiedMemory,
    m1: UnifiedMemory,
    addr: u32,
    size: MemAccessSize,
    value: u32,
) -> bool {
    match find_fixed_at(m0, addr) {
        Some(k) => {
            &&& m1.variable == m0.variable
            &&& m1.fixed@.len() == m0.fixed@.len()
            &&& (forall|j: int| 0 <= j < m0.fixed@.len() && j != k ==> m1.fixed@[j] == m0.fixed@[j])
            &&& m1.fixed@[k].mode == m0.fixed@[k].mode
            &&& m1.fixed@[k].base == m0.fixed@[k].base
            &&& m1.fixed@[k].words@ == m0.fixed@[k].words@.update(
                (addr as int - m0.fixed@[k].base as int) / 4,
                crate::memory::insert_part(m0.fixed@[k].word_at(addr), addr % 4, size, value),
            )
        },
        None => {
            &&& m1.fixed@ == m0.fixed@
            &&& m1.variable is Some
            &&& m0.variable is Some
            &&& m1.variable->0.mode == m0.variable->0.mode
            &&& m1.variable->0.word_or_zero((addr - addr % 4) as u32) == crate::memory::insert_part(
                m0.variable->0.word_or_zero((addr - addr % 4) as u32),
                addr % 4,
                size,
                value,
            )
            &&& (forall|w: u32|
                w != ((addr - addr % 4) as u32) ==> m1.variable->0.word_or_zero(w)
                    == m0.variable->0.word_or_zero(w))
        },
    }
}

/// How one step leaves memory: rewritten at the stored word for a
/// successful store, untouched otherwise.
pub open spec fn spec_mem_after(cpu: Cpu, m0: UnifiedMemory, m1: UnifiedMemory, i: Instruction) -> bool {
    let regs = cpu.registers.regs@;
    match i.opcode.spec_builtin() {
        Some(b) => if is_store_op(b) && spec_execute_bare(cpu, m0, i).0 is None {
            let addr = spec_add32(regs[i.op_b as int], i.op_c);
            let size = mem_op_size(b);
            let value = regs[i.op_a as int];
            spec_mem_after_store(m0, m1, addr, size, value)
        } else {
            m1 == m0
        },
        None => m1 == m0,
    }
}

/// The first fixed segment of a unified memory containing an address.
pub open spec fn find_fixed_at(m: UnifiedMemory, addr: u32) -> Option<int> {
    crate::memory::find_fixed_from(m.fixed@, addr, 0)
}

/// What an ALU instruction computes from its two operands.
pub fn alu_value(b: BuiltinOpcode, x: u32, y: u32) -> (r: u32)
    ensures
        r == spec_alu(b, x, y),
{
    match b {
        BuiltinOpcode::ADD | BuiltinOpcode::ADDI => add32(x, y),
        BuiltinOpcode::SUB => sub32(x, y),
        BuiltinOpcode::SLL | BuiltinOpcode::SLLI => sll32(x, y),
        BuiltinOpcode::SLT | BuiltinOpcode::SLTI => if slt32(x, y) {
            1
        } else {
            0
        },
        BuiltinOpcode::SLTU | BuiltinOpcode::SLTIU => if x < y {
            1
        } else {
            0
        },
        BuiltinOpcode::XOR | BuiltinOpcode::XORI => x ^ y,
        BuiltinOpcode::SRL | BuiltinOpcode::SRLI => srl32(x, y),
        BuiltinOpcode::SRA | BuiltinOpcode::SRAI => sra32(x, y),
        BuiltinOpcode::OR | BuiltinOpcode::ORI => x | y,
        BuiltinOpcode::AND | BuiltinOpcode::ANDI => x & y,
        _ => 0,
    }
}

/// Whether a conditional branch is taken on its two operands.
pub fn branch_taken(b: BuiltinOpcode, x: u32, y: u32) -> (r: bool)
    ensures
        r == spec_branch_taken(b, x, y),
{
    match b {
        BuiltinOpcode::BEQ => x == y,
        BuiltinOpcode::BNE => x != y,
        BuiltinOpcode::BLT => slt32(x, y),
        BuiltinOpcode::BGE => !slt32(x, y),
        BuiltinOpcode::BLTU => x < y,
        BuiltinOpcode::BGEU => x >= y,
        _ => false,
    }
}

/// Executes one instruction of the shared semantics against a CPU and an
/// address space: ALU, load, store, branch, jump and upper-immediate forms.
/// System calls and the custom input/output instructions are dispatched
/// before this function. The outcome is exactly the one step of the
/// semantics; on an error nothing changes.
pub fn execute_bare(cpu: &mut Cpu, mem: &mut UnifiedMemory, i: &Instruction) -> (r: Result<
    (InstructionResult, (Vec<LoadOp>, Vec<StoreOp>)),
    VMError,
>)
    requires
        old(cpu).wf(),
        old(mem).wf(),
        exec_wf_instr(*i),
        !i.spec_is_system(),
    ensures
        final(cpu).wf(),
        final(mem).wf(),
        final(cpu).registers.regs@ == spec_execute_bare(*old(cpu), *old(mem), *i).2,
        final(cpu).pc.value == spec_execute_bare(*old(cpu), *old(mem), *i).3,
        spec_mem_after(*old(cpu), *old(mem), *final(mem), *i),
        match r {
            Ok((res, (lds, sts))) => {
                &&& spec_execute_bare(*old(cpu), *old(mem), *i).0 is None
                &&& res == spec_execute_bare(*old(cpu), *old(mem), *i).1
                &&& lds@ == spec_execute_bare(*old(cpu), *old(mem), *i).4
                &&& sts@ == spec_execute_bare(*old(cpu), *old(mem), *i).5
            },
            Err(e) => {
                &&& spec_execute_bare(*old(cpu), *old(mem), *i).0 == Some(e)
                &&& *final(cpu) == *old(cpu)
                &&& *final(mem) == *old(mem)
            },
        },
{
    let b = match i.opcode.builtin() {
        Some(b) => b,
        None => {
            return Err(VMError::UndefinedInstruction(i.opcode));
        },
    };
    match b {
        BuiltinOpcode::ADD | BuiltinOpcode::SUB | BuiltinOpcode::SLL | BuiltinOpcode::SLT
        | BuiltinOpcode::SLTU | BuiltinOpcode::XOR | BuiltinOpcode::SRL | BuiltinOpcode::SRA
        | BuiltinOpcode::OR | BuiltinOpcode::AND => {
            let x = cpu.registers.read(i.op_b);
            let y = cpu.registers.read(i.op_c as u8);
            let v = alu_value(b, x, y);
            cpu.registers.write(i.op_a, v);
            Ok((Some(v), (Vec::new(), Vec::new())))
        },
        BuiltinOpcode::ADDI | BuiltinOpcode::SLTI | BuiltinOpcode::SLTIU | BuiltinOpcode::XORI
        | BuiltinOpcode::ORI | BuiltinOpcode::ANDI | BuiltinOpcode::SLLI | BuiltinOpcode::SRLI
        | BuiltinOpcode::SRAI => {
            let x = cpu.registers.read(i.op_b);
            let v = alu_value(b, x, i.op_c);
            cpu.registers.write(i.op_a, v);
            Ok((Some(v), (Vec::new(), Vec::new())))
        },
        BuiltinOpcode::LB | BuiltinOpcode::LH | BuiltinOpcode::LW | BuiltinOpcode::LBU
        | BuiltinOpcode::LHU => {
            let base = cpu.registers.read(i.op_b);
            let addr = add32(base, i.op_c);
            let size = match b {
                BuiltinOpcode::LB | BuiltinOpcode::LBU => MemAccessSize::Byte,
                BuiltinOpcode::LH | BuiltinOpcode::LHU => MemAccessSize::HalfWord,
                _ => MemAccessSize::Word,
            };
            match mem.load(addr, size) {
                Ok((v0, op)) => {
                    let v = match b {
                        BuiltinOpcode::LB => if v0 % 0x100 >= 0x80 {
                            v0 % 0x100 + 0xFFFF_FF00
                        } else {
                            v0 % 0x100
                        },
                        BuiltinOpcode::LH => if v0 % 0x10000 >= 0x8000 {
                            v0 % 0x10000 + 0xFFFF_0000
                        } else {
                            v0 % 0x10000
                        },
                        _ => v0,
                    };
                    cpu.registers.write(i.op_a, v);
                    let mut lds: Vec<LoadOp> = Vec::new();
                    lds.push(op);
                    proof {
                        assert(lds@ =~= spec_execute_bare(*old(cpu), *old(mem), *i).4);
                    }
                    Ok((Some(v), (lds, Vec::new())))
                },
                Err(e) => Err(VMError::MemoryFault(e)),
            }
        },
        BuiltinOpcode::SB | BuiltinOpcode::SH | BuiltinOpcode::SW => {
            let base = cpu.registers.read(i.op_b);
            let addr = add32(base, i.op_c);
            let value = cpu.registers.read(i.op_a);
            let size = match b {
                BuiltinOpcode::SB => MemAccessSize::Byte,
                BuiltinOpcode::SH => MemAccessSize::HalfWord,
                _ => MemAccessSize::Word,
            };
            match mem.store(addr, size, value) {
                Ok(op) => {
                    let mut sts: Vec<StoreOp> = Vec::new();
                    sts.push(op);
                    proof {
                        assert(sts@ =~= spec_execute_bare(*old(cpu), *old(mem), *i).5);
                    }
                    Ok((None, (Vec::new(), sts)))
                },
                Err(e) => Err(VMError::MemoryFault(e)),
            }
        },
        BuiltinOpcode::BEQ | BuiltinOpcode::BNE | BuiltinOpcode::BLT | BuiltinOpcode::BGE
        | BuiltinOpcode::BLTU | BuiltinOpcode::BGEU => {
            let x = cpu.registers.read(i.op_a);
            let y = cpu.registers.read(i.op_b);
            let taken = branch_taken(b, x, y);
            let pc = cpu.pc.value;
            cpu.pc.value = if taken {
                add32(pc, i.op_c)
            } else {
                add32(pc, 4)
            };
            Ok((None, (Vec::new(), Vec::new())))
        },
        BuiltinOpcode::JAL => {
            let link = add32(cpu.pc.value, 4);
            cpu.registers.write(i.op_a, link);
            cpu.pc.value = add32(cpu.pc.value, i.op_c);
            Ok((Some(link), (Vec::new(), Vec::new())))
        },
        BuiltinOpcode::JALR => {
            let link = add32(cpu.pc.value, 4);
            let base = cpu.registers.read(i.op_b);
            cpu.registers.write(i.op_a, link);
            cpu.pc.value = add32(base, i.op_c) & 0xFFFF_FFFE;
            Ok((Some(link), (Vec::new(), Vec::new())))
        },
        BuiltinOpcode::LUI => {
            let v = (i.op_c % 0x100000) * 0x1000;
            cpu.registers.write(i.op_a, v);
            Ok((Some(v), (Vec::new(), Vec::new())))
        },
        BuiltinOpcode::AUIPC => {
            let v = add32(cpu.pc.value, (i.op_c % 0x100000) * 0x1000);
            cpu.registers.write(i.op_a, v);
            Ok((Some(v), (Vec::new(), Vec::new())))
        },
        _ => Err(VMError::UndefinedInstruction(i.opcode)),
    }
}

} // verus!

verus! {

/// System call number of clean program exit; the exit code stands in `a0`.
pub const SYSCALL_EXIT: u32 = 512;

/// System call number of the cycle counter; a no-op for proving purposes.
pub const SYSCALL_CYCLE_COUNT: u32 = 513;

/// System call number of reading one byte from the private input tape.
pub const SYSCALL_READ_PRIVATE_INPUT: u32 = 514;

/// Executes a system call: the number stands in `a7`, the argument in
/// `a0`, and the return value is written back into `a0` only: the
/// instruction-result component is always absent. Exit ends the run with
/// `VMExited`, writing the exit code into the output region when a linear
/// layout is given; reading the private input pops the tape's front byte,
/// yielding the all-ones word once the tape is empty.
pub fn execute_syscall(
    executor: &mut Executor,
    memory: &mut UnifiedMemory,
    memory_layout: Option<crate::layout::LinearMemoryLayout>,
    bare_instruction: &Instruction,
) -> (r: Result<(InstructionResult, (Vec<LoadOp>, Vec<StoreOp>)), VMError>)
    requires
        old(executor).wf(),
        old(memory).wf(),
    ensures
        final(executor).wf(),
        final(memory).wf(),
        final(executor).cpu.pc == old(executor).cpu.pc,
        final(executor).global_clock == old(executor).global_clock,
        final(executor).basic_block_cache == old(executor).basic_block_cache,
        final(executor).instruction_executor == old(executor).instruction_executor,
        final(executor).base_address == old(executor).base_address,
        final(executor).entrypoint == old(executor).entrypoint,
        final(executor).block_decode_count == old(executor).block_decode_count,
        ({
            let regs = old(executor).cpu.registers.regs@;
            let num = regs[17];
            let a0 = regs[10];
            match r {
                Ok((res, ops)) => {
                    &&& (num == SYSCALL_CYCLE_COUNT || num == SYSCALL_READ_PRIVATE_INPUT)
                    &&& *final(memory) == *old(memory)
                    &&& ops.0@.len() == 0 && ops.1@.len() == 0
                    &&& (num == SYSCALL_CYCLE_COUNT ==> res is None && *final(executor) == *old(
                        executor,
                    ))
                    &&& res is None
                    &&& (num == SYSCALL_READ_PRIVATE_INPUT ==> {
                        let tape = old(executor).private_input_tape@;
                        let v: u32 = if tape.len() > 0 {
                            tape[0] as u32
                        } else {
                            0xFFFF_FFFF
                        };
                        &&& final(executor).cpu.registers.regs@ == upd_reg(regs, 10, v)
                        &&& final(executor).private_input_tape@ == (if tape.len() > 0 {
                            tape.skip(1)
                        } else {
                            tape
                        })
                    })
                },
                Err(e) => {
                    &&& (num == SYSCALL_EXIT ==> e == VMError::VMExited(a0) && *final(executor)
                        == *old(executor) && (match memory_layout {
                        Some(l) => (if old(memory).spec_store_err(l.exit, MemAccessSize::Word)
                            is None {
                            spec_mem_after_store(
                                *old(memory),
                                *final(memory),
                                l.exit,
                                MemAccessSize::Word,
                                a0,
                            )
                        } else {
                            *final(memory) == *old(memory)
                        }),
                        None => *final(memory) == *old(memory),
                    }))
                    &&& (num != SYSCALL_EXIT ==> e == VMError::UnsupportedSyscall(num)
                        && *final(executor) == *old(executor) && *final(memory) == *old(memory))
                    &&& (num != SYSCALL_CYCLE_COUNT && num != SYSCALL_READ_PRIVATE_INPUT)
                },
            }
        }),
{
    let num = executor.cpu.registers.read(17);
    let a0 = executor.cpu.registers.read(10);
    if num == SYSCALL_EXIT {
        match memory_layout {
            Some(l) => {
                let exit_addr = l.exit_code();
                let _ = memory.store(exit_addr, MemAccessSize::Word, a0);
            },
            None => {},
        }
        Err(VMError::VMExited(a0))
    } else if num == SYSCALL_CYCLE_COUNT {
        Ok((None, (Vec::new(), Vec::new())))
    } else if num == SYSCALL_READ_PRIVATE_INPUT {
        let v: u32 = if executor.private_input_tape.len() > 0 {
            let b = executor.private_input_tape.remove(0);
            b as u32
        } else {
            0xFFFF_FFFF
        };
        executor.cpu.registers.write(10, v);
        Ok((None, (Vec::new(), Vec::new())))
    } else {
        Err(VMError::UnsupportedSyscall(num))
    }
}

} // verus!

verus! {

/// Every cached block is nonempty and its instructions have executable
/// fields.
pub open spec fn cache_blocks_wf(c: BlockCache) -> bool {
    (forall|i: int, k: int|
        0 <= i < c.entries@.len() && 0 <= k < c.entries@[i].1@.len() ==> exec_wf_instr(
            #[trigger] c.entries@[i].1@[k],
        )) && (forall|i: int|
        0 <= i < c.entries@.len() ==> (#[trigger] c.entries@[i].1@.len()) > 0)
}

/// Every instruction of a block has executable fields.
pub open spec fn block_wf(b: Seq<Instruction>) -> bool {
    forall|k: int| 0 <= k < b.len() ==> exec_wf_instr(#[trigger] b[k])
}

proof fn lemma_bv_extract_bounds(w: u32)
    by (bit_vector)
    ensures
        ((w & 0xF80) >> 7) < 32,
        ((w & 0x7000) >> 12) < 8,
        ((w & 0x000F8000) >> 15) < 32,
        ((w & 0x01F00000) >> 20) < 32,
        ((w & 0xFE000000) >> 25) < 128,
{
}

/// Every decoded instruction has executable fields.
pub proof fn lemma_decoded_wf(w: u32)
    ensures
        exec_wf_instr(crate::decoder::spec_decode_dyn(w)),
{
    lemma_bv_extract_bounds(w);
}

/// Every instruction of a decoded block has executable fields.
pub proof fn lemma_block_decode_wf(words: Seq<u32>)
    ensures
        block_wf(spec_block_decode(words)),
    decreases words.len(),
{
    if words.len() > 0 {
        lemma_decoded_wf(words[0]);
        lemma_block_decode_wf(words.skip(1));
        assert forall|k: int|
            0 <= k < spec_block_decode(words).len() implies exec_wf_instr(
            #[trigger] spec_block_decode(words)[k],
        ) by {
            if k > 0 {
                assert(spec_block_decode(words)[k] == spec_block_decode(words.skip(1))[k - 1]);
            }
        }
    }
}

/// The first-pass emulator: separate instruction, public input, public
/// output and data memories. It records no memory transcript, but tracks
/// the statistics that shape the second pass's layout.
#[derive(Debug, PartialEq, Eq)]
pub struct HarvardEmulator {
    pub executor: Executor,
    pub instruction_memory: FixedMemory,
    pub input_memory: FixedMemory,
    pub output_memory: VariableMemory,
    pub data_memory: UnifiedMemory,
    pub memory_stats: crate::layout::MemoryStats,
}

impl HarvardEmulator {
    /// Every component well formed, and every cached block executable.
    pub open spec fn wf(self) -> bool {
        &&& self.executor.wf()
        &&& cache_blocks_wf(self.executor.basic_block_cache)
        &&& self.instruction_memory.wf()
        &&& self.input_memory.wf()
        &&& self.output_memory.wf()
        &&& self.data_memory.wf()
    }

    /// Sets (or replaces) the private input tape.
    pub fn set_private_input(&mut self, private_input: &[u8])
        ensures
            final(self).private_input_tape_view() == private_input@,
            final(self).executor.cpu == old(self).executor.cpu,
            final(self).instruction_memory == old(self).instruction_memory,
            final(self).data_memory == old(self).data_memory,
            old(self).wf() ==> final(self).wf(),
    {
        self.executor.set_private_input(private_input);
    }

    /// The private input tape's bytes.
    pub open spec fn private_input_tape_view(self) -> Seq<u8> {
        self.executor.private_input_tape@
    }

    /// Claims a custom opcode for a host-defined instruction.
    pub fn add_opcode(&mut self, op: &Opcode) -> (r: Result<(), VMError>)
        requires
            old(self).wf(),
        ensures
            final(self).wf(),
            match r {
                Ok(()) => !old(self).executor.instruction_executor.spec_registered(
                    spec_opcode_key(*op),
                ),
                Err(e) => e == VMError::DuplicateOpcode(*op),
            },
    {
        self.executor.add_opcode(op)
    }

    /// The bytes written to the public output memory so far.
    pub fn get_output(&self) -> (r: Result<Vec<u8>, MemoryError>)
        requires
            self.wf(),
            self.output_memory.spec_cover_end(0, None) < 0x1_0000_0000,
        ensures
            match r {
                Ok(bs) => {
                    &&& bs@.len() == self.output_memory.spec_cover_end(0, None)
                    &&& forall|j: int|
                        0 <= j < bs@.len() ==> bs@[j] == (crate::memory::extract_part(
                            self.output_memory.word_or_zero((4 * (j / 4)) as u32),
                            (j % 4) as u32,
                            MemAccessSize::Byte,
                        ) as u8)
                },
                Err(_) => false,
            },
    {
        Ok(self.output_memory.segment_bytes(0, None))
    }
}

impl Default for HarvardEmulator {
    /// A bare machine suitable for direct testing: zeroed CPU, small empty
    /// instruction and input images, empty output, no data segments.
    fn default() -> (r: HarvardEmulator)
        ensures
            r.wf(),
            r.executor.cpu.pc.value == 0,
            forall|k: u8| k < 32 ==> r.executor.cpu.registers.spec_read(k) == 0,
            r.executor.global_clock == 1,
            r.executor.basic_block_cache.entries@.len() == 0,
            r.executor.private_input_tape@.len() == 0,
            r.executor.block_decode_count == 0,
            r.instruction_memory.mode == Mode::ReadOnly,
            r.instruction_memory.base == 0,
            r.instruction_memory.words@.len() == 0x400,
            forall|j: int| 0 <= j < 0x400 ==> r.instruction_memory.words@[j] == 0,
            r.output_memory.cells@.len() == 0,
            r.data_memory.fixed@.len() == 0,
            r.data_memory.variable is Some,
            r.data_memory.variable->0.mode == Mode::ReadWrite,
            r.data_memory.variable->0.cells@.len() == 0,
    {
        HarvardEmulator {
            executor: Executor::new(),
            instruction_memory: FixedMemory::new(Mode::ReadOnly, 0, 0x1000),
            input_memory: FixedMemory::new(Mode::ReadOnly, 0, 0x1000),
            output_memory: VariableMemory::new(Mode::WriteOnly),
            data_memory: UnifiedMemory::from_variable(VariableMemory::new(Mode::ReadWrite)),
            memory_stats: crate::layout::MemoryStats::new(0, crate::layout::MEMORY_TOP),
        }
    }
}

} // verus!


verus! {

/// What one first-pass step never touches: the instruction and input
/// images, the registry, the block cache and the program addresses.
pub open spec fn harvard_frame(pre: HarvardEmulator, post: HarvardEmulator) -> bool {
    &&& post.instruction_memory == pre.instruction_memory
    &&& post.input_memory == pre.input_memory
    &&& post.executor.instruction_executor == pre.executor.instruction_executor
    &&& post.executor.basic_block_cache == pre.executor.basic_block_cache
    &&& post.executor.base_address == pre.executor.base_address
    &&& post.executor.entrypoint == pre.executor.entrypoint
    &&& post.executor.block_decode_count == pre.executor.block_decode_count
}

/// One successful first-pass step: the program counter and clock advance,
/// and per dispatch path — system call, custom input or output, or the
/// shared semantics — the registers, memories, tape and statistics change
/// exactly as that path prescribes.
pub open spec fn harvard_step_ok(pre: HarvardEmulator, post: HarvardEmulator, i: Instruction) -> bool {
    let cpu0 = pre.executor.cpu;
    let regs = cpu0.registers.regs@;
    let pc0 = cpu0.pc.value;
    &&& pre.executor.global_clock < usize::MAX
    &&& post.executor.global_clock == pre.executor.global_clock + 1
    &&& post.executor.cpu.pc.value == (if i.spec_is_branch_or_jump() {
        spec_execute_bare(cpu0, pre.data_memory, i).3
    } else {
        spec_add32(pc0, 4)
    })
    &&& (i.spec_is_system() ==> {
        &&& (regs[17] == SYSCALL_CYCLE_COUNT || regs[17] == SYSCALL_READ_PRIVATE_INPUT)
        &&& post.data_memory == pre.data_memory
        &&& post.output_memory == pre.output_memory
        &&& (regs[17] == SYSCALL_CYCLE_COUNT ==> post.executor.cpu.registers == cpu0.registers
            && post.executor.private_input_tape == pre.executor.private_input_tape)
        &&& (regs[17] == SYSCALL_READ_PRIVATE_INPUT ==> {
            let tape = pre.executor.private_input_tape@;
            let v: u32 = if tape.len() > 0 {
                tape[0] as u32
            } else {
                0xFFFF_FFFF
            };
            &&& post.executor.cpu.registers.regs@ == upd_reg(regs, 10, v)
            &&& post.executor.private_input_tape@ == (if tape.len() > 0 {
                tape.skip(1)
            } else {
                tape
            })
        })
        &&& post.memory_stats.max_heap_access == pre.memory_stats.max_heap_access
    })
    &&& (spec_is_rin(i.opcode) ==> {
        let addr = spec_add32(regs[i.op_b as int], regs[i.op_c as int]);
        &&& pre.input_memory.spec_load(addr, MemAccessSize::Word) matches Ok(v0)
            && post.executor.cpu.registers.regs@ == upd_reg(regs, i.op_a, v0)
        &&& post.data_memory == pre.data_memory
        &&& post.output_memory == pre.output_memory
        &&& post.memory_stats == pre.memory_stats
        &&& post.executor.private_input_tape == pre.executor.private_input_tape
    })
    &&& (spec_is_wou(i.opcode) ==> {
        let addr = spec_add32(regs[i.op_b as int], regs[i.op_c as int]);
        &&& addr % 4 == 0
        &&& pre.output_memory.mode.spec_writable()
        &&& post.output_memory.mode == pre.output_memory.mode
        &&& post.output_memory.word_or_zero(addr) == regs[i.op_a as int]
        &&& (forall|w: u32|
            w != addr ==> post.output_memory.word_or_zero(w) == pre.output_memory.word_or_zero(w))
        &&& post.executor.cpu.registers == cpu0.registers
        &&& post.data_memory == pre.data_memory
        &&& post.memory_stats == pre.memory_stats
        &&& post.executor.private_input_tape == pre.executor.private_input_tape
    })
    &&& !spec_is_host_custom(pre.executor.instruction_executor, i.opcode)
    &&& (!i.spec_is_system() && !spec_is_rin(i.opcode) && !spec_is_wou(i.opcode) ==> {
        let outcome = spec_execute_bare(cpu0, pre.data_memory, i);
        &&& outcome.0 is None
        &&& post.executor.cpu.registers.regs@ == outcome.2
        &&& spec_mem_after(cpu0, pre.data_memory, post.data_memory, i)
        &&& post.output_memory == pre.output_memory
        &&& post.executor.private_input_tape == pre.executor.private_input_tape
        &&& post.memory_stats.max_heap_access as int == crate::layout::spec_heap_mark(
            crate::layout::op_spans(outcome.4, outcome.5),
            outcome.2[2],
            pre.memory_stats.max_heap_access,
            0,
        )
        &&& post.memory_stats.min_stack_access as int == crate::layout::spec_stack_mark(
            crate::layout::op_spans(outcome.4, outcome.5),
            outcome.2[2],
            pre.memory_stats.min_stack_access,
            0,
        )
    })
}

/// Which error one first-pass step fails with: exactly when the clock is
/// exhausted, the system call is exit or unknown, a custom input or
/// output access faults, or the shared semantics fail; the machine is
/// left untouched.
pub open spec fn harvard_step_err(pre: HarvardEmulator, i: Instruction, e: VMError) -> bool {
    let regs = pre.executor.cpu.registers.regs@;
    &&& (pre.executor.global_clock == usize::MAX ==> e == VMError::CycleLimitExceeded)
    &&& (pre.executor.global_clock < usize::MAX ==> {
        if i.spec_is_system() {
            &&& (regs[17] == SYSCALL_EXIT ==> e == VMError::VMExited(regs[10]))
            &&& (regs[17] != SYSCALL_EXIT ==> e == VMError::UnsupportedSyscall(regs[17])
                && regs[17] != SYSCALL_CYCLE_COUNT && regs[17] != SYSCALL_READ_PRIVATE_INPUT)
        } else if spec_is_rin(i.opcode) {
            pre.input_memory.spec_load(
                spec_add32(regs[i.op_b as int], regs[i.op_c as int]),
                MemAccessSize::Word,
            ) matches Err(me) && e == VMError::MemoryFault(me)
        } else if spec_is_wou(i.opcode) {
            e == VMError::MemoryFault(MemoryError::UnalignedAccess) || e == VMError::MemoryFault(
                MemoryError::MemoryPermissionDenied,
            )
        } else if spec_is_host_custom(pre.executor.instruction_executor, i.opcode) {
            e == VMError::HostInstruction(i.opcode)
        } else {
            spec_execute_bare(pre.executor.cpu, pre.data_memory, i).0 == Some(e)
        }
    })
}

} // verus!

verus! {

impl HarvardEmulator {
    /// Executes one instruction: system calls against the data memory, the
    /// custom input and output instructions against the input and output
    /// memories, everything else through the shared semantics. The program
    /// counter advances by four unless the instruction branched or jumped,
    /// the global clock by one; memory statistics absorb every non-I/O
    /// access. The first pass reports no memory records. On an error the
    /// machine is left untouched.
    pub fn execute_instruction(&mut self, bare_instruction: &Instruction) -> (r: Result<
        (InstructionResult, MemoryRecords),
        VMError,
    >)
        requires
            old(self).wf(),
            exec_wf_instr(*bare_instruction),
        ensures
            final(self).wf(),
            final(self).instruction_memory == old(self).instruction_memory,
            final(self).input_memory == old(self).input_memory,
            final(self).executor.instruction_executor == old(self).executor.instruction_executor,
            final(self).executor.basic_block_cache == old(self).executor.basic_block_cache,
            final(self).executor.base_address == old(self).executor.base_address,
            final(self).executor.entrypoint == old(self).executor.entrypoint,
            final(self).executor.block_decode_count == old(self).executor.block_decode_count,
            match r {
                Ok((res, records)) => res is None && records@.len() == 0 && harvard_step_ok(
                    *old(self),
                    *final(self),
                    *bare_instruction,
                ),
                Err(e) => *final(self) == *old(self) && harvard_step_err(
                    *old(self),
                    *bare_instruction,
                    e,
                ),
            },
    {
        if self.executor.global_clock == usize::MAX {
            return Err(VMError::CycleLimitExceeded);
        }
        let accessed_io: bool;
        let mut load_ops: Vec<LoadOp> = Vec::new();
        let mut store_ops: Vec<StoreOp> = Vec::new();
        if bare_instruction.is_system_instruction() {
            let (res, ops) = execute_syscall(
                &mut self.executor,
                &mut self.data_memory,
                None,
                bare_instruction,
            )?;
            let _ = res;
            load_ops = ops.0;
            store_ops = ops.1;
            accessed_io = false;
        } else if self.executor.instruction_executor.is_read_input(&bare_instruction.opcode) {
            let base = self.executor.cpu.registers.read(bare_instruction.op_b);
            let off = self.executor.cpu.registers.read(bare_instruction.op_c as u8);
            let addr = add32(base, off);
            match self.input_memory.load(addr, MemAccessSize::Word) {
                Ok((v0, _op)) => {
                    self.executor.cpu.registers.write(bare_instruction.op_a, v0);
                },
                Err(e) => {
                    return Err(VMError::MemoryFault(e));
                },
            }
            accessed_io = true;
        } else if self.executor.instruction_executor.is_write_output(&bare_instruction.opcode) {
            let base = self.executor.cpu.registers.read(bare_instruction.op_b);
            let off = self.executor.cpu.registers.read(bare_instruction.op_c as u8);
            let addr = add32(base, off);
            let value = self.executor.cpu.registers.read(bare_instruction.op_a);
            match self.output_memory.store(addr, MemAccessSize::Word, value) {
                Ok(_op) => {},
                Err(e) => {
                    return Err(VMError::MemoryFault(e));
                },
            }
            accessed_io = true;
        } else if bare_instruction.opcode.raw == DYNAMIC_RTYPE_OPCODE
            && self.executor.instruction_executor.contains(&bare_instruction.opcode) {
            return Err(VMError::HostInstruction(bare_instruction.opcode));
        } else {
            let (res, ops) = execute_bare(
                &mut self.executor.cpu,
                &mut self.data_memory,
                bare_instruction,
            )?;
            let _ = res;
            load_ops = ops.0;
            store_ops = ops.1;
            accessed_io = false;
        }
        if !accessed_io {
            let sp = self.executor.cpu.registers.read(2);
            self.memory_stats.update(&load_ops, &store_ops, sp);
        }
        if !bare_instruction.is_branch_or_jump_instruction() {
            self.executor.cpu.pc.step();
        }
        self.executor.global_clock = self.executor.global_clock + 1;
        Ok((None, Vec::new()))
    }
}

} // verus!


verus! {

/// A whole first-pass block run: the machine steps through the block's
/// instructions in order, each step one successful first-pass step.
pub open spec fn harvard_block_run(
    pre: HarvardEmulator,
    post: HarvardEmulator,
    block: Seq<Instruction>,
) -> bool
    decreases block.len(),
{
    if block.len() <= 0 {
        post == pre
    } else {
        exists|mid: HarvardEmulator|
            #![auto]
            harvard_frame(pre, mid) && harvard_step_ok(pre, mid, block[0]) && harvard_block_run(
                mid,
                post,
                block.skip(1),
            )
    }
}

/// A first-pass block run that aborts: some prefix of the block executes,
/// and the next instruction fails with exactly this error, leaving the
/// machine at the state the prefix reached.
pub open spec fn harvard_block_fails(
    pre: HarvardEmulator,
    post: HarvardEmulator,
    block: Seq<Instruction>,
    e: VMError,
) -> bool
    decreases block.len(),
{
    if block.len() <= 0 {
        false
    } else {
        (post == pre && harvard_step_err(pre, block[0], e)) || (exists|mid: HarvardEmulator|
            #![auto]
            harvard_frame(pre, mid) && harvard_step_ok(pre, mid, block[0]) && harvard_block_fails(
                mid,
                post,
                block.skip(1),
                e,
            ))
    }
}

/// Extending a block run by one successful step at its end.
proof fn lemma_harvard_run_snoc(
    pre: HarvardEmulator,
    mid: HarvardEmulator,
    post: HarvardEmulator,
    block: Seq<Instruction>,
    i: Instruction,
)
    requires
        harvard_block_run(pre, mid, block),
        harvard_frame(mid, post),
        harvard_step_ok(mid, post, i),
    ensures
        harvard_block_run(pre, post, block.push(i)),
    decreases block.len(),
{
    assert(block.push(i)[0] == if block.len() == 0 {
        i
    } else {
        block[0]
    });
    if block.len() == 0 {
        assert(block.push(i).skip(1) =~= Seq::<Instruction>::empty());
        assert(harvard_block_run(post, post, block.push(i).skip(1)));
    } else {
        let mid1 = choose|m: HarvardEmulator|
            #![auto]
            harvard_frame(pre, m) && harvard_step_ok(pre, m, block[0]) && harvard_block_run(
                m,
                mid,
                block.skip(1),
            );
        lemma_harvard_run_snoc(mid1, mid, post, block.skip(1), i);
        assert(block.push(i).skip(1) =~= block.skip(1).push(i));
    }
}

/// A run of a block prefix followed by a failing step aborts the block
/// with that step's error.
proof fn lemma_harvard_fails_at(
    pre: HarvardEmulator,
    mid: HarvardEmulator,
    block: Seq<Instruction>,
    k: int,
    e: VMError,
)
    requires
        0 <= k < block.len(),
        harvard_block_run(pre, mid, block.subrange(0, k)),
        harvard_step_err(mid, block[k], e),
    ensures
        harvard_block_fails(pre, mid, block, e),
    decreases k,
{
    if k == 0 {
        assert(block.subrange(0, 0) =~= Seq::<Instruction>::empty());
        assert(mid == pre);
    } else {
        let prefix = block.subrange(0, k);
        let mid1 = choose|m: HarvardEmulator|
            #![auto]
            harvard_frame(pre, m) && harvard_step_ok(pre, m, prefix[0]) && harvard_block_run(
                m,
                mid,
                prefix.skip(1),
            );
        assert(prefix[0] == block[0]);
        assert(prefix.skip(1) =~= block.skip(1).subrange(0, k - 1));
        assert(block.skip(1)[k - 1] == block[k]);
        lemma_harvard_fails_at(mid1, mid, block.skip(1), k - 1, e);
    }
}

} // verus!


verus! {

/// A successful first-pass block fetch: the machine is unchanged but for
/// the cache and the decode counter, the block is nonempty and
/// executable, and it is the cached block or, on a miss, exactly the
/// decode of the instruction memory from `pc`, which is then cached.
pub open spec fn harvard_fetch_ok(
    pre: HarvardEmulator,
    post: HarvardEmulator,
    pc: u32,
    block: Seq<Instruction>,
) -> bool {
    &&& post.executor.cpu == pre.executor.cpu
    &&& post.executor.global_clock == pre.executor.global_clock
    &&& post.executor.private_input_tape == pre.executor.private_input_tape
    &&& post.executor.instruction_executor == pre.executor.instruction_executor
    &&& post.executor.base_address == pre.executor.base_address
    &&& post.executor.entrypoint == pre.executor.entrypoint
    &&& post.instruction_memory == pre.instruction_memory
    &&& post.input_memory == pre.input_memory
    &&& post.output_memory == pre.output_memory
    &&& post.data_memory == pre.data_memory
    &&& post.memory_stats == pre.memory_stats
    &&& block.len() > 0
    &&& block_wf(block)
    &&& post.executor.basic_block_cache.spec_get(pc) == Some(block)
    &&& (match pre.executor.basic_block_cache.spec_get(pc) {
        Some(b) => block == b && post.executor.basic_block_cache
            == pre.executor.basic_block_cache && post.executor.block_decode_count
            == pre.executor.block_decode_count,
        None => {
            &&& block == spec_block_decode(pre.instruction_memory.spec_segment(pc, None))
            &&& post.executor.block_decode_count == (if pre.executor.block_decode_count
                < usize::MAX {
                pre.executor.block_decode_count + 1
            } else {
                pre.executor.block_decode_count as int
            })
            &&& (forall|q: u32|
                q != pc ==> post.executor.basic_block_cache.spec_get(q)
                    == pre.executor.basic_block_cache.spec_get(q))
        },
    })
}

/// A failing first-pass block fetch: the program counter has left the
/// code, so the cache holds nothing for it and the decode from the
/// instruction memory is empty.
pub open spec fn harvard_fetch_err(pre: HarvardEmulator, pc: u32, e: VMError) -> bool {
    &&& e == VMError::VMOutOfInstructions
    &&& pre.executor.basic_block_cache.spec_get(pc) is None
    &&& spec_block_decode(pre.instruction_memory.spec_segment(pc, None)).len() == 0
}

/// A whole first-pass run that ends with this error after finitely many
/// blocks: at each round the machine fetches the block at its program
/// counter and executes it; the run ends when a fetch leaves the code or
/// a step fails.
pub open spec fn harvard_run_fails(
    pre: HarvardEmulator,
    post: HarvardEmulator,
    e: VMError,
    fuel: nat,
) -> bool
    decreases fuel,
{
    if fuel == 0 {
        false
    } else {
        ||| (post == pre && harvard_fetch_err(pre, pre.executor.cpu.pc.value, e))
        ||| (exists|mid: HarvardEmulator, block: Seq<Instruction>|
            #![auto]
            harvard_fetch_ok(pre, mid, pre.executor.cpu.pc.value, block) && harvard_block_fails(
                mid,
                post,
                block,
                e,
            ))
        ||| (exists|mid1: HarvardEmulator, mid2: HarvardEmulator, block: Seq<Instruction>|
            #![auto]
            harvard_fetch_ok(pre, mid1, pre.executor.cpu.pc.value, block) && harvard_block_run(
                mid1,
                mid2,
                block,
            ) && harvard_run_fails(mid2, post, e, (fuel - 1) as nat))
    }
}

/// A first-pass run that reaches a state after finitely many whole
/// fetched blocks.
pub open spec fn harvard_run_reaches(pre: HarvardEmulator, post: HarvardEmulator, fuel: nat) -> bool
    decreases fuel,
{
    if post == pre {
        true
    } else if fuel == 0 {
        false
    } else {
        exists|mid1: HarvardEmulator, mid2: HarvardEmulator, block: Seq<Instruction>|
            #![auto]
            harvard_fetch_ok(pre, mid1, pre.executor.cpu.pc.value, block) && harvard_block_run(
                mid1,
                mid2,
                block,
            ) && harvard_run_reaches(mid2, post, (fuel - 1) as nat)
    }
}

/// Extending a reached run by one fetched and fully executed block.
proof fn lemma_harvard_reaches_snoc(
    pre: HarvardEmulator,
    mid: HarvardEmulator,
    m1: HarvardEmulator,
    m2: HarvardEmulator,
    fuel: nat,
    block: Seq<Instruction>,
)
    requires
        harvard_run_reaches(pre, mid, fuel),
        harvard_fetch_ok(mid, m1, mid.executor.cpu.pc.value, block),
        harvard_block_run(m1, m2, block),
    ensures
        harvard_run_reaches(pre, m2, fuel + 1),
    decreases fuel,
{
    if mid == pre {
        assert(harvard_run_reaches(m2, m2, fuel));
    } else {
        let (mid1, mid2, b) = choose|mid1: HarvardEmulator, mid2: HarvardEmulator, b: Seq<
            Instruction,
        >|
            #![auto]
            harvard_fetch_ok(pre, mid1, pre.executor.cpu.pc.value, b) && harvard_block_run(
                mid1,
                mid2,
                b,
            ) && harvard_run_reaches(mid2, mid, (fuel - 1) as nat);
        lemma_harvard_reaches_snoc(mid2, mid, m1, m2, (fuel - 1) as nat, block);
    }
}

/// A reached run whose next fetch leaves the code fails with that error.
proof fn lemma_harvard_reaches_fetch_err(
    pre: HarvardEmulator,
    mid: HarvardEmulator,
    fuel: nat,
    e: VMError,
)
    requires
        harvard_run_reaches(pre, mid, fuel),
        harvard_fetch_err(mid, mid.executor.cpu.pc.value, e),
    ensures
        harvard_run_fails(pre, mid, e, fuel + 1),
    decreases fuel,
{
    if mid == pre {
    } else {
        let (mid1, mid2, b) = choose|mid1: HarvardEmulator, mid2: HarvardEmulator, b: Seq<
            Instruction,
        >|
            #![auto]
            harvard_fetch_ok(pre, mid1, pre.executor.cpu.pc.value, b) && harvard_block_run(
                mid1,
                mid2,
                b,
            ) && harvard_run_reaches(mid2, mid, (fuel - 1) as nat);
        lemma_harvard_reaches_fetch_err(mid2, mid, (fuel - 1) as nat, e);
    }
}

/// A reached run whose next fetched block aborts fails with that error.
proof fn lemma_harvard_reaches_block_fails(
    pre: HarvardEmulator,
    mid: HarvardEmulator,
    m1: HarvardEmulator,
    post: HarvardEmulator,
    fuel: nat,
    block: Seq<Instruction>,
    e: VMError,
)
    requires
        harvard_run_reaches(pre, mid, fuel),
        harvard_fetch_ok(mid, m1, mid.executor.cpu.pc.value, block),
        harvard_block_fails(m1, post, block, e),
    ensures
        harvard_run_fails(pre, post, e, fuel + 1),
    decreases fuel,
{
    if mid == pre {
    } else {
        let (mid1, mid2, b) = choose|mid1: HarvardEmulator, mid2: HarvardEmulator, b: Seq<
            Instruction,
        >|
            #![auto]
            harvard_fetch_ok(pre, mid1, pre.executor.cpu.pc.value, b) && harvard_block_run(
                mid1,
                mid2,
                b,
            ) && harvard_run_reaches(mid2, mid, (fuel - 1) as nat);
        lemma_harvard_reaches_block_fails(mid2, mid, m1, post, (fuel - 1) as nat, block, e);
    }
}

} // verus!

verus! {

impl HarvardEmulator {
    /// Fetches the basic block starting at `pc`: a cache hit returns a copy
    /// of the cached block and decodes nothing; a miss decodes from the
    /// instruction memory, counts one decode, and caches the block. An
    /// empty decode means the program counter left the code segment.
    #[verifier::rlimit(60)]
    #[verifier::spinoff_prover]
    pub fn fetch_block(&mut self, pc: u32) -> (r: Result<BasicBlock, VMError>)
        requires
            old(self).wf(),
        ensures
            final(self).wf(),
            match r {
                Ok(block) => harvard_fetch_ok(*old(self), *final(self), pc, block@),
                Err(e) => *final(self) == *old(self) && harvard_fetch_err(*old(self), pc, e),
            },
    {
        match self.executor.basic_block_cache.find(pc) {
            Some(i) => {
                let block = self.executor.basic_block_cache.entries[i].1.duplicate();
                Ok(block)
            },
            None => {
                let seg = self.instruction_memory.segment(pc, None);
                let block = decode_until_end_of_a_block(&seg);
                if block.is_empty() {
                    return Err(VMError::VMOutOfInstructions);
                }
                proof {
                    lemma_block_decode_wf(seg@);
                }
                let copy = block.duplicate();
                if self.executor.block_decode_count < usize::MAX {
                    self.executor.block_decode_count = self.executor.block_decode_count + 1;
                }
                self.executor.basic_block_cache.insert(pc, block);
                Ok(copy)
            },
        }
    }

    /// Executes every instruction of a block in order, collecting the
    /// per-instruction results and (empty, in this pass) memory records.
    /// The first error aborts the block.
    pub fn execute_basic_block(&mut self, basic_block: &BasicBlock) -> (r: Result<
        (Vec<InstructionResult>, MemoryTranscript),
        VMError,
    >)
        requires
            old(self).wf(),
            block_wf(basic_block@),
        ensures
            final(self).wf(),
            final(self).instruction_memory == old(self).instruction_memory,
            final(self).input_memory == old(self).input_memory,
            final(self).executor.basic_block_cache == old(self).executor.basic_block_cache,
            final(self).executor.block_decode_count == old(self).executor.block_decode_count,
            match r {
                Ok((results, transcript)) => {
                    &&& results@.len() == basic_block@.len()
                    &&& transcript@.len() == basic_block@.len()
                    &&& final(self).executor.global_clock == old(self).executor.global_clock
                        + basic_block@.len()
                    &&& (forall|j: int|
                        0 <= j < basic_block@.len() ==> (#[trigger] results@[j]) is None
                            && transcript@[j]@.len() == 0)
                    &&& harvard_block_run(*old(self), *final(self), basic_block@)
                },
                Err(e) => harvard_block_fails(*old(self), *final(self), basic_block@, e),
            },
    {
        let mut results: Vec<InstructionResult> = Vec::new();
        let mut transcript: MemoryTranscript = Vec::new();
        let mut k: usize = 0;
        while k < basic_block.0.len()
            invariant
                k <= basic_block.0@.len(),
                block_wf(basic_block.0@),
                self.wf(),
                results@.len() == k,
                transcript@.len() == k,
                forall|j: int|
                    0 <= j < k ==> (#[trigger] results@[j]) is None && transcript@[j]@.len() == 0,
                self.executor.global_clock == old(self).executor.global_clock + k,
                self.instruction_memory == old(self).instruction_memory,
                self.input_memory == old(self).input_memory,
                self.executor.basic_block_cache == old(self).executor.basic_block_cache,
                self.executor.block_decode_count == old(self).executor.block_decode_count,
                harvard_block_run(*old(self), *self, basic_block.0@.subrange(0, k as int)),
            decreases basic_block.0@.len() - k,
        {
            let instruction = &basic_block.0[k];
            let ghost pre_step = *self;
            let step = self.execute_instruction(instruction);
            match step {
                Ok((res, mem)) => {
                    proof {
                        lemma_harvard_run_snoc(
                            *old(self),
                            pre_step,
                            *self,
                            basic_block.0@.subrange(0, k as int),
                            basic_block.0@[k as int],
                        );
                        assert(basic_block.0@.subrange(0, k as int + 1)
                            =~= basic_block.0@.subrange(0, k as int).push(
                            basic_block.0@[k as int],
                        ));
                    }
                    results.push(res);
                    transcript.push(mem);
                    k = k + 1;
                },
                Err(e) => {
                    proof {
                        lemma_harvard_fails_at(
                            *old(self),
                            *self,
                            basic_block.0@,
                            k as int,
                            e,
                        );
                    }
                    return Err(e);
                },
            }
        }
        proof {
            assert(basic_block.0@.subrange(0, basic_block.0@.len() as int) =~= basic_block.0@);
        }
        Ok((results, transcript))
    }

    /// Runs the program from the current program counter until a terminal
    /// error: `VMExited` on clean exit, `VMOutOfInstructions` when the
    /// program counter leaves the code, or the first instruction error.
    pub fn execute(&mut self) -> (r: Result<(Vec<InstructionResult>, MemoryTranscript), VMError>)
        requires
            old(self).wf(),
        ensures
            final(self).wf(),
            match r {
                Ok(_) => false,
                Err(e) => exists|fuel: nat|
                    harvard_run_fails(*old(self), *final(self), e, fuel),
            },
    {
        let mut results: Vec<InstructionResult> = Vec::new();
        let mut transcript: MemoryTranscript = Vec::new();
        let ghost mut fuel: nat = 0;
        loop
            invariant
                self.wf(),
                harvard_run_reaches(*old(self), *self, fuel),
            decreases usize::MAX - self.executor.global_clock,
        {
            let pc = self.executor.cpu.pc.value;
            let ghost pre_fetch = *self;
            let basic_block = match self.fetch_block(pc) {
                Ok(b) => b,
                Err(e) => {
                    proof {
                        lemma_harvard_reaches_fetch_err(*old(self), *self, fuel, e);
                    }
                    return Err(e);
                },
            };
            let ghost pre_block = *self;
            let (mut res, mut mem) = match self.execute_basic_block(&basic_block) {
                Ok(v) => v,
                Err(e) => {
                    proof {
                        lemma_harvard_reaches_block_fails(
                            *old(self),
                            pre_fetch,
                            pre_block,
                            *self,
                            fuel,
                            basic_block@,
                            e,
                        );
                    }
                    return Err(e);
                },
            };
            proof {
                lemma_harvard_reaches_snoc(
                    *old(self),
                    pre_fetch,
                    pre_block,
                    *self,
                    fuel,
                    basic_block@,
                );
                fuel = fuel + 1;
            }
            results.append(&mut res);
            transcript.append(&mut mem);
        }
    }
}

} // verus!

verus! {

/// Packs an (address, word) image into a dense word vector of length `n`
/// based at `base`: listed words at their offsets, zeros elsewhere.
fn pack_words(entries: &Vec<(u32, u32)>, base: u32, n: usize) -> (r: Vec<u32>)
    requires
        base % 4 == 0,
        forall|i: int, j: int| 0 <= i < j < entries@.len() ==> entries@[i].0 < entries@[j].0,
        forall|i: int|
            0 <= i < entries@.len() ==> (#[trigger] entries@[i].0) % 4 == 0 && entries@[i].0
                >= base && (entries@[i].0 - base) / 4 < n,
    ensures
        r@.len() == n,
        forall|i: int|
            0 <= i < entries@.len() ==> r@[((#[trigger] entries@[i].0) - base) as int / 4]
                == entries@[i].1,
        forall|j: int|
            0 <= j < n && (forall|i: int|
                0 <= i < entries@.len() ==> ((#[trigger] entries@[i].0) - base) as int / 4 != j)
                ==> r@[j] == 0,
{
    let mut out: Vec<u32> = Vec::new();
    let mut z: usize = 0;
    while z < n
        invariant
            z <= n,
            out@.len() == z,
            forall|j: int| 0 <= j < z ==> out@[j] == 0,
        decreases n - z,
    {
        out.push(0);
        z = z + 1;
    }
    let mut k: usize = 0;
    while k < entries.len()
        invariant
            k <= entries@.len(),
            out@.len() == n,
            base % 4 == 0,
            forall|i: int, j: int| 0 <= i < j < entries@.len() ==> entries@[i].0 < entries@[j].0,
            forall|i: int|
                0 <= i < entries@.len() ==> (#[trigger] entries@[i].0) % 4 == 0 && entries@[i].0
                    >= base && (entries@[i].0 - base) / 4 < n,
            forall|i: int|
                0 <= i < k ==> out@[((#[trigger] entries@[i].0) - base) as int / 4]
                    == entries@[i].1,
            forall|j: int|
                0 <= j < n && (forall|i: int|
                    0 <= i < k ==> ((#[trigger] entries@[i].0) - base) as int / 4 != j) ==> out@[j]
                    == 0,
        decreases entries@.len() - k,
    {
        let (addr, value) = entries[k];
        let idx = ((addr - base) / 4) as usize;
        out.set(idx, value);
        proof {
            assert forall|i: int|
                0 <= i < k implies ((#[trigger] entries@[i].0) - base) as int / 4 != (addr
                - base) as int / 4 by {
                assert(entries@[i].0 < addr);
                assert(entries@[i].0 + 4 <= addr);
                assert((entries@[i].0 - base) as int / 4 < (addr - base) as int / 4);
            }
        }
        k = k + 1;
    }
    out
}

/// The public input as placed in memory: its little-endian length word,
/// then its bytes.
pub open spec fn input_with_len(s: Seq<u8>) -> Seq<u8> {
    seq![
        (s.len() as u32 % 0x100) as u8,
        ((s.len() as u32 / 0x100) % 0x100) as u8,
        ((s.len() as u32 / 0x10000) % 0x100) as u8,
        ((s.len() as u32 / 0x1000000) % 0x100) as u8,
    ] + s
}

/// The end of static data in a program image: the last read-write word,
/// the last read-only word, or the end of the code, whichever is highest.
pub open spec fn spec_data_end(elf: ElfFile) -> u32 {
    let de0: int = if elf.ram_image@.len() > 0 {
        elf.ram_image@.last().0 as int
    } else {
        elf.base + 4 * elf.instructions@.len()
    };
    let de1: int = if elf.rom_image@.len() > 0 && elf.rom_image@.last().0 > de0 {
        elf.rom_image@.last().0 as int
    } else {
        de0
    };
    de1 as u32
}

impl HarvardEmulator {
    /// Builds the first-pass machine from a program image: the code as a
    /// read-only instruction memory, the read-write image as growable data
    /// memory overlaid with the read-only image, the public input (with
    /// its length word) as input memory, and a fresh output memory. The
    /// program counter starts at the image's entry point.
    pub fn from_elf(elf: ElfFile, public_input: &[u8], private_input: &[u8]) -> (r: HarvardEmulator)
        requires
            elf.wf(),
            elf.base + 4 * elf.instructions@.len() < 0x1_0000_0000,
            public_input@.len() + 8 < 0x1_0000_0000,
            elf.rom_image@.len() > 0 ==> elf.rom_image@[0].0 >= 0x88 || elf.rom_image@.last().0
                + 4 <= 0x80,
        ensures
            r.wf(),
            r.executor.cpu.pc.value == elf.entry,
            r.executor.entrypoint == elf.entry,
            r.executor.base_address == elf.base,
            r.executor.global_clock == 1,
            r.executor.basic_block_cache.entries@.len() == 0,
            r.executor.block_decode_count == 0,
            r.executor.private_input_tape@ == private_input@,
            forall|k: u8| 0 < k < 32 ==> r.executor.cpu.registers.spec_read(k) == 0,
            r.instruction_memory.mode == Mode::ReadOnly,
            r.instruction_memory.base == elf.base,
            r.instruction_memory.words@ == elf.instructions@,
            r.input_memory.mode == Mode::ReadOnly,
            r.input_memory.base == 0,
            r.input_memory.words@.len() == (public_input@.len() + 4 + 3) as int / 4,
            forall|j: int|
                0 <= j < r.input_memory.words@.len() ==> r.input_memory.words@[j]
                    == crate::memory::word_from_bytes(input_with_len(public_input@), j),
            r.output_memory.mode == Mode::WriteOnly,
            r.output_memory.cells@.len() == 0,
            r.data_memory.variable is Some,
            r.data_memory.variable->0.mode == Mode::ReadWrite,
            r.data_memory.variable->0.cells@ == elf.ram_image@,
            r.memory_stats == (crate::layout::MemoryStats {
                max_heap_access: spec_data_end(elf),
                min_stack_access: crate::layout::MEMORY_TOP,
            }),
    {
        let text_end: u32 = elf.base + 4 * (elf.instructions.len() as u32);
        let mut data_end: u32 = if elf.ram_image.len() > 0 {
            elf.ram_image[elf.ram_image.len() - 1].0
        } else {
            text_end
        };
        let mut ram_cells: Vec<(u32, u32)> = Vec::new();
        let mut ci: usize = 0;
        while ci < elf.ram_image.len()
            invariant
                ci <= elf.ram_image@.len(),
                ram_cells@ == elf.ram_image@.subrange(0, ci as int),
            decreases elf.ram_image@.len() - ci,
        {
            ram_cells.push(elf.ram_image[ci]);
            ci = ci + 1;
        }
        proof {
            assert(ram_cells@ =~= elf.ram_image@);
        }
        let mut data_memory = UnifiedMemory::from_variable(
            VariableMemory { mode: Mode::ReadWrite, cells: ram_cells },
        );
        if elf.rom_image.len() > 0 {
            let ro_base = elf.rom_image[0].0;
            let ro_last = elf.rom_image[elf.rom_image.len() - 1].0;
            proof {
                assert forall|i: int|
                    0 <= i < elf.rom_image@.len() implies (#[trigger] elf.rom_image@[i].0)
                    >= ro_base && elf.rom_image@[i].0 <= ro_last by {
                    if i > 0 {
                        assert(elf.rom_image@[0].0 < elf.rom_image@[i].0);
                    }
                    if i < elf.rom_image@.len() - 1 {
                        assert(elf.rom_image@[i].0 < elf.rom_image@[elf.rom_image@.len() - 1].0);
                    }
                }
            }
            let n = (((ro_last - ro_base) / 4) + 1) as usize;
            let ro_words = pack_words(&elf.rom_image, ro_base, n);
            let ro_mem = FixedMemory::from_vec(Mode::ReadOnly, ro_base, 4 * n, ro_words);
            if ro_last > data_end {
                data_end = ro_last;
            }
            let res = data_memory.add_fixed(ro_mem, Mode::ReadOnly);
            proof {
                if res is Err {
                    assert(false);
                }
            }
        }
        let ptr_words: Vec<u32> = vec![0u32, 0u32];
        let ptr_mem = FixedMemory::from_words(Mode::ReadOnly, 0x80, 8, &ptr_words);
        let res2 = data_memory.add_fixed(ptr_mem, Mode::ReadOnly);
        proof {
            if res2 is Err {
                assert(false);
            }
        }
        let n_in: u32 = public_input.len() as u32;
        let mut combined: Vec<u8> = Vec::new();
        combined.push((n_in % 0x100) as u8);
        combined.push(((n_in / 0x100) % 0x100) as u8);
        combined.push(((n_in / 0x10000) % 0x100) as u8);
        combined.push(((n_in / 0x1000000) % 0x100) as u8);
        let mut bi: usize = 0;
        while bi < public_input.len()
            invariant
                bi <= public_input@.len(),
                public_input@.len() + 8 < 0x1_0000_0000,
                n_in == public_input@.len(),
                combined@ == input_with_len(public_input@).subrange(0, 4 + bi as int),
            decreases public_input@.len() - bi,
        {
            proof {
                assert(input_with_len(public_input@)[4 + bi as int] == public_input@[bi as int]);
                assert(input_with_len(public_input@).subrange(0, 4 + bi as int + 1)
                    =~= input_with_len(public_input@).subrange(0, 4 + bi as int).push(
                    public_input@[bi as int],
                ));
            }
            combined.push(public_input[bi]);
            bi = bi + 1;
        }
        proof {
            assert(combined@ =~= input_with_len(public_input@));
        }
        let input_memory = FixedMemory::from_bytes(Mode::ReadOnly, 0, &combined);
        let mut executor = Executor::new();
        executor.private_input_tape = slice_to_vec(private_input);
        executor.base_address = elf.base;
        executor.entrypoint = elf.entry;
        executor.cpu.pc.value = elf.entry;
        let instruction_memory = FixedMemory::from_vec(
            Mode::ReadOnly,
            elf.base,
            4 * elf.instructions.len(),
            elf.instructions,
        );
        HarvardEmulator {
            executor,
            instruction_memory,
            input_memory,
            output_memory: VariableMemory::new(Mode::WriteOnly),
            data_memory,
            memory_stats: crate::layout::MemoryStats::new(data_end, crate::layout::MEMORY_TOP),
        }
    }
}

} // verus!

verus! {

/// First entry at or after `k` holding the given address.
pub open spec fn find_ts_from(entries: Seq<(u32, usize)>, addr: u32, k: int) -> Option<int>
    decreases entries.len() - k,
{
    if k < 0 || k >= entries.len() {
        None
    } else if entries[k].0 == addr {
        Some(k)
    } else {
        find_ts_from(entries, addr, k + 1)
    }
}

/// The last access clock of each byte address, zero when never accessed.
#[derive(Debug, PartialEq, Eq)]
pub struct TimestampMap {
    pub entries: Vec<(u32, usize)>,
}

impl TimestampMap {
    /// Addresses occur at most once.
    pub open spec fn wf(self) -> bool {
        forall|i: int, j: int|
            0 <= i < j < self.entries@.len() ==> self.entries@[i].0 != self.entries@[j].0
    }

    /// The last access clock of an address, zero when never accessed.
    pub open spec fn spec_get(self, addr: u32) -> usize {
        match find_ts_from(self.entries@, addr, 0) {
            Some(i) => self.entries@[i].1,
            None => 0,
        }
    }

    /// An empty map.
    pub fn new() -> (r: TimestampMap)
        ensures
            r.wf(),
            r.entries@.len() == 0,
            forall|a: u32| r.spec_get(a) == 0,
    {
        TimestampMap { entries: Vec::new() }
    }

    /// The last access clock of an address, zero when never accessed.
    pub fn get(&self, addr: u32) -> (r: usize)
        ensures
            r == self.spec_get(addr),
    {
        let mut i: usize = 0;
        while i < self.entries.len()
            invariant
                i <= self.entries@.len(),
                find_ts_from(self.entries@, addr, 0) == find_ts_from(
                    self.entries@,
                    addr,
                    i as int,
                ),
            decreases self.entries@.len() - i,
        {
            if self.entries[i].0 == addr {
                return self.entries[i].1;
            }
            i = i + 1;
        }
        0
    }

    /// Records the clock of an access; every other address keeps its clock.
    pub fn set(&mut self, addr: u32, clock: usize)
        requires
            old(self).wf(),
        ensures
            final(self).wf(),
            final(self).spec_get(addr) == clock,
            forall|a: u32| a != addr ==> final(self).spec_get(a) == old(self).spec_get(a),
    {
        let mut i: usize = 0;
        while i < self.entries.len()
            invariant
                i <= self.entries@.len(),
                old(self).wf(),
                *self == *old(self),
                find_ts_from(self.entries@, addr, 0) == find_ts_from(
                    self.entries@,
                    addr,
                    i as int,
                ),
            decreases self.entries@.len() - i,
        {
            if self.entries[i].0 == addr {
                let ghost pre = self.entries@;
                self.entries.set(i, (addr, clock));
                proof {
                    lemma_ts_update(pre, self.entries@, addr, clock, i as int);
                }
                return ;
            }
            i = i + 1;
        }
        let ghost pre = self.entries@;
        proof {
            lemma_ts_none_all(pre, addr, 0);
        }
        self.entries.push((addr, clock));
        proof {
            lemma_ts_push_found(pre, addr, clock, 0);
            assert forall|a: u32| a != addr implies final(self).spec_get(a) == old(
                self,
            ).spec_get(a) by {
                lemma_ts_push_other(pre, addr, clock, a, 0);
                if find_ts_from(self.entries@, a, 0) is Some {
                    let k = find_ts_from(self.entries@, a, 0)->Some_0;
                    lemma_ts_found(self.entries@, a, 0, k);
                    assert(k < pre.len());
                }
            }
        }
    }
}

/// Where a key was found, the entry there holds it.
proof fn lemma_ts_found(entries: Seq<(u32, usize)>, addr: u32, k: int, i: int)
    requires
        0 <= k,
        find_ts_from(entries, addr, k) == Some(i),
    ensures
        k <= i < entries.len(),
        entries[i].0 == addr,
    decreases entries.len() - k,
{
    if k < entries.len() && entries[k].0 != addr {
        lemma_ts_found(entries, addr, k + 1, i);
    }
}

/// A key never found occurs in no entry.
proof fn lemma_ts_none_all(entries: Seq<(u32, usize)>, addr: u32, k: int)
    requires
        0 <= k,
        find_ts_from(entries, addr, k) is None,
    ensures
        forall|a: int| k <= a < entries.len() ==> entries[a].0 != addr,
    decreases entries.len() - k,
{
    if k < entries.len() {
        lemma_ts_none_all(entries, addr, k + 1);
    }
}

/// Updating the found entry keeps the map's shape and every other key.
proof fn lemma_ts_update(pre: Seq<(u32, usize)>, post: Seq<(u32, usize)>, addr: u32, clock: usize, i: int)
    requires
        forall|a: int, b: int| 0 <= a < b < pre.len() ==> pre[a].0 != pre[b].0,
        0 <= i < pre.len(),
        pre[i].0 == addr,
        post == pre.update(i, (addr, clock)),
    ensures
        forall|a: int, b: int| 0 <= a < b < post.len() ==> post[a].0 != post[b].0,
        find_ts_from(post, addr, 0) == Some(i),
        forall|a: u32|
            a != addr ==> match #[trigger] find_ts_from(post, a, 0) {
                Some(k) => find_ts_from(pre, a, 0) == Some(k) && post[k].1 == pre[k].1,
                None => find_ts_from(pre, a, 0) is None,
            },
{
    assert forall|a: int, b: int| 0 <= a < b < post.len() implies post[a].0 != post[b].0 by {
        assert(post[a].0 == pre[a].0 && post[b].0 == pre[b].0);
    }
    lemma_ts_find_prefix(pre, post, addr, 0, i);
    assert forall|a: u32| a != addr implies match #[trigger] find_ts_from(post, a, 0) {
        Some(k) => find_ts_from(pre, a, 0) == Some(k) && post[k].1 == pre[k].1,
        None => find_ts_from(pre, a, 0) is None,
    } by {
        lemma_ts_same_keys(pre, post, a, 0);
        if find_ts_from(post, a, 0) is Some {
            let k = find_ts_from(post, a, 0)->Some_0;
            lemma_ts_found(post, a, 0, k);
            assert(k != i);
        }
    }
}

/// Equal keys in equal places find every key at the same position.
proof fn lemma_ts_same_keys(pre: Seq<(u32, usize)>, post: Seq<(u32, usize)>, a: u32, k: int)
    requires
        0 <= k,
        pre.len() == post.len(),
        forall|x: int| 0 <= x < pre.len() ==> pre[x].0 == post[x].0,
    ensures
        find_ts_from(pre, a, k) == find_ts_from(post, a, k),
    decreases pre.len() - k,
{
    if k < pre.len() {
        lemma_ts_same_keys(pre, post, a, k + 1);
    }
}

/// Finding a key after an update at the position where it already stood.
proof fn lemma_ts_find_prefix(pre: Seq<(u32, usize)>, post: Seq<(u32, usize)>, addr: u32, k: int, i: int)
    requires
        0 <= k <= i < pre.len(),
        forall|a: int, b: int| 0 <= a < b < pre.len() ==> pre[a].0 != pre[b].0,
        pre[i].0 == addr,
        post.len() == pre.len(),
        forall|x: int| 0 <= x < pre.len() && x != i ==> post[x] == pre[x],
        post[i].0 == addr,
    ensures
        find_ts_from(post, addr, k) == Some(i),
    decreases pre.len() - k,
{
    if k == i {
    } else {
        assert(pre[k].0 != addr);
        lemma_ts_find_prefix(pre, post, addr, k + 1, i);
    }
}

/// After a push of a fresh key, that key is found at the end.
proof fn lemma_ts_push_found(pre: Seq<(u32, usize)>, addr: u32, clock: usize, k: int)
    requires
        0 <= k <= pre.len(),
        find_ts_from(pre, addr, k) is None,
    ensures
        find_ts_from(pre.push((addr, clock)), addr, k) == Some(pre.len() as int),
    decreases pre.len() - k,
{
    if k < pre.len() {
        lemma_ts_push_found(pre, addr, clock, k + 1);
    } else {
        assert(pre.push((addr, clock))[k].0 == addr);
    }
}

/// A push of one key leaves searches for any other key unchanged.
proof fn lemma_ts_push_other(pre: Seq<(u32, usize)>, addr: u32, clock: usize, a: u32, k: int)
    requires
        0 <= k,
        a != addr,
    ensures
        find_ts_from(pre.push((addr, clock)), a, k) == find_ts_from(pre, a, k),
    decreases pre.len() + 1 - k,
{
    if k < pre.len() + 1 {
        if k < pre.len() {
            lemma_ts_push_other(pre, addr, clock, a, k + 1);
        } else {
            assert(pre.push((addr, clock))[k].0 == addr);
        }
    }
}

} // verus!

verus! {

/// The timestamp an access must compare against: the latest clock among
/// the exact address and, for sub-word accesses, its half-word and word
/// aligned addresses, so a narrow write cannot silently invalidate a later
/// wider read.
pub open spec fn spec_ts_prev(m: TimestampMap, size: MemAccessSize, addr: u32) -> usize {
    let half = (addr - addr % 2) as u32;
    let full = (addr - addr % 4) as u32;
    let t0 = m.spec_get(addr);
    let th = m.spec_get(half);
    let tf = m.spec_get(full);
    match size {
        MemAccessSize::Byte => if t0 >= th && t0 >= tf {
            t0
        } else if th >= tf {
            th
        } else {
            tf
        },
        MemAccessSize::HalfWord => if t0 >= tf {
            t0
        } else {
            tf
        },
        MemAccessSize::Word => t0,
    }
}

/// Whether the machine's first write-only segment is the laid-out public
/// output region: based at the exit code word and spanning exactly to the
/// output region's end. The second pass's constructors establish this.
pub open spec fn output_segment_matches(em: LinearEmulator) -> bool {
    match crate::memory::find_mode_from(em.memory.fixed@, Mode::WriteOnly, 0) {
        Some(i) => {
            &&& em.memory.fixed@[i].wf()
            &&& em.memory.fixed@[i].base == em.memory_layout.exit
            &&& em.memory.fixed@[i].words@.len() == (em.memory_layout.output_end
                - em.memory_layout.exit) as int / 4
            &&& em.memory_layout.wf()
        },
        None => false,
    }
}

/// The second-pass emulator: one unified, laid-out address space, and the
/// full memory transcript with access timestamps.
#[derive(Debug, PartialEq, Eq)]
pub struct LinearEmulator {
    pub executor: Executor,
    pub instruction_index: (usize, usize),
    pub access_timestamps: TimestampMap,
    pub memory_layout: crate::layout::LinearMemoryLayout,
    pub memory: UnifiedMemory,
}

impl LinearEmulator {
    /// Every component well formed, and every cached block executable.
    pub open spec fn wf(self) -> bool {
        &&& self.executor.wf()
        &&& cache_blocks_wf(self.executor.basic_block_cache)
        &&& self.access_timestamps.wf()
        &&& self.memory.wf()
    }

    /// Sets (or replaces) the private input tape.
    pub fn set_private_input(&mut self, private_input: &[u8])
        ensures
            final(self).executor.private_input_tape@ == private_input@,
            final(self).executor.cpu == old(self).executor.cpu,
            final(self).memory == old(self).memory,
            old(self).wf() ==> final(self).wf(),
    {
        self.executor.set_private_input(private_input);
    }

    /// Claims a custom opcode for a host-defined instruction.
    pub fn add_opcode(&mut self, op: &Opcode) -> (r: Result<(), VMError>)
        requires
            old(self).wf(),
        ensures
            final(self).wf(),
            match r {
                Ok(()) => !old(self).executor.instruction_executor.spec_registered(
                    spec_opcode_key(*op),
                ),
                Err(e) => e == VMError::DuplicateOpcode(*op),
            },
    {
        self.executor.add_opcode(op)
    }

    /// The public output region's bytes: the exit code word, then the
    /// program's output.
    pub fn get_output(&self) -> (r: Result<Vec<u8>, MemoryError>)
        requires
            self.wf(),
        ensures
            match r {
                Ok(bs) => {
                    &&& crate::memory::find_mode_from(self.memory.fixed@, Mode::WriteOnly, 0)
                        matches Some(i) && bs@ == crate::memory::bytes_of_words(
                        self.memory.fixed@[i].spec_segment(
                            self.memory_layout.exit,
                            Some(self.memory_layout.output_end),
                        ),
                    ) && (output_segment_matches(*self) ==> bs@.len()
                        == self.memory_layout.output_end - self.memory_layout.exit)
                },
                Err(e) => e == MemoryError::InvalidSegment && crate::memory::find_mode_from(
                    self.memory.fixed@,
                    Mode::WriteOnly,
                    0,
                ) is None,
            },
    {
        match self.memory.first_index_with_mode(Mode::WriteOnly) {
            Some(idx) => {
                let bs = self.memory.segment_bytes(
                    idx,
                    self.memory_layout.exit_code(),
                    Some(self.memory_layout.public_output_end()),
                )?;
                Ok(bs)
            },
            None => Err(MemoryError::InvalidSegment),
        }
    }

    /// Folds one access into the timestamp map: yields the latest clock
    /// among the overlapping aligned addresses, then records the current
    /// clock for the exact address.
    pub fn manage_timestamps(&mut self, size: &MemAccessSize, address: &u32) -> (r: usize)
        requires
            old(self).wf(),
        ensures
            final(self).wf(),
            r == spec_ts_prev(old(self).access_timestamps, *size, *address),
            final(self).access_timestamps.spec_get(*address) == old(self).executor.global_clock,
            forall|a: u32|
                a != *address ==> final(self).access_timestamps.spec_get(a) == old(
                    self,
                ).access_timestamps.spec_get(a),
            final(self).executor == old(self).executor,
            final(self).memory == old(self).memory,
            final(self).instruction_index == old(self).instruction_index,
            final(self).memory_layout == old(self).memory_layout,
    {
        let addr = *address;
        let half_aligned_address = addr - addr % 2;
        let full_aligned_address = addr - addr % 4;
        let t0 = self.access_timestamps.get(addr);
        let prev: usize = match size {
            MemAccessSize::Byte => {
                let th = self.access_timestamps.get(half_aligned_address);
                let tf = self.access_timestamps.get(full_aligned_address);
                if t0 >= th && t0 >= tf {
                    t0
                } else if th >= tf {
                    th
                } else {
                    tf
                }
            },
            MemAccessSize::HalfWord => {
                let tf = self.access_timestamps.get(full_aligned_address);
                if t0 >= tf {
                    t0
                } else {
                    tf
                }
            },
            MemAccessSize::Word => t0,
        };
        self.access_timestamps.set(addr, self.executor.global_clock);
        prev
    }
}

} // verus!

verus! {

/// What one second-pass step never touches: the registry, the block
/// cache and its counter, the code-segment index and the layout.
pub open spec fn linear_frame(pre: LinearEmulator, post: LinearEmulator) -> bool {
    &&& post.executor.instruction_executor == pre.executor.instruction_executor
    &&& post.executor.basic_block_cache == pre.executor.basic_block_cache
    &&& post.executor.block_decode_count == pre.executor.block_decode_count
    &&& post.instruction_index == pre.instruction_index
    &&& post.memory_layout == pre.memory_layout
    &&& post.executor.base_address == pre.executor.base_address
    &&& post.executor.entrypoint == pre.executor.entrypoint
}

/// One successful second-pass step: the program counter and clock
/// advance, and per dispatch path — system call, custom input or output,
/// or the shared semantics — the registers, the unified memory, the tape,
/// the timestamp map and the emitted records change exactly as that path
/// prescribes.
pub open spec fn linear_step_ok(
    pre: LinearEmulator,
    post: LinearEmulator,
    i: Instruction,
    res: InstructionResult,
    records: Seq<MemoryRecord>,
) -> bool {
    &&& linear_step_core(pre, post, i)
    &&& linear_step_bare(pre, post, i, res, records)
    &&& linear_step_system(pre, post, i, res, records)
    &&& linear_step_rin(pre, post, i, res, records)
    &&& linear_step_wou(pre, post, i, res, records)
}

/// The clock and program-counter part of one successful second-pass step.
pub open spec fn linear_step_core(pre: LinearEmulator, post: LinearEmulator, i: Instruction) -> bool {
    let cpu0 = pre.executor.cpu;
    &&& !spec_is_host_custom(pre.executor.instruction_executor, i.opcode)
    &&& pre.executor.global_clock < usize::MAX
    &&& post.executor.global_clock == pre.executor.global_clock + 1
    &&& post.executor.cpu.pc.value == (if i.spec_is_branch_or_jump() {
        spec_execute_bare(cpu0, pre.memory, i).3
    } else {
        spec_add32(cpu0.pc.value, 4)
    })
}

/// The shared-semantics part of one successful second-pass step.
pub open spec fn linear_step_bare(
    pre: LinearEmulator,
    post: LinearEmulator,
    i: Instruction,
    res: InstructionResult,
    records: Seq<MemoryRecord>,
) -> bool {
    let cpu0 = pre.executor.cpu;
    let clock0 = pre.executor.global_clock;
    !i.spec_is_system() && !spec_is_rin(i.opcode) && !spec_is_wou(i.opcode)
        && !spec_is_host_custom(pre.executor.instruction_executor, i.opcode) ==> {
        let outcome = spec_execute_bare(cpu0, pre.memory, i);
        &&& outcome.0 is None
        &&& res == outcome.1
        &&& post.executor.cpu.registers.regs@ == outcome.2
        &&& spec_mem_after(cpu0, pre.memory, post.memory, i)
        &&& records.len() == outcome.4.len() + outcome.5.len()
        &&& (outcome.4.len() == 1 && outcome.5.len() == 0 ==> records == seq![
            MemoryRecord {
                address: outcome.4[0].address,
                size: outcome.4[0].size,
                value_before: outcome.4[0].value,
                value_after: outcome.4[0].value,
                timestamp_prev: spec_ts_prev(
                    pre.access_timestamps,
                    outcome.4[0].size,
                    outcome.4[0].address,
                ),
                timestamp_cur: clock0,
            },
        ] && post.access_timestamps.spec_get(outcome.4[0].address) == clock0 && (forall|a: u32|
            a != outcome.4[0].address ==> post.access_timestamps.spec_get(a)
                == pre.access_timestamps.spec_get(a)))
        &&& (outcome.4.len() == 0 && outcome.5.len() == 1 ==> records == seq![
            MemoryRecord {
                address: outcome.5[0].address,
                size: outcome.5[0].size,
                value_before: outcome.5[0].prev_value,
                value_after: outcome.5[0].value,
                timestamp_prev: spec_ts_prev(
                    pre.access_timestamps,
                    outcome.5[0].size,
                    outcome.5[0].address,
                ),
                timestamp_cur: clock0,
            },
        ] && post.access_timestamps.spec_get(outcome.5[0].address) == clock0 && (forall|a: u32|
            a != outcome.5[0].address ==> post.access_timestamps.spec_get(a)
                == pre.access_timestamps.spec_get(a)))
        &&& (outcome.4.len() == 0 && outcome.5.len() == 0 ==> post.access_timestamps
            == pre.access_timestamps)
        &&& post.executor.private_input_tape == pre.executor.private_input_tape
    }
}

/// The system-call part of one successful second-pass step.
pub open spec fn linear_step_system(
    pre: LinearEmulator,
    post: LinearEmulator,
    i: Instruction,
    res: InstructionResult,
    records: Seq<MemoryRecord>,
) -> bool {
    let cpu0 = pre.executor.cpu;
    let regs = cpu0.registers.regs@;
    i.spec_is_system() ==> {
        &&& res is None
        &&& records.len() == 0
        &&& (regs[17] == SYSCALL_CYCLE_COUNT || regs[17] == SYSCALL_READ_PRIVATE_INPUT)
        &&& post.memory == pre.memory
        &&& post.access_timestamps == pre.access_timestamps
        &&& (regs[17] == SYSCALL_CYCLE_COUNT ==> post.executor.cpu.registers == cpu0.registers
            && post.executor.private_input_tape == pre.executor.private_input_tape)
        &&& (regs[17] == SYSCALL_READ_PRIVATE_INPUT ==> {
            let tape = pre.executor.private_input_tape@;
            let v: u32 = if tape.len() > 0 {
                tape[0] as u32
            } else {
                0xFFFF_FFFF
            };
            &&& post.executor.cpu.registers.regs@ == upd_reg(regs, 10, v)
            &&& post.executor.private_input_tape@ == (if tape.len() > 0 {
                tape.skip(1)
            } else {
                tape
            })
        })
    }
}

/// The custom input-instruction part of one successful second-pass step.
pub open spec fn linear_step_rin(
    pre: LinearEmulator,
    post: LinearEmulator,
    i: Instruction,
    res: InstructionResult,
    records: Seq<MemoryRecord>,
) -> bool {
    let regs = pre.executor.cpu.registers.regs@;
    let clock0 = pre.executor.global_clock;
    spec_is_rin(i.opcode) ==> {
        let addr = spec_add32(regs[i.op_b as int], regs[i.op_c as int]);
        &&& pre.memory.spec_load(addr, MemAccessSize::Word) matches Ok(v0) && res == Some(v0)
            && post.executor.cpu.registers.regs@ == upd_reg(regs, i.op_a, v0) && records == seq![
            MemoryRecord {
                address: addr,
                size: MemAccessSize::Word,
                value_before: v0,
                value_after: v0,
                timestamp_prev: spec_ts_prev(pre.access_timestamps, MemAccessSize::Word, addr),
                timestamp_cur: clock0,
            },
        ]
        &&& post.memory == pre.memory
        &&& post.access_timestamps.spec_get(addr) == clock0
        &&& (forall|a: u32|
            a != addr ==> post.access_timestamps.spec_get(a) == pre.access_timestamps.spec_get(a))
        &&& post.executor.private_input_tape == pre.executor.private_input_tape
    }
}

/// The custom output-instruction part of one successful second-pass step.
pub open spec fn linear_step_wou(
    pre: LinearEmulator,
    post: LinearEmulator,
    i: Instruction,
    res: InstructionResult,
    records: Seq<MemoryRecord>,
) -> bool {
    let regs = pre.executor.cpu.registers.regs@;
    let clock0 = pre.executor.global_clock;
    spec_is_wou(i.opcode) ==> {
        let addr = spec_add32(regs[i.op_b as int], regs[i.op_c as int]);
        &&& pre.memory.spec_store_err(addr, MemAccessSize::Word) is None
        &&& res is None
        &&& spec_mem_after_store(pre.memory, post.memory, addr, MemAccessSize::Word, regs[i.op_a as int])
        &&& records == seq![
            MemoryRecord {
                address: addr,
                size: MemAccessSize::Word,
                value_before: crate::memory::extract_part(
                    pre.memory.spec_word_before(addr),
                    addr % 4,
                    MemAccessSize::Word,
                ),
                value_after: crate::memory::truncate_value(
                    regs[i.op_a as int],
                    MemAccessSize::Word,
                ),
                timestamp_prev: spec_ts_prev(pre.access_timestamps, MemAccessSize::Word, addr),
                timestamp_cur: clock0,
            },
        ]
        &&& post.executor.cpu.registers == pre.executor.cpu.registers
        &&& post.access_timestamps.spec_get(addr) == clock0
        &&& (forall|a: u32|
            a != addr ==> post.access_timestamps.spec_get(a) == pre.access_timestamps.spec_get(a))
        &&& post.executor.private_input_tape == pre.executor.private_input_tape
    }
}

/// Which error one second-pass step fails with, and what it may touch:
/// only the exit system call writes memory (the exit code word) before
/// aborting; every other failure leaves the machine as it was.
pub open spec fn linear_step_err(
    pre: LinearEmulator,
    post: LinearEmulator,
    i: Instruction,
    e: VMError,
) -> bool {
    let regs = pre.executor.cpu.registers.regs@;
    let clock0 = pre.executor.global_clock;
    &&& post.executor.cpu == pre.executor.cpu
    &&& post.executor.global_clock == clock0
    &&& post.access_timestamps == pre.access_timestamps
    &&& post.executor.private_input_tape == pre.executor.private_input_tape
    &&& (clock0 == usize::MAX ==> e == VMError::CycleLimitExceeded)
    &&& (clock0 < usize::MAX ==> {
        if i.spec_is_system() {
            &&& (regs[17] == SYSCALL_EXIT ==> e == VMError::VMExited(regs[10]) && (if pre.memory.spec_store_err(
                pre.memory_layout.exit,
                MemAccessSize::Word,
            ) is None {
                spec_mem_after_store(
                    pre.memory,
                    post.memory,
                    pre.memory_layout.exit,
                    MemAccessSize::Word,
                    regs[10],
                )
            } else {
                post.memory == pre.memory
            }))
            &&& (regs[17] != SYSCALL_EXIT ==> e == VMError::UnsupportedSyscall(regs[17])
                && regs[17] != SYSCALL_CYCLE_COUNT && regs[17] != SYSCALL_READ_PRIVATE_INPUT
                && post.memory == pre.memory)
        } else if spec_is_rin(i.opcode) {
            pre.memory.spec_load(
                spec_add32(regs[i.op_b as int], regs[i.op_c as int]),
                MemAccessSize::Word,
            ) matches Err(me) && e == VMError::MemoryFault(me) && post.memory == pre.memory
        } else if spec_is_wou(i.opcode) {
            pre.memory.spec_store_err(
                spec_add32(regs[i.op_b as int], regs[i.op_c as int]),
                MemAccessSize::Word,
            ) matches Some(me) && e == VMError::MemoryFault(me) && post.memory == pre.memory
        } else if spec_is_host_custom(pre.executor.instruction_executor, i.opcode) {
            e == VMError::HostInstruction(i.opcode) && post.memory == pre.memory
        } else {
            spec_execute_bare(pre.executor.cpu, pre.memory, i).0 == Some(e) && post.memory
                == pre.memory
        }
    })
}

} // verus!

verus! {

impl LinearEmulator {
    /// Executes one instruction against the unified memory, emitting one
    /// timestamped transcript record per memory operation. The program
    /// counter advances by four unless the instruction branched or jumped,
    /// the global clock by one. Only the exit system call touches memory
    /// before failing; every other error leaves the machine untouched.
    #[verifier::rlimit(100)]
    #[verifier::spinoff_prover]
    pub fn execute_instruction(&mut self, bare_instruction: &Instruction) -> (r: Result<
        (InstructionResult, MemoryRecords),
        VMError,
    >)
        requires
            old(self).wf(),
            exec_wf_instr(*bare_instruction),
        ensures
            final(self).wf(),
            final(self).executor.instruction_executor == old(self).executor.instruction_executor,
            final(self).executor.basic_block_cache == old(self).executor.basic_block_cache,
            final(self).executor.block_decode_count == old(self).executor.block_decode_count,
            final(self).executor.base_address == old(self).executor.base_address,
            final(self).executor.entrypoint == old(self).executor.entrypoint,
            final(self).instruction_index == old(self).instruction_index,
            final(self).memory_layout == old(self).memory_layout,
            match r {
                Ok((res, records)) => linear_frame(*old(self), *final(self)) && linear_step_ok(
                    *old(self),
                    *final(self),
                    *bare_instruction,
                    res,
                    records@,
                ),
                Err(e) => linear_step_err(*old(self), *final(self), *bare_instruction, e),
            },
    {
        if self.executor.global_clock == usize::MAX {
            return Err(VMError::CycleLimitExceeded);
        }
        let res: InstructionResult;
        let mut load_ops: Vec<LoadOp> = Vec::new();
        let mut store_ops: Vec<StoreOp> = Vec::new();
        if bare_instruction.is_system_instruction() {
            let (res0, ops) = execute_syscall(
                &mut self.executor,
                &mut self.memory,
                Some(self.memory_layout),
                bare_instruction,
            )?;
            res = res0;
            load_ops = ops.0;
            store_ops = ops.1;
        } else if self.executor.instruction_executor.is_read_input(&bare_instruction.opcode) {
            let base = self.executor.cpu.registers.read(bare_instruction.op_b);
            let off = self.executor.cpu.registers.read(bare_instruction.op_c as u8);
            let addr = add32(base, off);
            match self.memory.load(addr, MemAccessSize::Word) {
                Ok((v0, op)) => {
                    self.executor.cpu.registers.write(bare_instruction.op_a, v0);
                    load_ops.push(op);
                    res = Some(v0);
                },
                Err(e) => {
                    return Err(VMError::MemoryFault(e));
                },
            }
        } else if self.executor.instruction_executor.is_write_output(&bare_instruction.opcode) {
            let base = self.executor.cpu.registers.read(bare_instruction.op_b);
            let off = self.executor.cpu.registers.read(bare_instruction.op_c as u8);
            let addr = add32(base, off);
            let value = self.executor.cpu.registers.read(bare_instruction.op_a);
            match self.memory.store(addr, MemAccessSize::Word, value) {
                Ok(op) => {
                    store_ops.push(op);
                    res = None;
                },
                Err(e) => {
                    return Err(VMError::MemoryFault(e));
                },
            }
        } else if bare_instruction.opcode.raw == DYNAMIC_RTYPE_OPCODE
            && self.executor.instruction_executor.contains(&bare_instruction.opcode) {
            return Err(VMError::HostInstruction(bare_instruction.opcode));
        } else {
            let (res0, ops) = execute_bare(
                &mut self.executor.cpu,
                &mut self.memory,
                bare_instruction,
            )?;
            res = res0;
            load_ops = ops.0;
            store_ops = ops.1;
        }
        let ghost mid = *self;
        let mut memory_records: MemoryRecords = Vec::new();
        let mut li: usize = 0;
        while li < load_ops.len()
            invariant
                li <= load_ops@.len(),
                self.wf(),
                memory_records@.len() == li,
                load_ops@.len() <= 1,
                li == 0 ==> self.access_timestamps == mid.access_timestamps,
                li == 1 && load_ops@.len() == 1 ==> memory_records@[0] == (MemoryRecord {
                    address: load_ops@[0].address,
                    size: load_ops@[0].size,
                    value_before: load_ops@[0].value,
                    value_after: load_ops@[0].value,
                    timestamp_prev: spec_ts_prev(
                        mid.access_timestamps,
                        load_ops@[0].size,
                        load_ops@[0].address,
                    ),
                    timestamp_cur: mid.executor.global_clock,
                }),
                li == 1 && load_ops@.len() == 1 ==> self.access_timestamps.spec_get(
                    load_ops@[0].address,
                ) == mid.executor.global_clock && (forall|a: u32|
                    a != load_ops@[0].address ==> self.access_timestamps.spec_get(a)
                        == mid.access_timestamps.spec_get(a)),
                self.executor == mid.executor,
                self.memory == mid.memory,
                self.memory_layout == mid.memory_layout,
                self.instruction_index == mid.instruction_index,
            decreases load_ops@.len() - li,
        {
            let op = load_ops[li];
            let prev = self.manage_timestamps(&op.size, &op.address);
            memory_records.push(op.as_record(self.executor.global_clock, prev));
            li = li + 1;
        }
        let mut si: usize = 0;
        while si < store_ops.len()
            invariant
                si <= store_ops@.len(),
                self.wf(),
                memory_records@.len() == load_ops@.len() + si,
                store_ops@.len() <= 1,
                load_ops@.len() <= 1,
                load_ops@.len() == 0 && si == 0 ==> self.access_timestamps
                    == mid.access_timestamps,
                si == 1 && store_ops@.len() == 1 && load_ops@.len() == 0 ==> memory_records@[0]
                    == (MemoryRecord {
                    address: store_ops@[0].address,
                    size: store_ops@[0].size,
                    value_before: store_ops@[0].prev_value,
                    value_after: store_ops@[0].value,
                    timestamp_prev: spec_ts_prev(
                        mid.access_timestamps,
                        store_ops@[0].size,
                        store_ops@[0].address,
                    ),
                    timestamp_cur: mid.executor.global_clock,
                }),
                load_ops@.len() == 1 && memory_records@.len() >= 1 ==> memory_records@[0]
                    == (MemoryRecord {
                    address: load_ops@[0].address,
                    size: load_ops@[0].size,
                    value_before: load_ops@[0].value,
                    value_after: load_ops@[0].value,
                    timestamp_prev: spec_ts_prev(
                        mid.access_timestamps,
                        load_ops@[0].size,
                        load_ops@[0].address,
                    ),
                    timestamp_cur: mid.executor.global_clock,
                }),
                load_ops@.len() == 1 && store_ops@.len() == 0 ==> self.access_timestamps.spec_get(
                    load_ops@[0].address,
                ) == mid.executor.global_clock && (forall|a: u32|
                    a != load_ops@[0].address ==> self.access_timestamps.spec_get(a)
                        == mid.access_timestamps.spec_get(a)),
                si == 1 && store_ops@.len() == 1 && load_ops@.len() == 0
                    ==> self.access_timestamps.spec_get(store_ops@[0].address)
                    == mid.executor.global_clock && (forall|a: u32|
                    a != store_ops@[0].address ==> self.access_timestamps.spec_get(a)
                        == mid.access_timestamps.spec_get(a)),
                self.executor == mid.executor,
                self.memory == mid.memory,
                self.memory_layout == mid.memory_layout,
                self.instruction_index == mid.instruction_index,
            decreases store_ops@.len() - si,
        {
            let op = store_ops[si];
            let prev = self.manage_timestamps(&op.size, &op.address);
            memory_records.push(op.as_record(self.executor.global_clock, prev));
            si = si + 1;
        }
        if !bare_instruction.is_branch_or_jump_instruction() {
            self.executor.cpu.pc.step();
        }
        self.executor.global_clock = self.executor.global_clock + 1;
        proof {
            let i = *bare_instruction;
            let pre = *old(self);
            assert(linear_step_core(pre, *self, i));
            assert(linear_step_system(pre, *self, i, res, memory_records@));
            if spec_is_rin(i.opcode) {
                let regs = pre.executor.cpu.registers.regs@;
                let addr = spec_add32(regs[i.op_b as int], regs[i.op_c as int]);
                assert(load_ops@.len() == 1 && store_ops@.len() == 0);
                assert(load_ops@[0].address == addr && load_ops@[0].size == MemAccessSize::Word);
                assert(memory_records@ =~= seq![
                    MemoryRecord {
                        address: addr,
                        size: MemAccessSize::Word,
                        value_before: load_ops@[0].value,
                        value_after: load_ops@[0].value,
                        timestamp_prev: spec_ts_prev(
                            pre.access_timestamps,
                            MemAccessSize::Word,
                            addr,
                        ),
                        timestamp_cur: pre.executor.global_clock,
                    },
                ]);
                assert(linear_step_rin(pre, *self, i, res, memory_records@));
            } else {
                assert(linear_step_rin(pre, *self, i, res, memory_records@));
            }
            if !i.spec_is_system() && !spec_is_rin(i.opcode) && !spec_is_wou(i.opcode) {
                let outcome = spec_execute_bare(pre.executor.cpu, pre.memory, i);
                if outcome.4.len() == 1 && outcome.5.len() == 0 {
                    assert(memory_records@ =~= seq![
                        MemoryRecord {
                            address: outcome.4[0].address,
                            size: outcome.4[0].size,
                            value_before: outcome.4[0].value,
                            value_after: outcome.4[0].value,
                            timestamp_prev: spec_ts_prev(
                                pre.access_timestamps,
                                outcome.4[0].size,
                                outcome.4[0].address,
                            ),
                            timestamp_cur: pre.executor.global_clock,
                        },
                    ]);
                }
                if outcome.4.len() == 0 && outcome.5.len() == 1 {
                    assert(memory_records@ =~= seq![
                        MemoryRecord {
                            address: outcome.5[0].address,
                            size: outcome.5[0].size,
                            value_before: outcome.5[0].prev_value,
                            value_after: outcome.5[0].value,
                            timestamp_prev: spec_ts_prev(
                                pre.access_timestamps,
                                outcome.5[0].size,
                                outcome.5[0].address,
                            ),
                            timestamp_cur: pre.executor.global_clock,
                        },
                    ]);
                }
                assert(linear_step_bare(pre, *self, i, res, memory_records@));
            } else {
                assert(linear_step_bare(pre, *self, i, res, memory_records@));
            }
            if spec_is_wou(i.opcode) {
                let regs = pre.executor.cpu.registers.regs@;
                let addr = spec_add32(regs[i.op_b as int], regs[i.op_c as int]);
                assert(store_ops@.len() == 1 && load_ops@.len() == 0);
                assert(store_ops@[0].address == addr);
                assert(store_ops@[0].value == crate::memory::truncate_value(
                    regs[i.op_a as int],
                    MemAccessSize::Word,
                ));
                assert(store_ops@[0].prev_value == crate::memory::extract_part(
                    pre.memory.spec_word_before(addr),
                    addr % 4,
                    MemAccessSize::Word,
                ));
                assert(memory_records@ =~= seq![
                    MemoryRecord {
                        address: addr,
                        size: MemAccessSize::Word,
                        value_before: crate::memory::extract_part(
                            pre.memory.spec_word_before(addr),
                            addr % 4,
                            MemAccessSize::Word,
                        ),
                        value_after: crate::memory::truncate_value(
                            regs[i.op_a as int],
                            MemAccessSize::Word,
                        ),
                        timestamp_prev: spec_ts_prev(
                            pre.access_timestamps,
                            MemAccessSize::Word,
                            addr,
                        ),
                        timestamp_cur: pre.executor.global_clock,
                    },
                ]);
                assert(linear_step_wou(pre, *self, i, res, memory_records@));
            } else {
                assert(linear_step_wou(pre, *self, i, res, memory_records@));
            }
        }
        Ok((res, memory_records))
    }
}

} // verus!


verus! {

/// A whole second-pass block run: the machine steps through the block's
/// instructions in order, each step one successful second-pass step, and
/// the collected results and record lists are exactly the steps' own.
pub open spec fn linear_block_run(
    pre: LinearEmulator,
    post: LinearEmulator,
    block: Seq<Instruction>,
    results: Seq<InstructionResult>,
    transcript: Seq<MemoryRecords>,
) -> bool
    decreases block.len(),
{
    if block.len() <= 0 {
        post == pre && results.len() == 0 && transcript.len() == 0
    } else {
        &&& results.len() == block.len()
        &&& transcript.len() == block.len()
        &&& exists|mid: LinearEmulator|
            #![auto]
            linear_frame(pre, mid) && linear_step_ok(pre, mid, block[0], results[0], transcript[0]@)
                && linear_block_run(mid, post, block.skip(1), results.skip(1), transcript.skip(1))
    }
}

/// A second-pass block run that aborts: some prefix executes, and the
/// next instruction fails with exactly this error.
pub open spec fn linear_block_fails(
    pre: LinearEmulator,
    post: LinearEmulator,
    block: Seq<Instruction>,
    e: VMError,
) -> bool
    decreases block.len(),
{
    if block.len() <= 0 {
        false
    } else {
        (linear_frame(pre, post) && linear_step_err(pre, post, block[0], e)) || (exists|
            mid: LinearEmulator,
            r0: InstructionResult,
            t0: MemoryRecords,
        |
            #![auto]
            linear_frame(pre, mid) && linear_step_ok(pre, mid, block[0], r0, t0@)
                && linear_block_fails(mid, post, block.skip(1), e))
    }
}

/// Extending a second-pass block run by one successful step at its end.
proof fn lemma_linear_run_snoc(
    pre: LinearEmulator,
    mid: LinearEmulator,
    post: LinearEmulator,
    block: Seq<Instruction>,
    results: Seq<InstructionResult>,
    transcript: Seq<MemoryRecords>,
    i: Instruction,
    r0: InstructionResult,
    t0: MemoryRecords,
)
    requires
        linear_block_run(pre, mid, block, results, transcript),
        linear_frame(mid, post),
        linear_step_ok(mid, post, i, r0, t0@),
    ensures
        linear_block_run(pre, post, block.push(i), results.push(r0), transcript.push(t0)),
    decreases block.len(),
{
    if block.len() == 0 {
        assert(block.push(i)[0] == i);
        assert(results.push(r0)[0] == r0);
        assert(transcript.push(t0)[0] == t0);
        assert(block.push(i).skip(1) =~= Seq::<Instruction>::empty());
        assert(results.push(r0).skip(1) =~= Seq::<InstructionResult>::empty());
        assert(transcript.push(t0).skip(1) =~= Seq::<MemoryRecords>::empty());
        assert(linear_block_run(
            post,
            post,
            block.push(i).skip(1),
            results.push(r0).skip(1),
            transcript.push(t0).skip(1),
        ));
    } else {
        let mid1 = choose|m: LinearEmulator|
            #![auto]
            linear_frame(pre, m) && linear_step_ok(pre, m, block[0], results[0], transcript[0]@)
                && linear_block_run(m, mid, block.skip(1), results.skip(1), transcript.skip(1));
        lemma_linear_run_snoc(
            mid1,
            mid,
            post,
            block.skip(1),
            results.skip(1),
            transcript.skip(1),
            i,
            r0,
            t0,
        );
        assert(block.push(i).skip(1) =~= block.skip(1).push(i));
        assert(results.push(r0).skip(1) =~= results.skip(1).push(r0));
        assert(transcript.push(t0).skip(1) =~= transcript.skip(1).push(t0));
        assert(block.push(i)[0] == block[0]);
        assert(results.push(r0)[0] == results[0]);
        assert(transcript.push(t0)[0] == transcript[0]);
    }
}

/// A run of a block prefix followed by a failing step aborts the block
/// with that step's error.
proof fn lemma_linear_fails_at(
    pre: LinearEmulator,
    mid: LinearEmulator,
    post: LinearEmulator,
    block: Seq<Instruction>,
    results: Seq<InstructionResult>,
    transcript: Seq<MemoryRecords>,
    k: int,
    e: VMError,
)
    requires
        0 <= k < block.len(),
        results.len() == k,
        transcript.len() == k,
        linear_block_run(pre, mid, block.subrange(0, k), results, transcript),
        linear_frame(mid, post),
        linear_step_err(mid, post, block[k], e),
    ensures
        linear_block_fails(pre, post, block, e),
    decreases k,
{
    if k == 0 {
        assert(block.subrange(0, 0) =~= Seq::<Instruction>::empty());
        assert(mid == pre);
    } else {
        let prefix = block.subrange(0, k);
        let mid1 = choose|m: LinearEmulator|
            #![auto]
            linear_frame(pre, m) && linear_step_ok(pre, m, prefix[0], results[0], transcript[0]@)
                && linear_block_run(
                m,
                mid,
                prefix.skip(1),
                results.skip(1),
                transcript.skip(1),
            );
        assert(prefix[0] == block[0]);
        assert(prefix.skip(1) =~= block.skip(1).subrange(0, k - 1));
        assert(block.skip(1)[k - 1] == block[k]);
        lemma_linear_fails_at(
            mid1,
            mid,
            post,
            block.skip(1),
            results.skip(1),
            transcript.skip(1),
            k - 1,
            e,
        );
    }
}

/// A successful second-pass block fetch, as the first pass's: unchanged
/// machine but for the cache and decode counter, the block cached or
/// freshly decoded from the code segment.
pub open spec fn linear_fetch_ok(
    pre: LinearEmulator,
    post: LinearEmulator,
    pc: u32,
    block: Seq<Instruction>,
) -> bool {
    &&& post.executor.cpu == pre.executor.cpu
    &&& post.executor.global_clock == pre.executor.global_clock
    &&& post.executor.private_input_tape == pre.executor.private_input_tape
    &&& post.executor.instruction_executor == pre.executor.instruction_executor
    &&& post.executor.base_address == pre.executor.base_address
    &&& post.executor.entrypoint == pre.executor.entrypoint
    &&& post.memory == pre.memory
    &&& post.access_timestamps == pre.access_timestamps
    &&& post.memory_layout == pre.memory_layout
    &&& post.instruction_index == pre.instruction_index
    &&& block.len() > 0
    &&& block_wf(block)
    &&& post.executor.basic_block_cache.spec_get(pc) == Some(block)
    &&& (match pre.executor.basic_block_cache.spec_get(pc) {
        Some(b) => block == b && post.executor.basic_block_cache
            == pre.executor.basic_block_cache && post.executor.block_decode_count
            == pre.executor.block_decode_count,
        None => {
            &&& pre.memory.spec_index_valid(pre.instruction_index)
            &&& block == spec_block_decode(
                pre.memory.fixed@[pre.instruction_index.1 as int].spec_segment(pc, None),
            )
            &&& (forall|q: u32|
                q != pc ==> post.executor.basic_block_cache.spec_get(q)
                    == pre.executor.basic_block_cache.spec_get(q))
        },
    })
}

/// A failing second-pass block fetch: the code-segment index is invalid,
/// or the program counter has left the code.
pub open spec fn linear_fetch_err(pre: LinearEmulator, pc: u32, e: VMError) -> bool {
    &&& pre.executor.basic_block_cache.spec_get(pc) is None
    &&& (e == VMError::VMOutOfInstructions || e matches VMError::MemoryFault(_))
    &&& (e == VMError::VMOutOfInstructions ==> pre.memory.spec_index_valid(pre.instruction_index)
        && spec_block_decode(
        pre.memory.fixed@[pre.instruction_index.1 as int].spec_segment(pc, None),
    ).len() == 0)
    &&& (e matches VMError::MemoryFault(_) ==> !pre.memory.spec_index_valid(
        pre.instruction_index,
    ))
}

/// A whole second-pass run that ends with this error after finitely many
/// blocks.
pub open spec fn linear_run_fails(
    pre: LinearEmulator,
    post: LinearEmulator,
    e: VMError,
    fuel: nat,
) -> bool
    decreases fuel,
{
    if fuel == 0 {
        false
    } else {
        ||| (post == pre && linear_fetch_err(pre, pre.executor.cpu.pc.value, e))
        ||| (exists|mid: LinearEmulator, block: Seq<Instruction>|
            #![auto]
            linear_fetch_ok(pre, mid, pre.executor.cpu.pc.value, block) && linear_block_fails(
                mid,
                post,
                block,
                e,
            ))
        ||| (exists|
            mid1: LinearEmulator,
            mid2: LinearEmulator,
            block: Seq<Instruction>,
            rs: Seq<InstructionResult>,
            ts: Seq<MemoryRecords>,
        |
            #![auto]
            linear_fetch_ok(pre, mid1, pre.executor.cpu.pc.value, block) && linear_block_run(
                mid1,
                mid2,
                block,
                rs,
                ts,
            ) && linear_run_fails(mid2, post, e, (fuel - 1) as nat))
    }
}

/// A second-pass run that reaches a state after finitely many whole
/// fetched blocks.
pub open spec fn linear_run_reaches(pre: LinearEmulator, post: LinearEmulator, fuel: nat) -> bool
    decreases fuel,
{
    if post == pre {
        true
    } else if fuel == 0 {
        false
    } else {
        exists|
            mid1: LinearEmulator,
            mid2: LinearEmulator,
            block: Seq<Instruction>,
            rs: Seq<InstructionResult>,
            ts: Seq<MemoryRecords>,
        |
            #![auto]
            linear_fetch_ok(pre, mid1, pre.executor.cpu.pc.value, block) && linear_block_run(
                mid1,
                mid2,
                block,
                rs,
                ts,
            ) && linear_run_reaches(mid2, post, (fuel - 1) as nat)
    }
}

/// Extending a reached second-pass run by one fetched, fully executed
/// block.
proof fn lemma_linear_reaches_snoc(
    pre: LinearEmulator,
    mid: LinearEmulator,
    m1: LinearEmulator,
    m2: LinearEmulator,
    fuel: nat,
    block: Seq<Instruction>,
    rs: Seq<InstructionResult>,
    ts: Seq<MemoryRecords>,
)
    requires
        linear_run_reaches(pre, mid, fuel),
        linear_fetch_ok(mid, m1, mid.executor.cpu.pc.value, block),
        linear_block_run(m1, m2, block, rs, ts),
    ensures
        linear_run_reaches(pre, m2, fuel + 1),
    decreases fuel,
{
    if mid == pre {
        assert(linear_run_reaches(m2, m2, fuel));
    } else {
        let (mid1, mid2, b, r, t) = choose|
            mid1: LinearEmulator,
            mid2: LinearEmulator,
            b: Seq<Instruction>,
            r: Seq<InstructionResult>,
            t: Seq<MemoryRecords>,
        |
            #![auto]
            linear_fetch_ok(pre, mid1, pre.executor.cpu.pc.value, b) && linear_block_run(
                mid1,
                mid2,
                b,
                r,
                t,
            ) && linear_run_reaches(mid2, mid, (fuel - 1) as nat);
        lemma_linear_reaches_snoc(mid2, mid, m1, m2, (fuel - 1) as nat, block, rs, ts);
    }
}

/// A reached second-pass run whose next fetch fails aborts the run.
proof fn lemma_linear_reaches_fetch_err(
    pre: LinearEmulator,
    mid: LinearEmulator,
    fuel: nat,
    e: VMError,
)
    requires
        linear_run_reaches(pre, mid, fuel),
        linear_fetch_err(mid, mid.executor.cpu.pc.value, e),
    ensures
        linear_run_fails(pre, mid, e, fuel + 1),
    decreases fuel,
{
    if mid == pre {
    } else {
        let (mid1, mid2, b, r, t) = choose|
            mid1: LinearEmulator,
            mid2: LinearEmulator,
            b: Seq<Instruction>,
            r: Seq<InstructionResult>,
            t: Seq<MemoryRecords>,
        |
            #![auto]
            linear_fetch_ok(pre, mid1, pre.executor.cpu.pc.value, b) && linear_block_run(
                mid1,
                mid2,
                b,
                r,
                t,
            ) && linear_run_reaches(mid2, mid, (fuel - 1) as nat);
        lemma_linear_reaches_fetch_err(mid2, mid, (fuel - 1) as nat, e);
    }
}

/// A reached second-pass run whose next fetched block aborts fails with
/// that error.
proof fn lemma_linear_reaches_block_fails(
    pre: LinearEmulator,
    mid: LinearEmulator,
    m1: LinearEmulator,
    post: LinearEmulator,
    fuel: nat,
    block: Seq<Instruction>,
    e: VMError,
)
    requires
        linear_run_reaches(pre, mid, fuel),
        linear_fetch_ok(mid, m1, mid.executor.cpu.pc.value, block),
        linear_block_fails(m1, post, block, e),
    ensures
        linear_run_fails(pre, post, e, fuel + 1),
    decreases fuel,
{
    if mid == pre {
    } else {
        let (mid1, mid2, b, r, t) = choose|
            mid1: LinearEmulator,
            mid2: LinearEmulator,
            b: Seq<Instruction>,
            r: Seq<InstructionResult>,
            t: Seq<MemoryRecords>,
        |
            #![auto]
            linear_fetch_ok(pre, mid1, pre.executor.cpu.pc.value, b) && linear_block_run(
                mid1,
                mid2,
                b,
                r,
                t,
            ) && linear_run_reaches(mid2, mid, (fuel - 1) as nat);
        lemma_linear_reaches_block_fails(mid2, mid, m1, post, (fuel - 1) as nat, block, e);
    }
}

} // verus!


verus! {

/// Only the exit system call fails a second-pass step with `VMExited`:
/// from such a failure, the instruction was a system instruction and the
/// machine's `a7` held the exit call number.
pub proof fn lemma_vmexited_is_exit_call(
    pre: LinearEmulator,
    post: LinearEmulator,
    i: Instruction,
    e: VMError,
)
    requires
        linear_step_err(pre, post, i, e),
        e matches VMError::VMExited(_),
    ensures
        i.spec_is_system(),
        pre.executor.global_clock < usize::MAX,
        pre.executor.cpu.registers.regs@[17] == SYSCALL_EXIT,
{
    if pre.executor.global_clock == usize::MAX {
        assert(false);
    }
    if !i.spec_is_system() {
        if spec_is_rin(i.opcode) || spec_is_wou(i.opcode) {
            assert(false);
        } else {
            assert(spec_execute_bare(pre.executor.cpu, pre.memory, i).0 == Some(e));
            assert(false);
        }
    }
    if pre.executor.cpu.registers.regs@[17] != SYSCALL_EXIT {
        assert(false);
    }
}

} // verus!

verus! {

impl LinearEmulator {
    /// Fetches the basic block starting at `pc`, decoding from the unified
    /// memory's code segment on a cache miss, as the first pass does from
    /// its instruction memory.
    #[verifier::rlimit(60)]
    #[verifier::spinoff_prover]
    pub fn fetch_block(&mut self, pc: u32) -> (r: Result<BasicBlock, VMError>)
        requires
            old(self).wf(),
        ensures
            final(self).wf(),
            match r {
                Ok(block) => linear_fetch_ok(*old(self), *final(self), pc, block@),
                Err(e) => *final(self) == *old(self) && linear_fetch_err(*old(self), pc, e),
            },
    {
        match self.executor.basic_block_cache.find(pc) {
            Some(i) => {
                let block = self.executor.basic_block_cache.entries[i].1.duplicate();
                Ok(block)
            },
            None => {
                let seg = match self.memory.segment(self.instruction_index, pc, None) {
                    Ok(s) => s,
                    Err(e) => {
                        return Err(VMError::MemoryFault(e));
                    },
                };
                let block = decode_until_end_of_a_block(&seg);
                if block.is_empty() {
                    return Err(VMError::VMOutOfInstructions);
                }
                proof {
                    lemma_block_decode_wf(seg@);
                }
                let copy = block.duplicate();
                if self.executor.block_decode_count < usize::MAX {
                    self.executor.block_decode_count = self.executor.block_decode_count + 1;
                }
                self.executor.basic_block_cache.insert(pc, block);
                Ok(copy)
            },
        }
    }

    /// Executes every instruction of a block in order, collecting the
    /// per-instruction results and timestamped memory records. The first
    /// error aborts the block.
    pub fn execute_basic_block(&mut self, basic_block: &BasicBlock) -> (r: Result<
        (Vec<InstructionResult>, MemoryTranscript),
        VMError,
    >)
        requires
            old(self).wf(),
            block_wf(basic_block@),
        ensures
            final(self).wf(),
            final(self).executor.basic_block_cache == old(self).executor.basic_block_cache,
            final(self).executor.block_decode_count == old(self).executor.block_decode_count,
            final(self).memory_layout == old(self).memory_layout,
            final(self).instruction_index == old(self).instruction_index,
            match r {
                Ok((results, transcript)) => {
                    &&& results@.len() == basic_block@.len()
                    &&& transcript@.len() == basic_block@.len()
                    &&& final(self).executor.global_clock == old(self).executor.global_clock
                        + basic_block@.len()
                    &&& linear_block_run(
                        *old(self),
                        *final(self),
                        basic_block@,
                        results@,
                        transcript@,
                    )
                },
                Err(e) => linear_block_fails(*old(self), *final(self), basic_block@, e),
            },
    {
        let mut results: Vec<InstructionResult> = Vec::new();
        let mut transcript: MemoryTranscript = Vec::new();
        let mut k: usize = 0;
        while k < basic_block.0.len()
            invariant
                k <= basic_block.0@.len(),
                block_wf(basic_block.0@),
                self.wf(),
                results@.len() == k,
                transcript@.len() == k,
                self.executor.global_clock == old(self).executor.global_clock + k,
                self.executor.basic_block_cache == old(self).executor.basic_block_cache,
                self.executor.block_decode_count == old(self).executor.block_decode_count,
                self.memory_layout == old(self).memory_layout,
                self.instruction_index == old(self).instruction_index,
                linear_block_run(
                    *old(self),
                    *self,
                    basic_block.0@.subrange(0, k as int),
                    results@,
                    transcript@,
                ),
            decreases basic_block.0@.len() - k,
        {
            let instruction = &basic_block.0[k];
            let ghost pre_step = *self;
            let ghost pre_results = results@;
            let ghost pre_transcript = transcript@;
            let step = self.execute_instruction(instruction);
            match step {
                Ok((res, mem)) => {
                    proof {
                        lemma_linear_run_snoc(
                            *old(self),
                            pre_step,
                            *self,
                            basic_block.0@.subrange(0, k as int),
                            pre_results,
                            pre_transcript,
                            basic_block.0@[k as int],
                            res,
                            mem,
                        );
                        assert(basic_block.0@.subrange(0, k as int + 1)
                            =~= basic_block.0@.subrange(0, k as int).push(
                            basic_block.0@[k as int],
                        ));
                    }
                    results.push(res);
                    transcript.push(mem);
                    k = k + 1;
                },
                Err(e) => {
                    proof {
                        lemma_linear_fails_at(
                            *old(self),
                            pre_step,
                            *self,
                            basic_block.0@,
                            pre_results,
                            pre_transcript,
                            k as int,
                            e,
                        );
                    }
                    return Err(e);
                },
            }
        }
        proof {
            assert(basic_block.0@.subrange(0, basic_block.0@.len() as int) =~= basic_block.0@);
        }
        Ok((results, transcript))
    }

    /// Runs the program from the current program counter until a terminal
    /// error: `VMExited` on clean exit, `VMOutOfInstructions` when the
    /// program counter leaves the code, or the first instruction error.
    pub fn execute(&mut self) -> (r: Result<(Vec<InstructionResult>, MemoryTranscript), VMError>)
        requires
            old(self).wf(),
        ensures
            final(self).wf(),
            match r {
                Ok(_) => false,
                Err(e) => exists|fuel: nat| linear_run_fails(*old(self), *final(self), e, fuel),
            },
    {
        let mut results: Vec<InstructionResult> = Vec::new();
        let mut transcript: MemoryTranscript = Vec::new();
        let ghost mut fuel: nat = 0;
        loop
            invariant
                self.wf(),
                linear_run_reaches(*old(self), *self, fuel),
            decreases usize::MAX - self.executor.global_clock,
        {
            let pc = self.executor.cpu.pc.value;
            let ghost pre_fetch = *self;
            let basic_block = match self.fetch_block(pc) {
                Ok(b) => b,
                Err(e) => {
                    proof {
                        lemma_linear_reaches_fetch_err(*old(self), *self, fuel, e);
                    }
                    return Err(e);
                },
            };
            let ghost pre_block = *self;
            let (mut res, mut mem) = match self.execute_basic_block(&basic_block) {
                Ok(v) => v,
                Err(e) => {
                    proof {
                        lemma_linear_reaches_block_fails(
                            *old(self),
                            pre_fetch,
                            pre_block,
                            *self,
                            fuel,
                            basic_block@,
                            e,
                        );
                    }
                    return Err(e);
                },
            };
            proof {
                lemma_linear_reaches_snoc(
                    *old(self),
                    pre_fetch,
                    pre_block,
                    *self,
                    fuel,
                    basic_block@,
                    res@,
                    mem@,
                );
                fuel = fuel + 1;
            }
            results.append(&mut res);
            transcript.append(&mut mem);
        }
    }
}

impl Default for LinearEmulator {
    /// A bare machine for direct testing: zeroed CPU, the default layout,
    /// and a single empty read-only code segment, so that any fetch ends
    /// with the out-of-instructions error.
    fn default() -> (r: LinearEmulator)
        ensures
            r.wf(),
            r.executor.cpu.pc.value == 0,
            forall|k: u8| k < 32 ==> r.executor.cpu.registers.spec_read(k) == 0,
            r.executor.global_clock == 1,
            r.executor.basic_block_cache.entries@.len() == 0,
            r.executor.private_input_tape@.len() == 0,
            r.memory.spec_index_valid(r.instruction_index),
            r.memory.fixed@[r.instruction_index.1 as int].words@.len() == 0,
    {
        let mut memory = UnifiedMemory::new();
        let code = FixedMemory::new(Mode::ReadOnly, 0, 0);
        let res = memory.add_fixed(code, Mode::ReadOnly);
        let instruction_index = match res {
            Ok(idx) => idx,
            Err(_) => {
                proof {
                    assert(false);
                }
                (0, 0)
            },
        };
        LinearEmulator {
            executor: Executor::new(),
            instruction_index,
            access_timestamps: TimestampMap::new(),
            memory_layout: crate::layout::LinearMemoryLayout::default(),
            memory,
        }
    }
}

} // verus!

verus! {

/// Whether a program image fits a linear layout: code within the program
/// region, both data images between the code's end and the public input
/// region, the two images disjoint, and the input and associated-data
/// regions sized exactly for their contents.
pub open spec fn linear_image_fits(
    layout: crate::layout::LinearMemoryLayout,
    elf: ElfFile,
    input_len: int,
    ad_len: int,
) -> bool {
    &&& layout.wf()
    &&& layout.program >= 0x100
    &&& layout.program + 4 * elf.instructions@.len() <= layout.input_start
    &&& elf.entry >= elf.base
    &&& elf.entry - elf.base <= 4 * elf.instructions@.len()
    &&& (elf.rom_image@.len() > 0 ==> elf.rom_image@[0].0 >= layout.program + 4
        * elf.instructions@.len() && elf.rom_image@.last().0 + 4 <= layout.input_start)
    &&& (elf.ram_image@.len() > 0 ==> elf.ram_image@[0].0 >= layout.program + 4
        * elf.instructions@.len() && elf.ram_image@.last().0 + 4 <= layout.input_start)
    &&& (elf.rom_image@.len() > 0 && elf.ram_image@.len() > 0 ==> (elf.rom_image@.last().0 + 4
        <= elf.ram_image@[0].0 || elf.ram_image@.last().0 + 4 <= elf.rom_image@[0].0))
    &&& layout.input_end - layout.input_start == crate::layout::align4(input_len + 4)
    &&& layout.ad_finish - layout.ad_begin == crate::layout::align4(ad_len)
    &&& input_len + 8 < 0x1_0000_0000
    &&& ad_len + 4 < 0x1_0000_0000
}

/// The assembled linear address space: the code segment first, then the
/// read-only and read-write images where present, the public input with
/// its length word, the zeroed output region, the zeroed heap and stack
/// regions where present, the associated data, and last the pointer
/// words at 0x80 naming the input start and the exit code word.
pub open spec fn linear_memory_assembled(
    m: UnifiedMemory,
    idx: (usize, usize),
    memory_layout: crate::layout::LinearMemoryLayout,
    elf: ElfFile,
    public_input: Seq<u8>,
    ad: Seq<u8>,
) -> bool {
    let nrom: int = if elf.rom_image@.len() > 0 {
        1
    } else {
        0
    };
    let nram: int = if elf.ram_image@.len() > 0 {
        1
    } else {
        0
    };
    let nheap: int = if memory_layout.heap_finish > memory_layout.heap_begin {
        1
    } else {
        0
    };
    let nstack: int = if memory_layout.stack_high > memory_layout.stack_low {
        1
    } else {
        0
    };
    let nad: int = if ad.len() > 0 {
        1
    } else {
        0
    };
    let iin = 1 + nrom + nram;
    let iheap = iin + 2;
    &&& m.spec_index_valid(idx)
    &&& idx.1 == 0
    &&& m.fixed@[0].mode == Mode::ReadOnly
    &&& m.fixed@[0].base == memory_layout.program
    &&& m.fixed@[0].words@ == elf.instructions@
    &&& m.variable is None
    &&& m.fixed@.len() == 4 + nrom + nram + nheap + nstack + nad
    &&& m.fixed@[iin].mode == Mode::ReadOnly
    &&& m.fixed@[iin].base == memory_layout.input_start
    &&& m.fixed@[iin].words@.len() == (public_input.len() + 4 + 3) as int / 4
    &&& (forall|j: int|
        0 <= j < m.fixed@[iin].words@.len() ==> (#[trigger] m.fixed@[iin].words@[j])
            == crate::memory::word_from_bytes(input_with_len(public_input), j))
    &&& m.fixed@[iin + 1].mode == Mode::WriteOnly
    &&& m.fixed@[iin + 1].base == memory_layout.exit
    &&& m.fixed@[iin + 1].words@.len() == (memory_layout.output_end - memory_layout.exit) as int
        / 4
    &&& (forall|j: int|
        0 <= j < m.fixed@[iin + 1].words@.len() ==> (#[trigger] m.fixed@[iin + 1].words@[j]) == 0)
    &&& (nheap == 1 ==> m.fixed@[iheap].mode == Mode::ReadWrite && m.fixed@[iheap].base
        == memory_layout.heap_begin && m.fixed@[iheap].words@.len() == (memory_layout.heap_finish
        - memory_layout.heap_begin) as int / 4 && (forall|j: int|
        0 <= j < m.fixed@[iheap].words@.len() ==> (#[trigger] m.fixed@[iheap].words@[j]) == 0))
    &&& (nstack == 1 ==> m.fixed@[iheap + nheap].mode == Mode::ReadWrite && m.fixed@[iheap
        + nheap].base == memory_layout.stack_low && m.fixed@[iheap + nheap].words@.len() == (
    memory_layout.stack_high - memory_layout.stack_low) as int / 4 && (forall|j: int|
        0 <= j < m.fixed@[iheap + nheap].words@.len() ==> (#[trigger] m.fixed@[iheap
            + nheap].words@[j]) == 0))
    &&& (nad == 1 ==> m.fixed@[iheap + nheap + nstack].mode == Mode::NoAccess && m.fixed@[iheap
        + nheap + nstack].base == memory_layout.ad_begin && (forall|j: int|
        0 <= j < m.fixed@[iheap + nheap + nstack].words@.len() ==> (#[trigger] m.fixed@[iheap
            + nheap + nstack].words@[j]) == crate::memory::word_from_bytes(ad, j)))
    &&& m.fixed@[iheap + nheap + nstack + nad].mode == Mode::ReadOnly
    &&& m.fixed@[iheap + nheap + nstack + nad].base == 0x80
    &&& m.fixed@[iheap + nheap + nstack + nad].words@ == seq![
        memory_layout.input_start,
        memory_layout.exit,
    ]
}


impl LinearEmulator {
    /// Builds the second-pass machine from a program image and a layout:
    /// one unified address space holding the code, the read-only and
    /// read-write images at their own addresses, the public input with its
    /// length word, the zeroed output, heap and stack regions, the
    /// associated data (no access), and the input/output pointer words.
    #[verifier::rlimit(100)]
    #[verifier::spinoff_prover]
    /// Assembles the one linear address space of the second pass: the
    /// code, the read-only and read-write images, the public input with
    /// its length word, the zeroed output, heap and stack regions, the
    /// associated data, and the input/output pointer words, in that
    /// order. Returns the space and the code segment's index.
    #[verifier::rlimit(100)]
    #[verifier::spinoff_prover]
    fn assemble_linear_memory(
        memory_layout: crate::layout::LinearMemoryLayout,
        ad: &[u8],
        elf: ElfFile,
        public_input: &[u8],
    ) -> (r: (UnifiedMemory, (usize, usize)))
        requires
            elf.wf(),
            linear_image_fits(memory_layout, elf, public_input@.len() as int, ad@.len() as int),
        ensures
            r.0.wf(),
            r.0.wf(),
            r.0.spec_index_valid(r.1),
            r.1.1 == 0,
            r.0.fixed@[0].mode == Mode::ReadOnly,
            r.0.fixed@[0].base == memory_layout.program,
            r.0.fixed@[0].words@ == elf.instructions@,
            r.0.variable is None,
            ({
                let nrom: int = if elf.rom_image@.len() > 0 {
                    1
                } else {
                    0
                };
                let nram: int = if elf.ram_image@.len() > 0 {
                    1
                } else {
                    0
                };
                let nheap: int = if memory_layout.heap_finish > memory_layout.heap_begin {
                    1
                } else {
                    0
                };
                let nstack: int = if memory_layout.stack_high > memory_layout.stack_low {
                    1
                } else {
                    0
                };
                let nad: int = if ad@.len() > 0 {
                    1
                } else {
                    0
                };
                let iin = 1 + nrom + nram;
                let iheap = iin + 2;
                &&& r.0.fixed@.len() == 4 + nrom + nram + nheap + nstack + nad
                &&& r.0.fixed@[iin].mode == Mode::ReadOnly
                &&& r.0.fixed@[iin].base == memory_layout.input_start
                &&& r.0.fixed@[iin].words@.len() == (public_input@.len() + 4 + 3) as int / 4
                &&& (forall|j: int|
                    0 <= j < r.0.fixed@[iin].words@.len() ==> (#[trigger] r.0.fixed@[iin].words@[j])
                        == crate::memory::word_from_bytes(input_with_len(public_input@), j))
                &&& r.0.fixed@[iin + 1].mode == Mode::WriteOnly
                &&& r.0.fixed@[iin + 1].base == memory_layout.exit
                &&& r.0.fixed@[iin + 1].words@.len() == (memory_layout.output_end
                    - memory_layout.exit) as int / 4
                &&& (forall|j: int|
                    0 <= j < r.0.fixed@[iin + 1].words@.len() ==> (#[trigger] r.0.fixed@[iin
                        + 1].words@[j]) == 0)
                &&& (nheap == 1 ==> r.0.fixed@[iheap].mode == Mode::ReadWrite
                    && r.0.fixed@[iheap].base == memory_layout.heap_begin
                    && r.0.fixed@[iheap].words@.len() == (memory_layout.heap_finish
                    - memory_layout.heap_begin) as int / 4 && (forall|j: int|
                    0 <= j < r.0.fixed@[iheap].words@.len() ==> (#[trigger] r.0.fixed@[iheap].words@[j])
                        == 0))
                &&& (nstack == 1 ==> r.0.fixed@[iheap + nheap].mode == Mode::ReadWrite
                    && r.0.fixed@[iheap + nheap].base == memory_layout.stack_low && r.0.fixed@[iheap
                    + nheap].words@.len() == (memory_layout.stack_high
                    - memory_layout.stack_low) as int / 4 && (forall|j: int|
                    0 <= j < r.0.fixed@[iheap + nheap].words@.len() ==> (#[trigger] r.0.fixed@[iheap
                        + nheap].words@[j]) == 0))
                &&& (nad == 1 ==> r.0.fixed@[iheap + nheap + nstack].mode == Mode::NoAccess
                    && r.0.fixed@[iheap + nheap + nstack].base == memory_layout.ad_begin && (forall|
                    j: int,
                |
                    0 <= j < r.0.fixed@[iheap + nheap + nstack].words@.len() ==> (
                    #[trigger] r.0.fixed@[iheap + nheap + nstack].words@[j])
                        == crate::memory::word_from_bytes(ad@, j)))
                &&& r.0.fixed@[iheap + nheap + nstack + nad].mode == Mode::ReadOnly
                &&& r.0.fixed@[iheap + nheap + nstack + nad].base == 0x80
                &&& r.0.fixed@[iheap + nheap + nstack + nad].words@ == seq![
                    memory_layout.input_start,
                    memory_layout.exit,
                ]
            }),
            linear_memory_assembled(r.0, r.1, memory_layout, elf, public_input@, ad@),
    {
        let mut memory = UnifiedMemory::new();
        let code_start = memory_layout.program_start();
        let code_memory = FixedMemory::from_vec(
            Mode::ReadOnly,
            code_start,
            4 * elf.instructions.len(),
            elf.instructions,
        );
        let res_code = memory.add_fixed(code_memory, Mode::ReadOnly);
        let instruction_index = match res_code {
            Ok(idx) => idx,
            Err(_) => {
                proof {
                    assert(false);
                }
                (0, 0)
            },
        };
        if elf.rom_image.len() > 0 {
            let ro_base = elf.rom_image[0].0;
            let ro_last = elf.rom_image[elf.rom_image.len() - 1].0;
            proof {
                lemma_image_bounds(elf.rom_image@);
            }
            let n = (((ro_last - ro_base) / 4) + 1) as usize;
            let ro_words = pack_words(&elf.rom_image, ro_base, n);
            let ro_mem = FixedMemory::from_vec(Mode::ReadOnly, ro_base, 4 * n, ro_words);
            let res = memory.add_fixed(ro_mem, Mode::ReadOnly);
            proof {
                if res is Err {
                    assert(false);
                }
            }
        }
        if elf.ram_image.len() > 0 {
            let rw_base = elf.ram_image[0].0;
            let rw_last = elf.ram_image[elf.ram_image.len() - 1].0;
            proof {
                lemma_image_bounds(elf.ram_image@);
            }
            let n = (((rw_last - rw_base) / 4) + 1) as usize;
            let rw_words = pack_words(&elf.ram_image, rw_base, n);
            let rw_mem = FixedMemory::from_vec(Mode::ReadWrite, rw_base, 4 * n, rw_words);
            let res = memory.add_fixed(rw_mem, Mode::ReadWrite);
            proof {
                if res is Err {
                    assert(false);
                }
            }
        }
        let n_in: u32 = public_input.len() as u32;
        let mut combined: Vec<u8> = Vec::new();
        combined.push((n_in % 0x100) as u8);
        combined.push(((n_in / 0x100) % 0x100) as u8);
        combined.push(((n_in / 0x10000) % 0x100) as u8);
        combined.push(((n_in / 0x1000000) % 0x100) as u8);
        let mut bi: usize = 0;
        while bi < public_input.len()
            invariant
                bi <= public_input@.len(),
                public_input@.len() + 8 < 0x1_0000_0000,
                n_in == public_input@.len(),
                combined@ == input_with_len(public_input@).subrange(0, 4 + bi as int),
            decreases public_input@.len() - bi,
        {
            proof {
                assert(input_with_len(public_input@)[4 + bi as int] == public_input@[bi as int]);
                assert(input_with_len(public_input@).subrange(0, 4 + bi as int + 1)
                    =~= input_with_len(public_input@).subrange(0, 4 + bi as int).push(
                    public_input@[bi as int],
                ));
            }
            combined.push(public_input[bi]);
            bi = bi + 1;
        }
        proof {
            assert(combined@ =~= input_with_len(public_input@));
        }
        let input_memory = FixedMemory::from_bytes(
            Mode::ReadOnly,
            memory_layout.public_input_start(),
            &combined,
        );
        let res_in = memory.add_fixed(input_memory, Mode::ReadOnly);
        proof {
            if res_in is Err {
                assert(false);
            }
        }
        let output_len = (memory_layout.public_output_end() - memory_layout.exit_code()) as usize;
        let output_memory = FixedMemory::new(
            Mode::WriteOnly,
            memory_layout.exit_code(),
            output_len,
        );
        let res_out = memory.add_fixed(output_memory, Mode::WriteOnly);
        proof {
            if res_out is Err {
                assert(false);
            }
        }
        let heap_len = (memory_layout.heap_end() - memory_layout.heap_start()) as usize;
        if heap_len > 0 {
            let heap_memory = FixedMemory::new(
                Mode::ReadWrite,
                memory_layout.heap_start(),
                heap_len,
            );
            let res = memory.add_fixed(heap_memory, Mode::ReadWrite);
            proof {
                if res is Err {
                    assert(false);
                }
            }
        }
        let stack_len = (memory_layout.stack_top() - memory_layout.stack_bottom()) as usize;
        if stack_len > 0 {
            let stack_memory = FixedMemory::new(
                Mode::ReadWrite,
                memory_layout.stack_bottom(),
                stack_len,
            );
            let res = memory.add_fixed(stack_memory, Mode::ReadWrite);
            proof {
                if res is Err {
                    assert(false);
                }
            }
        }
        let ad_vec = slice_to_vec(ad);
        if ad_vec.len() > 0 {
            let ad_memory = FixedMemory::from_bytes(
                Mode::NoAccess,
                memory_layout.ad_start(),
                &ad_vec,
            );
            let res = memory.add_fixed(ad_memory, Mode::NoAccess);
            proof {
                if res is Err {
                    assert(false);
                }
            }
        }
        let ptr_words: Vec<u32> = vec![
            memory_layout.public_input_start(),
            memory_layout.exit_code(),
        ];
        let ptr_mem = FixedMemory::from_words(Mode::ReadOnly, 0x80, 8, &ptr_words);
        let res_ptr = memory.add_fixed(ptr_mem, Mode::ReadOnly);
        proof {
            if res_ptr is Err {
                assert(false);
            }
        }
        (memory, instruction_index)
    }

    pub fn from_elf(
        memory_layout: crate::layout::LinearMemoryLayout,
        ad: &[u8],
        elf: ElfFile,
        public_input: &[u8],
        private_input: &[u8],
    ) -> (r: LinearEmulator)
        requires
            elf.wf(),
            linear_image_fits(memory_layout, elf, public_input@.len() as int, ad@.len() as int),
        ensures
            r.wf(),
            r.memory_layout == memory_layout,
            r.executor.cpu.pc.value == memory_layout.program + (elf.entry - elf.base),
            r.executor.entrypoint == memory_layout.program + (elf.entry - elf.base),
            r.executor.base_address == memory_layout.program,
            r.executor.global_clock == 1,
            r.executor.basic_block_cache.entries@.len() == 0,
            r.executor.block_decode_count == 0,
            r.executor.private_input_tape@ == private_input@,
            forall|k: u8| 0 < k < 32 ==> r.executor.cpu.registers.spec_read(k) == 0,
            linear_memory_assembled(
                r.memory,
                r.instruction_index,
                memory_layout,
                elf,
                public_input@,
                ad@,
            ),
    {
        let elf_entry = elf.entry;
        let elf_base = elf.base;
        let (memory, instruction_index) = Self::assemble_linear_memory(
            memory_layout,
            ad,
            elf,
            public_input,
        );
        let mut executor = Executor::new();
        executor.private_input_tape = slice_to_vec(private_input);
        executor.base_address = memory_layout.program_start();
        executor.entrypoint = add32(memory_layout.program_start(), elf_entry - elf_base);
        executor.cpu.pc.value = executor.entrypoint;
        LinearEmulator {
            executor,
            instruction_index,
            access_timestamps: TimestampMap::new(),
            memory_layout,
            memory,
        }
    }
}

/// Every address of a sorted image lies between its first and its last.
proof fn lemma_image_bounds(img: Seq<(u32, u32)>)
    requires
        img.len() > 0,
        forall|i: int, j: int| 0 <= i < j < img.len() ==> img[i].0 < img[j].0,
    ensures
        forall|i: int|
            0 <= i < img.len() ==> (#[trigger] img[i].0) >= img[0].0 && img[i].0 <= img[img.len()
                - 1].0,
{
    assert forall|i: int|
        0 <= i < img.len() implies (#[trigger] img[i].0) >= img[0].0 && img[i].0 <= img[img.len()
        - 1].0 by {
        if i > 0 {
            assert(img[0].0 < img[i].0);
        }
        if i < img.len() - 1 {
            assert(img[i].0 < img[img.len() - 1].0);
        }
    }
}

} // verus!

verus! {

/// The encoded words of a list of blocks, in order.
pub open spec fn spec_encode_blocks(bs: Seq<Seq<Instruction>>) -> Seq<u32>
    decreases bs.len(),
{
    if bs.len() <= 0 {
        Seq::empty()
    } else {
        spec_encode_blocks(bs.drop_last()) + bs.last().map_values(
            |i: Instruction| crate::decoder::spec_encode(i),
        )
    }
}

} // verus!

verus! {

/// The machine `from_basic_blocks` builds: a fresh executor parked at the
/// program start, the encoded blocks as the single read-only code
/// segment, zero-initialized heap and stack regions of their layout
/// sizes, and no other segment and no backing memory.
pub open spec fn linear_from_blocks_built(
    em: LinearEmulator,
    layout: crate::layout::LinearMemoryLayout,
    bs: Seq<Seq<Instruction>>,
) -> bool {
    let nheap: int = if layout.heap_finish > layout.heap_begin {
        1
    } else {
        0
    };
    let nstack: int = if layout.stack_high > layout.stack_low {
        1
    } else {
        0
    };
    &&& em.wf()
    &&& em.memory_layout == layout
    &&& em.executor.cpu.pc.value == layout.program
    &&& em.executor.entrypoint == layout.program
    &&& em.executor.global_clock == 1
    &&& em.executor.basic_block_cache.entries@.len() == 0
    &&& em.executor.block_decode_count == 0
    &&& em.executor.private_input_tape@.len() == 0
    &&& (forall|k: u8| k < 32 ==> em.executor.cpu.registers.spec_read(k) == 0)
    &&& em.memory.spec_index_valid(em.instruction_index)
    &&& em.instruction_index.1 == 0
    &&& em.memory.fixed@.len() == 1 + nheap + nstack
    &&& em.memory.fixed@[0].mode == Mode::ReadOnly
    &&& em.memory.fixed@[0].base == layout.program
    &&& em.memory.fixed@[0].words@ == spec_encode_blocks(bs)
    &&& (nheap == 1 ==> em.memory.fixed@[1].mode == Mode::ReadWrite && em.memory.fixed@[1].base
        == layout.heap_begin && em.memory.fixed@[1].words@.len() == (layout.heap_finish
        - layout.heap_begin) as int / 4 && (forall|j: int|
        0 <= j < em.memory.fixed@[1].words@.len() ==> (#[trigger] em.memory.fixed@[1].words@[j])
            == 0))
    &&& (nstack == 1 ==> em.memory.fixed@[1 + nheap].mode == Mode::ReadWrite
        && em.memory.fixed@[1 + nheap].base == layout.stack_low && em.memory.fixed@[1
        + nheap].words@.len() == (layout.stack_high - layout.stack_low) as int / 4 && (forall|
        j: int,
    |
        0 <= j < em.memory.fixed@[1 + nheap].words@.len() ==> (#[trigger] em.memory.fixed@[1
            + nheap].words@[j]) == 0))
    &&& em.memory.variable is None
}

} // verus!

verus! {

impl LinearEmulator {
    /// Builds a second-pass machine from straight basic blocks, for simple
    /// testing: the encoded blocks as the code segment, plus heap and
    /// stack regions; no input, output or data images.
    pub fn from_basic_blocks(
        memory_layout: crate::layout::LinearMemoryLayout,
        basic_blocks: &Vec<BasicBlock>,
    ) -> (r: LinearEmulator)
        requires
            memory_layout.wf(),
            forall|j: int|
                0 <= j < basic_blocks@.len() ==> crate::decoder::wf_block(
                    (#[trigger] basic_blocks@[j])@,
                ),
            memory_layout.program + 4 * spec_encode_blocks(
                basic_blocks@.map_values(|b: BasicBlock| b@),
            ).len() <= memory_layout.input_start,
        ensures
            linear_from_blocks_built(
                r,
                memory_layout,
                basic_blocks@.map_values(|b: BasicBlock| b@),
            ),
    {
        let mut encoded: Vec<u32> = Vec::new();
        let mut k: usize = 0;
        let ghost v = |b: BasicBlock| b@;
        while k < basic_blocks.len()
            invariant
                k <= basic_blocks@.len(),
                forall|j: int|
                    0 <= j < basic_blocks@.len() ==> crate::decoder::wf_block(
                        (#[trigger] basic_blocks@[j])@,
                    ),
                encoded@ == spec_encode_blocks(
                    basic_blocks@.subrange(0, k as int).map_values(|b: BasicBlock| b@),
                ),
            decreases basic_blocks@.len() - k,
        {
            let ghost pre = encoded@;
            let mut ws = basic_blocks[k].encode();
            let ghost wsv = ws@;
            encoded.append(&mut ws);
            k = k + 1;
            proof {
                let m = basic_blocks@.subrange(0, k as int).map_values(|b: BasicBlock| b@);
                assert(m.drop_last() =~= basic_blocks@.subrange(0, k as int - 1).map_values(
                    |b: BasicBlock| b@,
                ));
                assert(m.last() =~= basic_blocks@[k as int - 1]@);
                assert(wsv =~= basic_blocks@[k as int - 1]@.map_values(
                    |i: Instruction| crate::decoder::spec_encode(i),
                ));
                assert(encoded@ =~= spec_encode_blocks(m));
            }
        }
        proof {
            assert(basic_blocks@.subrange(0, basic_blocks@.len() as int) =~= basic_blocks@);
        }
        let mut memory = UnifiedMemory::new();
        let code_start = memory_layout.program_start();
        let code_memory = FixedMemory::from_vec(
            Mode::ReadOnly,
            code_start,
            4 * encoded.len(),
            encoded,
        );
        let res_code = memory.add_fixed(code_memory, Mode::ReadOnly);
        let instruction_index = match res_code {
            Ok(idx) => idx,
            Err(_) => {
                proof {
                    assert(false);
                }
                (0, 0)
            },
        };
        let heap_len = (memory_layout.heap_end() - memory_layout.heap_start()) as usize;
        if heap_len > 0 {
            let heap_memory = FixedMemory::new(
                Mode::ReadWrite,
                memory_layout.heap_start(),
                heap_len,
            );
            let res = memory.add_fixed(heap_memory, Mode::ReadWrite);
            proof {
                if res is Err {
                    assert(false);
                }
            }
        }
        let stack_len = (memory_layout.stack_top() - memory_layout.stack_bottom()) as usize;
        if stack_len > 0 {
            let stack_memory = FixedMemory::new(
                Mode::ReadWrite,
                memory_layout.stack_bottom(),
                stack_len,
            );
            let res = memory.add_fixed(stack_memory, Mode::ReadWrite);
            proof {
                if res is Err {
                    assert(false);
                }
            }
        }
        let mut executor = Executor::new();
        executor.base_address = memory_layout.program_start();
        executor.entrypoint = memory_layout.program_start();
        executor.cpu.pc.value = executor.entrypoint;
        LinearEmulator {
            executor,
            instruction_index,
            access_timestamps: TimestampMap::new(),
            memory_layout,
            memory,
        }
    }
}

} // verus!

verus! {

/// One instruction word of the second pass's program image: the custom
/// input and output instructions become plain word load and store forms
/// (register field carried as the immediate), everything else is kept.
pub open spec fn spec_rewrite_word(w: u32) -> u32 {
    let d = crate::decoder::spec_decode_dyn(w);
    if spec_is_rin(d.opcode) {
        crate::decoder::spec_encode(
            Instruction {
                opcode: Opcode::of_builtin(BuiltinOpcode::LW),
                op_a: d.op_a,
                op_b: d.op_b,
                op_c: d.op_c,
                ins_type: crate::rv32::InstructionType::IType,
            },
        )
    } else if spec_is_wou(d.opcode) {
        crate::decoder::spec_encode(
            Instruction {
                opcode: Opcode::of_builtin(BuiltinOpcode::SW),
                op_a: d.op_a,
                op_b: d.op_b,
                op_c: d.op_c,
                ins_type: crate::rv32::InstructionType::SType,
            },
        )
    } else {
        w
    }
}

/// The program-region byte budget the second pass reserves for an image:
/// code, both data images, and two words of slack each.
pub open spec fn spec_program_budget(elf: ElfFile) -> int {
    4 * (elf.instructions@.len() as int + 4 + elf.rom_image@.len() + 4 + elf.ram_image@.len())
}

/// The byte length of the public input recovered from the first pass's
/// input memory (everything after the length word).
pub open spec fn spec_recovered_input_len(h: HarvardEmulator) -> int {
    if h.input_memory.words@.len() >= 1 {
        4 * h.input_memory.words@.len() - 4
    } else {
        0
    }
}

/// The byte length of the public output recovered from the first pass
/// (everything after the exit code word).
pub open spec fn spec_recovered_output_len(h: HarvardEmulator) -> int {
    let cover = h.output_memory.spec_cover_end(0, None);
    if cover >= 4 {
        cover - 4
    } else {
        0
    }
}

/// Whether a first-pass run and its image can be turned into a second-pass
/// machine: sizes in range, the optimized layout fits the address space,
/// and the image fits that layout.
pub open spec fn spec_from_harvard_ok(h: HarvardEmulator, elf: ElfFile, ad_len: int) -> bool {
    &&& h.wf()
    &&& elf.wf()
    &&& h.input_memory.base == 0
    &&& h.input_memory.words@.len() >= 1
    &&& spec_program_budget(elf) < 0x1_0000_0000
    &&& h.output_memory.spec_cover_end(0, None) < 0x1_0000_0000
    &&& crate::layout::spec_layout_end(
        h.memory_stats,
        spec_program_budget(elf) as u32,
        ad_len as u32,
        spec_recovered_input_len(h) as u32,
        spec_recovered_output_len(h) as u32,
    ) < 0x1_0000_0000
    &&& ad_len + 4 < 0x1_0000_0000
    &&& linear_image_fits(
        crate::layout::spec_optimized_layout(
            h.memory_stats,
            spec_program_budget(elf) as u32,
            ad_len as u32,
            spec_recovered_input_len(h) as u32,
            spec_recovered_output_len(h) as u32,
        ),
        elf,
        spec_recovered_input_len(h),
        ad_len,
    )
}

impl LinearEmulator {
    /// Builds the second-pass machine from a finished first pass and the
    /// program image: recovers the public input and output, rewrites the
    /// custom input/output instructions to plain loads and stores, lays
    /// out one linear address space from the first pass's statistics, and
    /// starts afresh with the full transcript machinery.
    pub fn from_harvard(
        emulator_harvard: HarvardEmulator,
        elf: ElfFile,
        ad: &[u8],
        private_input: &[u8],
    ) -> (r: Result<LinearEmulator, VMError>)
        requires
            spec_from_harvard_ok(emulator_harvard, elf, ad@.len() as int),
        ensures
            match r {
                Ok(lin) => {
                    &&& lin.wf()
                    &&& lin.memory_layout == crate::layout::spec_optimized_layout(
                        emulator_harvard.memory_stats,
                        spec_program_budget(elf) as u32,
                        ad@.len() as u32,
                        spec_recovered_input_len(emulator_harvard) as u32,
                        spec_recovered_output_len(emulator_harvard) as u32,
                    )
                    &&& lin.executor.cpu.pc.value == lin.memory_layout.program + (elf.entry
                        - elf.base)
                    &&& lin.executor.private_input_tape@ == private_input@
                    &&& lin.memory.spec_index_valid(lin.instruction_index)
                    &&& lin.memory.fixed@[lin.instruction_index.1 as int].words@
                        == elf.instructions@.map_values(|w: u32| spec_rewrite_word(w))
                    &&& lin.executor.global_clock == 1
                },
                Err(_) => false,
            },
{
        let public_input = emulator_harvard.input_memory.segment_bytes(4, None);
        let output_memory = match emulator_harvard.get_output() {
            Ok(v) => v,
            Err(_) => {
                proof {
                    assert(false);
                }
                Vec::new()
            },
        };
        let mut new_instructions: Vec<u32> = Vec::new();
        let mut k: usize = 0;
        while k < elf.instructions.len()
            invariant
                k <= elf.instructions@.len(),
                new_instructions@ == elf.instructions@.subrange(0, k as int).map_values(
                    |w: u32| spec_rewrite_word(w),
                ),
            decreases elf.instructions@.len() - k,
        {
            let ghost pre = new_instructions@;
            let w = elf.instructions[k];
            let decoded_ins = decode_instruction(w);
            let rewritten: u32 = if emulator_harvard.executor.instruction_executor.is_read_input(
                &decoded_ins.opcode,
            ) {
                proof {
                    lemma_decoded_wf(w);
                }
                let lw = Instruction::new(
                    crate::rv32::opcode_from_builtin(BuiltinOpcode::LW),
                    decoded_ins.op_a,
                    decoded_ins.op_b,
                    decoded_ins.op_c,
                    crate::rv32::InstructionType::IType,
                );
                lw.encode()
            } else if emulator_harvard.executor.instruction_executor.is_write_output(
                &decoded_ins.opcode,
            ) {
                proof {
                    lemma_decoded_wf(w);
                }
                let sw = Instruction::new(
                    crate::rv32::opcode_from_builtin(BuiltinOpcode::SW),
                    decoded_ins.op_a,
                    decoded_ins.op_b,
                    decoded_ins.op_c,
                    crate::rv32::InstructionType::SType,
                );
                sw.encode()
            } else {
                w
            };
            new_instructions.push(rewritten);
            k = k + 1;
            proof {
                assert(elf.instructions@.subrange(0, k as int) =~= elf.instructions@.subrange(
                    0,
                    k as int - 1,
                ).push(w));
                assert(elf.instructions@.subrange(0, k as int).map_values(
                    |x: u32| spec_rewrite_word(x),
                ) =~= pre.push(spec_rewrite_word(w)));
            }
        }
        proof {
            assert(elf.instructions@.subrange(0, elf.instructions@.len() as int)
                =~= elf.instructions@);
        }
        let program_size: u32 = 4 * ((elf.instructions.len() + 4 + elf.rom_image.len() + 4
            + elf.ram_image.len()) as u32);
        let out_cover = output_memory.len();
        let out_len: u32 = if out_cover >= 4 {
            (out_cover - 4) as u32
        } else {
            0
        };
        let memory_layout = match emulator_harvard.memory_stats.create_optimized_layout(
            program_size,
            ad.len() as u32,
            public_input.len() as u32,
            out_len,
        ) {
            Some(l) => l,
            None => {
                proof {
                    assert(false);
                }
                crate::layout::LinearMemoryLayout::default()
            },
        };
        proof {
            crate::layout::lemma_optimized_layout_fields(
                emulator_harvard.memory_stats,
                program_size,
                ad@.len() as u32,
                public_input@.len() as u32,
                out_len,
                memory_layout,
            );
        }
        let rewritten_elf = ElfFile {
            instructions: new_instructions,
            rom_image: elf.rom_image,
            ram_image: elf.ram_image,
            base: elf.base,
            entry: elf.entry,
        };
        Ok(
            LinearEmulator::from_elf(
                memory_layout,
                ad,
                rewritten_elf,
                public_input.as_slice(),
                private_input,
            ),
        )
    }
}

} // verus!

verus! {

/// Two unified memories agree as address spaces: the same fixed segments,
/// and backing memories that hold the same word at every address.
pub open spec fn mem_view_eq(m1: UnifiedMemory, m2: UnifiedMemory) -> bool {
    &&& m1.fixed@ == m2.fixed@
    &&& (match (m1.variable, m2.variable) {
        (None, None) => true,
        (Some(v1), Some(v2)) => v1.mode == v2.mode && forall|w: u32|
            v1.word_or_zero(w) == v2.word_or_zero(w),
        _ => false,
    })
}

/// Memories that agree as address spaces answer every access alike.
proof fn lemma_mem_congruent(m1: UnifiedMemory, m2: UnifiedMemory, addr: u32, size: MemAccessSize)
    requires
        mem_view_eq(m1, m2),
    ensures
        m1.spec_load(addr, size) == m2.spec_load(addr, size),
        m1.spec_store_err(addr, size) == m2.spec_store_err(addr, size),
        m1.spec_word_before(addr) == m2.spec_word_before(addr),
{
}

/// Determinism: one step's whole outcome — the error if any, the
/// destination result, the register file, the program counter and the
/// memory operations — is a function of the machine state and the
/// instruction. Two machines whose register files, program counters and
/// address spaces agree take identical steps.
pub proof fn lemma_step_deterministic(
    c1: Cpu,
    m1: UnifiedMemory,
    c2: Cpu,
    m2: UnifiedMemory,
    i: Instruction,
)
    requires
        c1.registers.regs@ == c2.registers.regs@,
        c1.pc.value == c2.pc.value,
        mem_view_eq(m1, m2),
    ensures
        spec_execute_bare(c1, m1, i) == spec_execute_bare(c2, m2, i),
{
    let regs = c1.registers.regs@;
    match i.opcode.spec_builtin() {
        Some(b) => {
            if is_load_op(b) || is_store_op(b) {
                let addr = spec_add32(regs[i.op_b as int], i.op_c);
                lemma_mem_congruent(m1, m2, addr, mem_op_size(b));
            }
        },
        None => {},
    }
}

/// Pass equivalence for the register forms: a step that touches no
/// memory — an arithmetic, comparison, branch, jump or upper-immediate
/// instruction — has the same outcome under any two address spaces, so
/// the Harvard and Linear passes agree on it however their memories are
/// laid out.
pub proof fn lemma_pass_equivalence_register_step(
    cpu: Cpu,
    m1: UnifiedMemory,
    m2: UnifiedMemory,
    i: Instruction,
)
    requires
        match i.opcode.spec_builtin() {
            Some(b) => !is_load_op(b) && !is_store_op(b),
            None => true,
        },
    ensures
        spec_execute_bare(cpu, m1, i) == spec_execute_bare(cpu, m2, i),
{
}

} // verus!

verus! {

/// The common face of the two passes: one instruction semantics, block
/// fetching through the cache, and the whole-program loop, over either
/// memory organization.
pub trait Emulator: Sized {
    /// The machine's well-formedness.
    spec fn emulator_wf(&self) -> bool;

    /// This pass's whole-run abort relation: the run from `self` ends at
    /// `post` with the error `e` within `fuel` fetched blocks.
    spec fn run_fails_spec(self, post: Self, e: VMError, fuel: nat) -> bool;

    /// This pass's block-abort relation: some prefix of the block
    /// executes from `self`, and the next instruction fails with `e`,
    /// leaving the machine at `post`.
    spec fn block_fails_spec(self, post: Self, block: Seq<Instruction>, e: VMError) -> bool;

    /// Executes a single instruction, advancing the program counter and
    /// the global clock.
    fn execute_instruction(&mut self, bare_instruction: &Instruction) -> (r: Result<
        (InstructionResult, MemoryRecords),
        VMError,
    >)
        requires
            old(self).emulator_wf(),
            exec_wf_instr(*bare_instruction),
        ensures
            final(self).emulator_wf(),
    ;

    /// Fetches or decodes the basic block starting at `pc`.
    fn fetch_block(&mut self, pc: u32) -> (r: Result<BasicBlock, VMError>)
        requires
            old(self).emulator_wf(),
        ensures
            final(self).emulator_wf(),
            r matches Ok(b) ==> b@.len() > 0 && block_wf(b@),
    ;

    /// The shared execution state.
    fn get_executor(&self) -> &Executor;

    /// The shared execution state, mutably.
    fn get_executor_mut(&mut self) -> (r: &mut Executor)
        requires
            old(self).emulator_wf(),
    ;

    /// Executes an entire basic block, collecting results and records.
    fn execute_basic_block(&mut self, basic_block: &BasicBlock) -> (r: Result<
        (Vec<InstructionResult>, MemoryTranscript),
        VMError,
    >)
        requires
            old(self).emulator_wf(),
            block_wf(basic_block@),
        ensures
            final(self).emulator_wf(),
            r matches Ok(v) ==> v.0@.len() == basic_block@.len() && v.1@.len()
                == basic_block@.len(),
            r matches Err(e) ==> old(self).block_fails_spec(*final(self), basic_block@, e),
    ;

    /// Runs the program until a terminal error.
    fn execute(&mut self) -> (r: Result<(Vec<InstructionResult>, MemoryTranscript), VMError>)
        requires
            old(self).emulator_wf(),
        ensures
            final(self).emulator_wf(),
            match r {
                Ok(_) => false,
                Err(e) => exists|fuel: nat| old(self).run_fails_spec(*final(self), e, fuel),
            },
    ;
}

impl HarvardEmulator {
    /// The shared execution state.
    pub fn get_executor(&self) -> (r: &Executor)
        ensures
            r == self.executor,
    {
        &self.executor
    }
}

impl LinearEmulator {
    /// The shared execution state.
    pub fn get_executor(&self) -> (r: &Executor)
        ensures
            r == self.executor,
    {
        &self.executor
    }
}

impl Emulator for HarvardEmulator {
    open spec fn emulator_wf(&self) -> bool {
        self.wf()
    }

    open spec fn run_fails_spec(self, post: Self, e: VMError, fuel: nat) -> bool {
        harvard_run_fails(self, post, e, fuel)
    }

    open spec fn block_fails_spec(self, post: Self, block: Seq<Instruction>, e: VMError) -> bool {
        harvard_block_fails(self, post, block, e)
    }

    fn execute_instruction(&mut self, bare_instruction: &Instruction) -> (r: Result<
        (InstructionResult, MemoryRecords),
        VMError,
    >) {
        HarvardEmulator::execute_instruction(self, bare_instruction)
    }

    fn fetch_block(&mut self, pc: u32) -> (r: Result<BasicBlock, VMError>) {
        HarvardEmulator::fetch_block(self, pc)
    }

    fn get_executor(&self) -> &Executor {
        &self.executor
    }

    fn get_executor_mut(&mut self) -> (r: &mut Executor) {
        &mut self.executor
    }

    fn execute_basic_block(&mut self, basic_block: &BasicBlock) -> (r: Result<
        (Vec<InstructionResult>, MemoryTranscript),
        VMError,
    >) {
        HarvardEmulator::execute_basic_block(self, basic_block)
    }

    fn execute(&mut self) -> (r: Result<(Vec<InstructionResult>, MemoryTranscript), VMError>) {
        let r = HarvardEmulator::execute(self);
        proof {
            match &r {
                Err(e) => {
                    let f = choose|f: nat| harvard_run_fails(*old(self), *self, *e, f);
                    assert(old(self).run_fails_spec(*self, *e, f));
                },
                Ok(_) => {},
            }
        }
        r
    }
}

impl Emulator for LinearEmulator {
    open spec fn emulator_wf(&self) -> bool {
        self.wf()
    }

    open spec fn run_fails_spec(self, post: Self, e: VMError, fuel: nat) -> bool {
        linear_run_fails(self, post, e, fuel)
    }

    open spec fn block_fails_spec(self, post: Self, block: Seq<Instruction>, e: VMError) -> bool {
        linear_block_fails(self, post, block, e)
    }

    fn execute_instruction(&mut self, bare_instruction: &Instruction) -> (r: Result<
        (InstructionResult, MemoryRecords),
        VMError,
    >) {
        LinearEmulator::execute_instruction(self, bare_instruction)
    }

    fn fetch_block(&mut self, pc: u32) -> (r: Result<BasicBlock, VMError>) {
        LinearEmulator::fetch_block(self, pc)
    }

    fn get_executor(&self) -> &Executor {
        &self.executor
    }

    fn get_executor_mut(&mut self) -> (r: &mut Executor) {
        &mut self.executor
    }

    fn execute_basic_block(&mut self, basic_block: &BasicBlock) -> (r: Result<
        (Vec<InstructionResult>, MemoryTranscript),
        VMError,
    >) {
        LinearEmulator::execute_basic_block(self, basic_block)
    }

    fn execute(&mut self) -> (r: Result<(Vec<InstructionResult>, MemoryTranscript), VMError>) {
        let r = LinearEmulator::execute(self);
        proof {
            match &r {
                Err(e) => {
                    let f = choose|f: nat| linear_run_fails(*old(self), *self, *e, f);
                    assert(old(self).run_fails_spec(*self, *e, f));
                },
                Ok(_) => {},
            }
        }
        r
    }
}

} // verus!
