//! The main-trace builder (a dense, column-major table of field elements
//! filled one row per executed step) and the per-row input the chips
//! consume: a `ProgramStep` snapshot of the machine entering the step.

use vstd::prelude::*;

use crate::column::{col_offset, spec_col_offset, spec_col_width, Column, COLUMNS_TOTAL};
use crate::emulator::{InstructionResult, LinearEmulator, VMError};
use crate::field::{Fp, FIELD_MODULUS};
use crate::memory::extract_part;
use crate::rv32::{BasicBlock, Instruction, InstructionType};

verus! {

/// The numeric values of a row's field elements.
pub open spec fn row_of(v: Seq<Fp>) -> Seq<u32> {
    v.map_values(|f: Fp| f.v)
}

/// A machine word as four little-endian byte limbs.
pub type Word = [u8; 4];

/// Four carry or borrow bits.
pub type BoolWord = [bool; 4];

/// The little-endian byte limbs of a word.
pub fn le_bytes(w: u32) -> (r: Word)
    ensures
        r@[0] == (w % 0x100) as u8,
        r@[1] == ((w / 0x100) % 0x100) as u8,
        r@[2] == ((w / 0x10000) % 0x100) as u8,
        r@[3] == ((w / 0x1000000) % 0x100) as u8,
{
    [(w % 0x100) as u8, ((w / 0x100) % 0x100) as u8, ((w / 0x10000) % 0x100) as u8, ((w
        / 0x1000000) % 0x100) as u8]
}

/// One executed step as recorded for the trace: the machine's program
/// counter, the decoded instruction, and the destination result, if any.
#[derive(Debug, PartialEq, Eq)]
pub struct Step {
    pub pc: u32,
    pub instruction: Instruction,
    pub result: InstructionResult,
}

/// The per-row input to chips: the register file entering the step and the
/// step itself. Produced by the emulator in execution order; consumed
/// read-only by every chip filling that row.
#[derive(Debug, PartialEq, Eq)]
pub struct ProgramStep {
    pub regs: Vec<u32>,
    pub step: Step,
}

impl ProgramStep {
    /// 32 registers recorded and every register field in range.
    pub open spec fn wf(self) -> bool {
        self.regs@.len() == 32 && crate::emulator::exec_wf_instr(self.step.instruction)
    }

    /// The destination value the step computed; for branches and stores,
    /// the first source operand.
    pub open spec fn spec_value_a(self) -> u32 {
        if self.step.instruction.ins_type == InstructionType::BType
            || self.step.instruction.ins_type == InstructionType::SType {
            self.regs@[self.step.instruction.op_a as int]
        } else {
            match self.step.result {
                Some(v) => v,
                None => 0,
            }
        }
    }

    /// The first source operand's value.
    pub open spec fn spec_value_b(self) -> u32 {
        self.regs@[self.step.instruction.op_b as int]
    }

    /// The second operand: a register value for register forms, the
    /// immediate otherwise.
    pub open spec fn spec_value_c(self) -> u32 {
        if self.step.instruction.ins_type == InstructionType::RType {
            self.regs@[self.step.instruction.op_c as int]
        } else {
            self.step.instruction.op_c
        }
    }

    /// The destination value as byte limbs.
    pub fn get_value_a(&self) -> (r: Word)
        requires
            self.wf(),
        ensures
            forall|k: int| 0 <= k < 4 ==> r@[k] == (extract_part(
                self.spec_value_a(),
                k as u32,
                crate::memory::MemAccessSize::Byte,
            ) as u8),
    {
        let v: u32 = match self.step.instruction.ins_type {
            InstructionType::BType | InstructionType::SType => {
                self.regs[self.step.instruction.op_a as usize]
            },
            _ => match self.step.result {
                Some(v) => v,
                None => 0,
            },
        };
        le_bytes(v)
    }

    /// The first source operand as byte limbs.
    pub fn get_value_b(&self) -> (r: Word)
        requires
            self.wf(),
        ensures
            forall|k: int| 0 <= k < 4 ==> r@[k] == (extract_part(
                self.spec_value_b(),
                k as u32,
                crate::memory::MemAccessSize::Byte,
            ) as u8),
    {
        le_bytes(self.regs[self.step.instruction.op_b as usize])
    }

    /// The second operand as byte limbs, with whether it is an immediate.
    pub fn get_value_c(&self) -> (r: (Word, bool))
        requires
            self.wf(),
        ensures
            forall|k: int| 0 <= k < 4 ==> r.0@[k] == (extract_part(
                self.spec_value_c(),
                k as u32,
                crate::memory::MemAccessSize::Byte,
            ) as u8),
            r.1 == (self.step.instruction.ins_type != InstructionType::RType),
    {
        match self.step.instruction.ins_type {
            InstructionType::RType => (
                le_bytes(self.regs[self.step.instruction.op_c as usize]),
                false,
            ),
            _ => (le_bytes(self.step.instruction.op_c), true),
        }
    }

    /// The sign bit of the first source operand.
    pub fn get_sgn_b(&self) -> (r: bool)
        requires
            self.wf(),
        ensures
            r == (self.spec_value_b() >= 0x8000_0000),
    {
        self.regs[self.step.instruction.op_b as usize] >= 0x8000_0000
    }

    /// The sign bit of the second operand.
    pub fn get_sgn_c(&self) -> (r: bool)
        requires
            self.wf(),
        ensures
            r == (self.spec_value_c() >= 0x8000_0000),
    {
        let v: u32 = match self.step.instruction.ins_type {
            InstructionType::RType => self.regs[self.step.instruction.op_c as usize],
            _ => self.step.instruction.op_c,
        };
        v >= 0x8000_0000
    }

    /// The destination result as byte limbs, where the step has one.
    pub fn get_result(&self) -> (r: Option<Word>)
        ensures
            match r {
                Some(w) => self.step.result is Some && forall|k: int|
                    0 <= k < 4 ==> w@[k] == (extract_part(
                        self.step.result->0,
                        k as u32,
                        crate::memory::MemAccessSize::Byte,
                    ) as u8),
                None => self.step.result is None,
            },
    {
        match self.step.result {
            Some(v) => Some(le_bytes(v)),
            None => None,
        }
    }

    /// The canonical zero step a padding row is filled from.
    pub fn padding() -> (r: ProgramStep)
        ensures
            r.wf(),
            r.step.instruction == Instruction::unimpl_spec(),
            r.step.pc == 0,
            r.step.result is None,
            forall|k: int| 0 <= k < 32 ==> r.regs@[k] == 0,
    {
        let mut regs: Vec<u32> = Vec::new();
        let mut i: usize = 0;
        while i < 32
            invariant
                i <= 32,
                regs@.len() == i,
                forall|j: int| 0 <= j < i ==> regs@[j] == 0,
            decreases 32 - i,
        {
            regs.push(0);
            i = i + 1;
        }
        ProgramStep {
            regs,
            step: Step { pc: 0, instruction: Instruction::unimpl(), result: None },
        }
    }
}

/// The mutable accumulator threaded through chip filling for cross-row
/// bookkeeping; the chips of this crate need none.
#[derive(Debug, PartialEq, Eq)]
pub struct SideNote {}

impl SideNote {
    /// A fresh side note.
    pub fn new() -> (r: SideNote) {
        SideNote {  }
    }
}

/// The dense main trace under construction: `COLUMNS_TOTAL` base columns,
/// column-major, each `rows` field elements long.
#[derive(Debug, PartialEq, Eq)]
pub struct TracesBuilder {
    pub data: Vec<Fp>,
    pub log_size: u32,
    pub rows: usize,
}

impl TracesBuilder {
    /// The storage matches the declared shape and holds reduced elements.
    pub open spec fn wf(self) -> bool {
        &&& self.rows > 0
        &&& self.data@.len() == COLUMNS_TOTAL * self.rows
        &&& forall|j: int| 0 <= j < self.data@.len() ==> (#[trigger] self.data@[j]).ok()
    }

    /// The value in base column `c` at `row`.
    pub open spec fn spec_cell(self, c: int, row: int) -> u32 {
        self.data@[c * self.rows + row].v
    }

    /// A zero-filled trace with `2^log_size` rows; the whole column store
    /// must fit the machine's address space.
    pub fn new(log_size: u32) -> (r: TracesBuilder)
        requires
            COLUMNS_TOTAL * vstd::arithmetic::power2::pow2(log_size as nat) <= usize::MAX,
        ensures
            r.wf(),
            r.log_size == log_size,
            r.rows == vstd::arithmetic::power2::pow2(log_size as nat),
            forall|c: int, row: int|
                0 <= c < COLUMNS_TOTAL && 0 <= row < r.rows ==> r.spec_cell(c, row) == 0,
    {
        proof {
            vstd::arithmetic::power2::lemma2_to64();
            if log_size >= 64 {
                vstd::arithmetic::power2::lemma_pow2_strictly_increases(
                    64,
                    log_size as nat,
                );
                assert(false);
            }
            vstd::bits::lemma_u64_pow2_no_overflow(log_size as nat);
            vstd::bits::lemma_u64_shl_is_mul(1, log_size as u64);
        }
        let rows64: u64 = 1u64 << (log_size as u64);
        let rows = rows64 as usize;
        let n = COLUMNS_TOTAL * rows;
        let mut data: Vec<Fp> = Vec::new();
        let mut i: usize = 0;
        while i < n
            invariant
                i <= n,
                data@.len() == i,
                forall|j: int| 0 <= j < i ==> data@[j] == (Fp { v: 0u32 }),
            decreases n - i,
        {
            data.push(Fp { v: 0 });
            i = i + 1;
        }
        let r = TracesBuilder { data, log_size, rows };
        proof {
            assert forall|c: int, row: int|
                0 <= c < COLUMNS_TOTAL && 0 <= row < r.rows implies r.spec_cell(c, row) == 0 by {
                lemma_cell_index_inj(r.rows as int, c, row);
            }
        }
        r
    }

    /// The number of rows.
    pub fn num_rows(&self) -> (r: usize)
        ensures
            r == self.rows,
    {
        self.rows
    }

    /// Writes one base cell; every other cell is kept.
    fn put(&mut self, c: usize, row: usize, v: Fp)
        requires
            old(self).wf(),
            c < COLUMNS_TOTAL,
            row < old(self).rows,
            v.ok(),
        ensures
            final(self).wf(),
            final(self).rows == old(self).rows,
            final(self).log_size == old(self).log_size,
            final(self).spec_cell(c as int, row as int) == v.v,
            forall|c2: int, r2: int|
                0 <= c2 < COLUMNS_TOTAL && 0 <= r2 < old(self).rows && !(c2 == c && r2 == row)
                    ==> final(self).spec_cell(c2, r2) == old(self).spec_cell(c2, r2),
    {
        let n = self.data.len();
        proof {
            lemma_cell_index_inj(self.rows as int, c as int, row as int);
            assert((c as int * self.rows as int + row as int) < n as int);
        }
        let idx = c * self.rows + row;
        self.data.set(idx, v);
        proof {
            let ghost rows0 = old(self).rows as int;
            assert forall|c2: int, r2: int|
                0 <= c2 < COLUMNS_TOTAL && 0 <= r2 < old(self).rows && !(c2 == c && r2 == row)
                    implies final(self).spec_cell(c2, r2) == old(self).spec_cell(c2, r2) by {
                lemma_cell_index_inj(self.rows as int, c2, r2);
                lemma_cell_index_distinct(rows0, c2, r2, c as int, row as int);
            }
        }
    }

    /// Fills a four-limb column from a word's byte limbs.
    pub fn fill_columns_word(&mut self, row: usize, w: Word, col: Column)
        requires
            old(self).wf(),
            row < old(self).rows,
            spec_col_width(col) == 4,
        ensures
            final(self).wf(),
            final(self).rows == old(self).rows,
            final(self).log_size == old(self).log_size,
            forall|k: int|
                0 <= k < 4 ==> final(self).spec_cell(spec_col_offset(col) + k, row as int)
                    == w@[k],
            forall|c2: int, r2: int|
                0 <= c2 < COLUMNS_TOTAL && 0 <= r2 < old(self).rows && !(spec_col_offset(col)
                    <= c2 < spec_col_offset(col) + 4 && r2 == row) ==> final(self).spec_cell(
                    c2,
                    r2,
                ) == old(self).spec_cell(c2, r2),
    {
        let off = col_offset(col);
        let mut k: usize = 0;
        while k < 4
            invariant
                k <= 4,
                self.wf(),
                self.rows == old(self).rows,
                self.log_size == old(self).log_size,
                off == spec_col_offset(col),
                off + 4 <= COLUMNS_TOTAL,
                row < self.rows,
                forall|j: int|
                    0 <= j < k ==> self.spec_cell(off + j, row as int) == w@[j],
                forall|c2: int, r2: int|
                    0 <= c2 < COLUMNS_TOTAL && 0 <= r2 < old(self).rows && !(off <= c2 < off + 4
                        && r2 == row) ==> self.spec_cell(c2, r2) == old(self).spec_cell(c2, r2),
            decreases 4 - k,
        {
            proof {
                assert((w@[k as int] as u32) < FIELD_MODULUS);
            }
            self.put(off + k, row, Fp { v: w[k] as u32 });
            k = k + 1;
        }
    }

    /// Fills a four-limb column from four bits.
    pub fn fill_columns_bool_word(&mut self, row: usize, w: BoolWord, col: Column)
        requires
            old(self).wf(),
            row < old(self).rows,
            spec_col_width(col) == 4,
        ensures
            final(self).wf(),
            final(self).rows == old(self).rows,
            final(self).log_size == old(self).log_size,
            forall|k: int|
                0 <= k < 4 ==> final(self).spec_cell(spec_col_offset(col) + k, row as int) == (
                if w@[k] {
                    1int
                } else {
                    0int
                }),
            forall|c2: int, r2: int|
                0 <= c2 < COLUMNS_TOTAL && 0 <= r2 < old(self).rows && !(spec_col_offset(col)
                    <= c2 < spec_col_offset(col) + 4 && r2 == row) ==> final(self).spec_cell(
                    c2,
                    r2,
                ) == old(self).spec_cell(c2, r2),
    {
        let off = col_offset(col);
        let mut k: usize = 0;
        while k < 4
            invariant
                k <= 4,
                self.wf(),
                self.rows == old(self).rows,
                self.log_size == old(self).log_size,
                off == spec_col_offset(col),
                off + 4 <= COLUMNS_TOTAL,
                row < self.rows,
                forall|j: int|
                    0 <= j < k ==> self.spec_cell(off + j, row as int) == (if w@[j] {
                        1int
                    } else {
                        0int
                    }),
                forall|c2: int, r2: int|
                    0 <= c2 < COLUMNS_TOTAL && 0 <= r2 < old(self).rows && !(off <= c2 < off + 4
                        && r2 == row) ==> self.spec_cell(c2, r2) == old(self).spec_cell(c2, r2),
            decreases 4 - k,
        {
            let v: u32 = if w[k] {
                1
            } else {
                0
            };
            self.put(off + k, row, Fp { v });
            k = k + 1;
        }
    }

    /// Fills a one-column flag from a bit.
    pub fn fill_columns_bool(&mut self, row: usize, b: bool, col: Column)
        requires
            old(self).wf(),
            row < old(self).rows,
            spec_col_width(col) == 1,
        ensures
            final(self).wf(),
            final(self).rows == old(self).rows,
            final(self).log_size == old(self).log_size,
            final(self).spec_cell(spec_col_offset(col), row as int) == (if b {
                1int
            } else {
                0int
            }),
            forall|c2: int, r2: int|
                0 <= c2 < COLUMNS_TOTAL && 0 <= r2 < old(self).rows && !(c2 == spec_col_offset(
                    col,
                ) && r2 == row) ==> final(self).spec_cell(c2, r2) == old(self).spec_cell(c2, r2),
    {
        let off = col_offset(col);
        let v: u32 = if b {
            1
        } else {
            0
        };
        self.put(off, row, Fp { v });
    }

    /// Fills a four-limb column from a word's limbs gated by a flag: the
    /// limbs where the flag is set, zeros where it is not.
    pub fn fill_effective_columns(&mut self, row: usize, w: &Word, col: Column, flag: bool)
        requires
            old(self).wf(),
            row < old(self).rows,
            spec_col_width(col) == 4,
        ensures
            final(self).wf(),
            final(self).rows == old(self).rows,
            final(self).log_size == old(self).log_size,
            forall|k: int|
                0 <= k < 4 ==> final(self).spec_cell(spec_col_offset(col) + k, row as int) == (
                if flag {
                    w@[k] as int
                } else {
                    0int
                }),
            forall|c2: int, r2: int|
                0 <= c2 < COLUMNS_TOTAL && 0 <= r2 < old(self).rows && !(spec_col_offset(col)
                    <= c2 < spec_col_offset(col) + 4 && r2 == row) ==> final(self).spec_cell(
                    c2,
                    r2,
                ) == old(self).spec_cell(c2, r2),
    {
        if flag {
            self.fill_columns_word(row, *w, col);
        } else {
            self.fill_columns_word(row, [0u8, 0u8, 0u8, 0u8], col);
        }
    }

    /// The values of every base column at one row.
    pub fn row_eval(&self, row: usize) -> (r: Vec<Fp>)
        requires
            self.wf(),
            row < self.rows,
        ensures
            r@.len() == COLUMNS_TOTAL,
            forall|c: int| 0 <= c < COLUMNS_TOTAL ==> (#[trigger] r@[c]).v == self.spec_cell(c, row as int),
            forall|c: int| 0 <= c < COLUMNS_TOTAL ==> (#[trigger] r@[c]).ok(),
    {
        let mut out: Vec<Fp> = Vec::new();
        let mut c: usize = 0;
        while c < COLUMNS_TOTAL
            invariant
                c <= COLUMNS_TOTAL,
                self.wf(),
                row < self.rows,
                out@.len() == c,
                forall|j: int| 0 <= j < c ==> (#[trigger] out@[j]).v == self.spec_cell(j, row as int),
                forall|j: int| 0 <= j < c ==> (#[trigger] out@[j]).ok(),
            decreases COLUMNS_TOTAL - c,
        {
            let n = self.data.len();
            proof {
                lemma_cell_index_inj(self.rows as int, c as int, row as int);
                assert((c as int * self.rows as int + row as int) < n as int);
            }
            out.push(self.data[c * self.rows + row]);
            c = c + 1;
        }
        out
    }
}

/// Distinct cells have distinct flat indices.
proof fn lemma_cell_index_distinct(rows: int, c1: int, r1: int, c2: int, r2: int)
    requires
        rows > 0,
        0 <= c1,
        0 <= r1 < rows,
        0 <= c2,
        0 <= r2 < rows,
        !(c1 == c2 && r1 == r2),
    ensures
        c1 * rows + r1 != c2 * rows + r2,
{
    assert(c1 * rows + r1 != c2 * rows + r2) by (nonlinear_arith)
        requires
            rows > 0,
            0 <= c1,
            0 <= r1 < rows,
            0 <= c2,
            0 <= r2 < rows,
            !(c1 == c2 && r1 == r2),
    ;
}

/// A cell's flat index stays inside the storage.
proof fn lemma_cell_index_inj(rows: int, c: int, row: int)
    requires
        rows > 0,
        0 <= c < COLUMNS_TOTAL,
        0 <= row < rows,
    ensures
        0 <= c * rows + row < COLUMNS_TOTAL * rows,
{
    assert(0 <= c * rows + row < COLUMNS_TOTAL * rows) by (nonlinear_arith)
        requires
            rows > 0,
            0 <= c < COLUMNS_TOTAL,
            0 <= row < rows,
    ;
}

/// One collected snapshot: the machine may first fetch a block at its
/// program counter, the snapshot records the registers and program
/// counter entering the step and the step's instruction and result, and
/// the machine takes that step successfully.
pub open spec fn ktrace_link(m1: LinearEmulator, m2: LinearEmulator, s: ProgramStep) -> bool {
    ||| (exists|recs: crate::memory::MemoryRecords|
        #![auto]
        s.regs@ == m1.executor.cpu.registers.regs@ && s.step.pc == m1.executor.cpu.pc.value
            && crate::emulator::linear_frame(m1, m2) && crate::emulator::linear_step_ok(
            m1,
            m2,
            s.step.instruction,
            s.step.result,
            recs@,
        ))
    ||| (exists|fm: LinearEmulator, recs: crate::memory::MemoryRecords, block: Seq<Instruction>|
        #![auto]
        crate::emulator::linear_fetch_ok(m1, fm, m1.executor.cpu.pc.value, block) && s.regs@
            == fm.executor.cpu.registers.regs@ && s.step.pc == fm.executor.cpu.pc.value
            && crate::emulator::linear_frame(fm, m2) && crate::emulator::linear_step_ok(
            fm,
            m2,
            s.step.instruction,
            s.step.result,
            recs@,
        ))
}

/// A chain of machines whose consecutive pairs are linked by the
/// collected snapshots, in order.
pub open spec fn ktrace_chain(ms: Seq<LinearEmulator>, steps: Seq<ProgramStep>) -> bool {
    &&& ms.len() == steps.len() + 1
    &&& (forall|j: int| 0 <= j < steps.len() ==> ktrace_link(ms[j], ms[j + 1], #[trigger] steps[j]))
}

/// Where collecting stops: the machine's next fetch finds it has left the
/// code, or the machine sits at the exit call, its `a7` holding the exit
/// number.
pub open spec fn ktrace_ends(m: LinearEmulator) -> bool {
    ||| crate::emulator::linear_fetch_err(
        m,
        m.executor.cpu.pc.value,
        crate::emulator::VMError::VMOutOfInstructions,
    )
    ||| m.executor.cpu.registers.regs@[17] == crate::emulator::SYSCALL_EXIT
}

/// The collected steps are witnessed by a machine chain: it starts at
/// the machine the blocks build under the default testing layout, each
/// snapshot links consecutive machines, and past the last machine the
/// run has left the code or sits at the exit call.
pub open spec fn ktrace_witnessed(blocks: Seq<Seq<Instruction>>, steps: Seq<ProgramStep>) -> bool {
    exists|ms: Seq<LinearEmulator>|
        #![trigger ktrace_chain(ms, steps)]
        crate::emulator::linear_from_blocks_built(
            ms[0],
            crate::layout::LinearMemoryLayout {
            program: 0x1000,
            input_start: 0x100000,
            input_end: 0x100004,
            exit: 0x100004,
            output_end: 0x100008,
            heap_begin: 0x200000,
            heap_finish: 0x240000,
            stack_low: 0x300000,
            stack_high: 0x340000,
            ad_begin: 0x340000,
            ad_finish: 0x340000,
        },
            blocks,
        ) && ktrace_chain(ms, steps) && ktrace_ends(ms[steps.len() as int])
}

/// Runs blocks on a fresh second-pass machine and collects one
/// `ProgramStep` per executed instruction, until the program leaves its
/// code or exits cleanly.
pub fn k_trace(basic_blocks: &Vec<BasicBlock>) -> (r: Result<Vec<ProgramStep>, VMError>)
    requires
        forall|j: int|
            0 <= j < basic_blocks@.len() ==> crate::decoder::wf_block(
                (#[trigger] basic_blocks@[j])@,
            ),
        0x1000 + 4 * crate::emulator::spec_encode_blocks(
            basic_blocks@.map_values(|b: BasicBlock| b@),
        ).len() <= 0x100000,
    ensures
        match r {
            Ok(steps) => {
                &&& (forall|j: int| 0 <= j < steps@.len() ==> (#[trigger] steps@[j]).wf())
                &&& ktrace_witnessed(basic_blocks@.map_values(|b: BasicBlock| b@), steps@)
            },
            Err(_) => true,
        },
{
    let layout = crate::layout::LinearMemoryLayout::default();
    let em0 = LinearEmulator::from_basic_blocks(layout, basic_blocks);
    let mut em = em0;
    let ghost mut ms: Seq<LinearEmulator> = seq![em];
    let mut steps: Vec<ProgramStep> = Vec::new();
    loop
        invariant
            em.wf(),
            forall|j: int| 0 <= j < steps@.len() ==> (#[trigger] steps@[j]).wf(),
            ktrace_chain(ms, steps@),
            crate::emulator::linear_from_blocks_built(
                ms[0],
                crate::layout::LinearMemoryLayout {
                    program: 0x1000,
                    input_start: 0x100000,
                    input_end: 0x100004,
                    exit: 0x100004,
                    output_end: 0x100008,
                    heap_begin: 0x200000,
                    heap_finish: 0x240000,
                    stack_low: 0x300000,
                    stack_high: 0x340000,
                    ad_begin: 0x340000,
                    ad_finish: 0x340000,
                },
                basic_blocks@.map_values(|b: BasicBlock| b@),
            ),
            ms[steps@.len() as int] == em,
        decreases usize::MAX - em.executor.global_clock,
    {
        let pc = em.executor.cpu.pc.value;
        let ghost pre_fetch = em;
        let block = match em.fetch_block(pc) {
            Ok(b) => b,
            Err(VMError::VMOutOfInstructions) => {
                proof {
                    assert(ktrace_ends(ms[steps@.len() as int]));
                    assert(ktrace_witnessed(
                        basic_blocks@.map_values(|b: BasicBlock| b@),
                        steps@,
                    )) by {
                        assert(ktrace_chain(ms, steps@));
                    }
                }
                return Ok(steps);
            },
            Err(e) => {
                return Err(e);
            },
        };
        let ghost fetched = em;
        let mut k: usize = 0;
        let ghost clock_entry = em.executor.global_clock;
        while k < block.0.len()
            invariant
                em.wf(),
                crate::emulator::block_wf(block.0@),
                k <= block.0@.len(),
                forall|j: int| 0 <= j < steps@.len() ==> (#[trigger] steps@[j]).wf(),
                em.executor.global_clock >= clock_entry + k,
                ktrace_chain(ms, steps@),
                crate::emulator::linear_from_blocks_built(
                    ms[0],
                    crate::layout::LinearMemoryLayout {
                        program: 0x1000,
                        input_start: 0x100000,
                        input_end: 0x100004,
                        exit: 0x100004,
                        output_end: 0x100008,
                        heap_begin: 0x200000,
                        heap_finish: 0x240000,
                        stack_low: 0x300000,
                        stack_high: 0x340000,
                        ad_begin: 0x340000,
                        ad_finish: 0x340000,
                    },
                    basic_blocks@.map_values(|b: BasicBlock| b@),
                ),
                k == 0 ==> ms[steps@.len() as int] == pre_fetch && em == fetched
                    && crate::emulator::linear_fetch_ok(
                    pre_fetch,
                    fetched,
                    pre_fetch.executor.cpu.pc.value,
                    block.0@,
                ),
                k > 0 ==> ms[steps@.len() as int] == em,
            decreases block.0@.len() - k,
        {
            let instr = block.0[k];
            let mut regs_snapshot: Vec<u32> = Vec::new();
            let mut ri: usize = 0;
            while ri < 32
                invariant
                    ri <= 32,
                    em.wf(),
                    regs_snapshot@.len() == ri,
                    forall|j: int|
                        0 <= j < ri ==> regs_snapshot@[j] == em.executor.cpu.registers.regs@[j],
                decreases 32 - ri,
            {
                regs_snapshot.push(em.executor.cpu.registers.read(ri as u8));
                ri = ri + 1;
            }
            proof {
                assert(regs_snapshot@ =~= em.executor.cpu.registers.regs@);
            }
            let step_pc = em.executor.cpu.pc.value;
            let ghost pre_step = em;
            match em.execute_instruction(&instr) {
                Ok((res, records)) => {
                    let snapshot = ProgramStep {
                        regs: regs_snapshot,
                        step: Step { pc: step_pc, instruction: instr, result: res },
                    };
                    proof {
                        let m1 = ms[steps@.len() as int];
                        assert(ktrace_link(m1, em, snapshot)) by {
                            if k == 0 {
                                assert(crate::emulator::linear_fetch_ok(
                                    m1,
                                    fetched,
                                    m1.executor.cpu.pc.value,
                                    block.0@,
                                ) && snapshot.regs@ == fetched.executor.cpu.registers.regs@
                                    && snapshot.step.pc == fetched.executor.cpu.pc.value
                                    && crate::emulator::linear_frame(fetched, em)
                                    && crate::emulator::linear_step_ok(
                                    fetched,
                                    em,
                                    snapshot.step.instruction,
                                    snapshot.step.result,
                                    records@,
                                ));
                            } else {
                                assert(snapshot.regs@ == m1.executor.cpu.registers.regs@
                                    && snapshot.step.pc == m1.executor.cpu.pc.value
                                    && crate::emulator::linear_frame(m1, em)
                                    && crate::emulator::linear_step_ok(
                                    m1,
                                    em,
                                    snapshot.step.instruction,
                                    snapshot.step.result,
                                    records@,
                                ));
                            }
                        }
                        let ghost pre_ms = ms;
                        let ghost pre_steps = steps@;
                        ms = ms.push(em);
                        assert(ktrace_chain(ms, pre_steps.push(snapshot))) by {
                            assert forall|j: int|
                                0 <= j < pre_steps.push(snapshot).len() implies ktrace_link(
                                ms[j],
                                ms[j + 1],
                                #[trigger] pre_steps.push(snapshot)[j],
                            ) by {
                                if j < pre_steps.len() {
                                    assert(ms[j] == pre_ms[j] && ms[j + 1] == pre_ms[j + 1]);
                                    assert(pre_steps.push(snapshot)[j] == pre_steps[j]);
                                    assert(ktrace_link(pre_ms[j], pre_ms[j + 1], pre_steps[j]));
                                } else {
                                    assert(pre_steps.push(snapshot)[j] == snapshot);
                                    assert(ms[j] == pre_ms[pre_steps.len() as int]);
                                    assert(ms[j + 1] == em);
                                }
                            }
                        }
                    }
                    steps.push(snapshot);
                },
                Err(e) => {
                    if matches!(e, VMError::VMExited(_)) {
                        proof {
                            crate::emulator::lemma_vmexited_is_exit_call(pre_step, em, instr, e);
                            assert(ms[steps@.len() as int].executor.cpu.registers.regs@[17]
                                == crate::emulator::SYSCALL_EXIT);
                            assert(ktrace_ends(ms[steps@.len() as int]));
                            assert(ktrace_witnessed(
                                basic_blocks@.map_values(|b: BasicBlock| b@),
                                steps@,
                            )) by {
                                assert(ktrace_chain(ms, steps@));
                            }
                        }
                        return Ok(steps);
                    }
                    return Err(e);
                },
            }
            k = k + 1;
        }
    }
}

} // verus!
