//! The chip of the unsigned branch-if-not-below instruction. It computes
//! the limb-wise difference of the two operands, whose final borrow is the
//! unsigned below flag, and the next program counter: the branch target
//! when the flag is clear, the fall-through address when it is set. Both
//! are enforced as four-limb additions gated by the chip's selector.

use vstd::prelude::*;

use crate::chips::add::{add_with_carries, carry_in};
use crate::chips::sub::{limbs_are_diff, subtract_with_borrow, lemma_borrow_is_unsigned_lt};
use crate::column::Column;
use crate::field::{Fp, fadd, fmul, fsub};
use crate::rv32::BuiltinOpcode;
use crate::trace::{le_bytes, BoolWord, ProgramStep, SideNote, TracesBuilder, Word};

verus! {

/// What the branch chip computes for one step.
pub struct ExecutionResult {
    pub diff_bytes: Word,
    pub borrow_bits: BoolWord,
    pub pc_next: Word,
    pub carry_bits: BoolWord,
}

/// Whether sum limbs and carries witness `x + y` over byte limbs.
pub open spec fn limbs_are_sum(s: Seq<u8>, car: Seq<bool>, x: u32, y: u32) -> bool {
    &&& s[0] == (x % 0x100) + (y % 0x100) - 256 * carry_in(car[0])
    &&& s[1] == (x / 0x100 % 0x100) + (y / 0x100 % 0x100) + carry_in(car[0]) - 256 * carry_in(
        car[1],
    )
    &&& s[2] == (x / 0x10000 % 0x100) + (y / 0x10000 % 0x100) + carry_in(car[1]) - 256 * carry_in(
        car[2],
    )
    &&& s[3] == (x / 0x1000000 % 0x100) + (y / 0x1000000 % 0x100) + carry_in(car[2]) - 256
        * carry_in(car[3])
}

/// The branch chip.
pub struct BgeuChip;

impl BgeuChip {
    /// Computes the step's difference limbs with borrows (the final
    /// borrow is the unsigned below flag) and the next program counter
    /// limbs with carries: the fall-through address when the first
    /// operand is below the second, the branch target otherwise.
    #[verifier::rlimit(100)]
    #[verifier::spinoff_prover]
    pub fn execute(program_step: &ProgramStep) -> (r: ExecutionResult)
        requires
            program_step.wf(),
        ensures
            ({
                let a = program_step.spec_value_a();
                let b = program_step.spec_value_b();
                let imm = program_step.spec_value_c();
                let pc = program_step.step.pc;
                &&& limbs_are_diff(r.diff_bytes@, r.borrow_bits@, a, b)
                &&& r.borrow_bits@[3] == (a < b)
                &&& limbs_are_sum(
                    r.pc_next@,
                    r.carry_bits@,
                    pc,
                    if a < b {
                        4u32
                    } else {
                        imm
                    },
                )
            }),
    {
        let value_a = program_step.get_value_a();
        let value_b = program_step.get_value_b();
        let (imm, _) = program_step.get_value_c();
        let pc = le_bytes(program_step.step.pc);
        let (diff_bytes, borrow_bits) = subtract_with_borrow(value_a, value_b);
        proof {
            lemma_borrow_is_unsigned_lt(
                value_a@[0] as int,
                value_a@[1] as int,
                value_a@[2] as int,
                value_a@[3] as int,
                value_b@[0] as int,
                value_b@[1] as int,
                value_b@[2] as int,
                value_b@[3] as int,
                diff_bytes@[0] as int,
                diff_bytes@[1] as int,
                diff_bytes@[2] as int,
                diff_bytes@[3] as int,
                carry_in(borrow_bits@[0]),
                carry_in(borrow_bits@[1]),
                carry_in(borrow_bits@[2]),
                carry_in(borrow_bits@[3]),
            );
            crate::chips::cpu::lemma_word_bytes(program_step.spec_value_a());
            crate::chips::cpu::lemma_word_bytes(program_step.spec_value_b());
        }
        let (pc_next, carry_bits) = if borrow_bits[3] {
            add_with_carries(pc, le_bytes(4))
        } else {
            add_with_carries(pc, imm)
        };
        ExecutionResult { diff_bytes, borrow_bits, pc_next, carry_bits }
    }

    /// Fills the branch chip's columns for one row: the difference limbs,
    /// the borrow bits, the first operand, the next program counter and
    /// its carries. A no-op off branch rows and on padding.
    #[verifier::rlimit(100)]
    #[verifier::spinoff_prover]
    pub fn fill_main_trace(
        traces: &mut TracesBuilder,
        row_idx: usize,
        vm_step: &Option<ProgramStep>,
        _side_note: &mut SideNote,
    )
        requires
            old(traces).wf(),
            row_idx < old(traces).rows,
            match vm_step {
                Some(s) => s.wf(),
                None => true,
            },
        ensures
            final(traces).wf(),
            final(traces).rows == old(traces).rows,
            final(traces).log_size == old(traces).log_size,
            match vm_step {
                Some(s) => if s.step.instruction.opcode.spec_builtin() == Some(
                    BuiltinOpcode::BGEU,
                ) {
                    bgeu_row_filled(*final(traces), row_idx as int, *s) && (forall|c: int, r: int|
                        0 <= c < crate::column::COLUMNS_TOTAL && 0 <= r < old(traces).rows && !(r
                            == row_idx && (4 <= c < 12 || 24 <= c < 28 || 36 <= c < 44))
                            ==> final(traces).spec_cell(c, r) == old(traces).spec_cell(c, r))
                } else {
                    *final(traces) == *old(traces)
                },
                None => *final(traces) == *old(traces),
            },
    {
        let vm_step = match vm_step {
            Some(vm_step) => vm_step,
            None => {
                return ;
            },
        };
        let is_bgeu = match vm_step.step.instruction.opcode.builtin() {
            Some(BuiltinOpcode::BGEU) => true,
            _ => false,
        };
        if !is_bgeu {
            return ;
        }
        let res = Self::execute(vm_step);
        let value_a = vm_step.get_value_a();
        traces.fill_columns_word(row_idx, res.diff_bytes, Column::Helper1);
        traces.fill_columns_bool_word(row_idx, res.borrow_bits, Column::BorrowFlag);
        traces.fill_columns_word(row_idx, value_a, Column::ValueA);
        traces.fill_columns_word(row_idx, res.pc_next, Column::PcNext);
        traces.fill_columns_bool_word(row_idx, res.carry_bits, Column::CarryFlag);
        proof {
            let a = vm_step.spec_value_a();
            let row = row_idx as int;
            assert forall|k: int|
                0 <= k < 4 implies #[trigger] traces.spec_cell(8 + k, row)
                == crate::memory::extract_part(a, k as u32, crate::memory::MemAccessSize::Byte) by {
                assert(traces.spec_cell(8 + k, row) == value_a@[k]);
                assert(value_a@[k] == (crate::memory::extract_part(
                    a,
                    k as u32,
                    crate::memory::MemAccessSize::Byte,
                ) as u8));
            }
        }
    }

    /// Appends the branch constraints over a row's column values: the four
    /// limb constraints of the operand difference, and the four limb
    /// constraints of the next program counter, the immediate and the
    /// fall-through offset combined linearly by the below flag. All are
    /// gated by the chip's selector.
    pub fn add_constraints(
        eval: &mut Vec<Fp>,
        trace_eval: &Vec<Fp>,
        _lookup_elements: &crate::lookups::AllLookupElements,
    )
        requires
            trace_eval@.len() == crate::column::COLUMNS_TOTAL,
            forall|c: int|
                0 <= c < crate::column::COLUMNS_TOTAL ==> (#[trigger] trace_eval@[c]).ok(),
            forall|j: int| 0 <= j < old(eval)@.len() ==> (#[trigger] old(eval)@[j]).ok(),
        ensures
            final(eval)@.len() == old(eval)@.len() + 8,
            forall|j: int| 0 <= j < final(eval)@.len() ==> (#[trigger] final(eval)@[j]).ok(),
            forall|j: int| 0 <= j < old(eval)@.len() ==> final(eval)@[j] == old(eval)@[j],
            forall|k: int|
                0 <= k < 8 ==> (#[trigger] final(eval)@[old(eval)@.len() + k]).v == bgeu_constraint_spec(
                    crate::trace::row_of(trace_eval@),
                    k,
                ),
    {
        let is_bgeu = trace_eval[49];
        let ltu = trace_eval[43];
        let mut k: usize = 0;
        while k < 8
            invariant
                k <= 8,
                trace_eval@.len() == crate::column::COLUMNS_TOTAL,
                forall|c: int|
                    0 <= c < crate::column::COLUMNS_TOTAL ==> (#[trigger] trace_eval@[c]).ok(),
                is_bgeu == trace_eval@[49],
                ltu == trace_eval@[43],
                eval@.len() == old(eval)@.len() + k,
                forall|j: int| 0 <= j < eval@.len() ==> (#[trigger] eval@[j]).ok(),
                forall|j: int| 0 <= j < old(eval)@.len() ==> eval@[j] == old(eval)@[j],
                forall|q: int|
                    0 <= q < k ==> (#[trigger] eval@[old(eval)@.len() + q]).v == bgeu_constraint_spec(
                        crate::trace::row_of(trace_eval@),
                        q,
                    ),
            decreases 8 - k,
        {
            let c = if k < 4 {
                let i = k;
                let a_i = trace_eval[8 + i];
                let b_i = trace_eval[16 + i];
                let h_i = trace_eval[24 + i];
                let bor_i = trace_eval[40 + i];
                let bor_prev = if i == 0 {
                    Fp::zero()
                } else {
                    trace_eval[40 + i - 1]
                };
                let pos = a_i.add(bor_i.mul(Fp::new(0x100)));
                let neg = b_i.add(h_i).add(bor_prev);
                is_bgeu.mul(pos.sub(neg))
            } else {
                let i = k - 4;
                let c_i = trace_eval[20 + i];
                let pc_i = trace_eval[i];
                let carry_i = trace_eval[36 + i];
                let carry_prev = if i == 0 {
                    Fp::zero()
                } else {
                    trace_eval[36 + i - 1]
                };
                let pn_i = trace_eval[4 + i];
                let t1 = Fp::one().sub(ltu).mul(c_i);
                let t2 = if i == 0 {
                    ltu.mul(Fp::new(4))
                } else {
                    Fp::zero()
                };
                let pos = t1.add(t2).add(pc_i).add(carry_prev);
                let neg = carry_i.mul(Fp::new(0x100)).add(pn_i);
                is_bgeu.mul(pos.sub(neg))
            };
            eval.push(c);
            k = k + 1;
        }
    }
}

/// What the branch chip writes at a row for a real branch step, related
/// to the step's operands: the first operand's limbs, difference limbs
/// with their borrows witnessing the unsigned comparison, and the next
/// program counter's limbs with their carries.
pub open spec fn bgeu_row_filled(t: crate::trace::TracesBuilder, row: int, s: ProgramStep) -> bool {
    let a = s.spec_value_a();
    let b = s.spec_value_b();
    let imm = s.spec_value_c();
    let pc = s.step.pc;
    let taken_y: u32 = if a < b {
        4
    } else {
        imm
    };
    &&& (forall|k: int|
        0 <= k < 4 ==> #[trigger] t.spec_cell(8 + k, row) == crate::memory::extract_part(
            a,
            k as u32,
            crate::memory::MemAccessSize::Byte,
        ))
    &&& (forall|k: int| 0 <= k < 4 ==> #[trigger] t.spec_cell(24 + k, row) < 256)
    &&& (forall|k: int|
        0 <= k < 4 ==> (#[trigger] t.spec_cell(40 + k, row) == 0 || t.spec_cell(40 + k, row)
            == 1))
    &&& (forall|k: int|
        0 <= k < 4 ==> (#[trigger] t.spec_cell(36 + k, row) == 0 || t.spec_cell(36 + k, row)
            == 1))
    &&& (forall|k: int| 0 <= k < 4 ==> #[trigger] t.spec_cell(4 + k, row) < 256)
    &&& t.spec_cell(43, row) == (if a < b {
        1int
    } else {
        0int
    })
    &&& (forall|k: int|
        0 <= k < 4 ==> (#[trigger] t.spec_cell(24 + k, row)) as int == crate::memory::extract_part(
            a,
            k as u32,
            crate::memory::MemAccessSize::Byte,
        ) - crate::memory::extract_part(b, k as u32, crate::memory::MemAccessSize::Byte) - (
        if k == 0 {
            0int
        } else {
            t.spec_cell(40 + k - 1, row) as int
        }) + 256 * t.spec_cell(40 + k, row))
    &&& (forall|k: int|
        0 <= k < 4 ==> (#[trigger] t.spec_cell(4 + k, row)) as int == crate::memory::extract_part(
            pc,
            k as u32,
            crate::memory::MemAccessSize::Byte,
        ) + crate::memory::extract_part(taken_y, k as u32, crate::memory::MemAccessSize::Byte) + (
        if k == 0 {
            0int
        } else {
            t.spec_cell(36 + k - 1, row) as int
        }) - 256 * t.spec_cell(36 + k, row))
}

/// The branch chip's constraint `k` over a row's column values: limbs 0-3
/// constrain the operand difference, limbs 4-7 the next program counter.
pub open spec fn bgeu_constraint_spec(row: Seq<u32>, k: int) -> int {
    let is_bgeu = row[49] as int;
    let ltu = row[43] as int;
    if k < 4 {
        let i = k;
        let bor_prev: int = if i == 0 {
            0
        } else {
            row[40 + i - 1] as int
        };
        let pos = fadd(row[8 + i] as int, fmul(row[40 + i] as int, 0x100));
        let neg = fadd(fadd(row[16 + i] as int, row[24 + i] as int), bor_prev);
        fmul(is_bgeu, fsub(pos, neg))
    } else {
        let i = k - 4;
        let carry_prev: int = if i == 0 {
            0
        } else {
            row[36 + i - 1] as int
        };
        let t1 = fmul(fsub(1, ltu), row[20 + i] as int);
        let t2: int = if i == 0 {
            fmul(ltu, 4)
        } else {
            0
        };
        let pos = fadd(fadd(fadd(t1, t2), row[i] as int), carry_prev);
        let neg = fadd(fmul(row[36 + i] as int, 0x100), row[4 + i] as int);
        fmul(is_bgeu, fsub(pos, neg))
    }
}

/// Trace validity for the branch chip: on a row whose cells hold what the
/// chip fills for a real branch step — difference limbs with their
/// borrows, and next-program-counter limbs with their carries — every
/// branch constraint evaluates to zero. On a row whose selector is zero
/// they vanish as well, so inactive rows contribute nothing.
pub proof fn lemma_bgeu_constraints_vanish(row: Seq<u32>, k: int)
    requires
        row.len() == crate::column::COLUMNS_TOTAL,
        0 <= k < 8,
        row[49] == 0 || row[49] == 1,
        row[49] == 1 ==> {
            &&& forall|i: int| 0 <= i < 4 ==> (#[trigger] row[8 + i]) < 256
            &&& forall|i: int| 0 <= i < 4 ==> (#[trigger] row[16 + i]) < 256
            &&& forall|i: int| 0 <= i < 4 ==> (#[trigger] row[20 + i]) < 256
            &&& forall|i: int| 0 <= i < 4 ==> (#[trigger] row[24 + i]) < 256
            &&& forall|i: int| 0 <= i < 4 ==> (#[trigger] row[i]) < 256
            &&& forall|i: int| 0 <= i < 4 ==> (#[trigger] row[4 + i]) < 256
            &&& forall|i: int| 0 <= i < 4 ==> ((#[trigger] row[36 + i]) == 0 || row[36 + i] == 1)
            &&& forall|i: int| 0 <= i < 4 ==> ((#[trigger] row[40 + i]) == 0 || row[40 + i] == 1)
            &&& (forall|i: int|
                0 <= i < 4 ==> (#[trigger] row[24 + i]) as int == row[8 + i] - row[16 + i] - (if i == 0 {
                    0int
                } else {
                    row[40 + i - 1] as int
                }) + 256 * row[40 + i])
            &&& (forall|i: int|
                0 <= i < 4 ==> (#[trigger] row[4 + i]) as int == row[i] + (if row[43] == 1 {
                    if i == 0 {
                        4int
                    } else {
                        0int
                    }
                } else {
                    row[20 + i] as int
                }) + (if i == 0 {
                    0int
                } else {
                    row[36 + i - 1] as int
                }) - 256 * row[36 + i])
        },
    ensures
        bgeu_constraint_spec(row, k) == 0,
{
    let is_bgeu = row[49] as int;
    let ltu = row[43] as int;
    let ghost i3: int = 3;
    if is_bgeu == 1 {
        assert(row[40 + i3] == 0 || row[40 + i3] == 1);
        assert(ltu == 0 || ltu == 1);
    }
    if k < 4 {
        let i = k;
        let bor_prev: int = if i == 0 {
            0
        } else {
            row[40 + i - 1] as int
        };
        let pos = fadd(row[8 + i] as int, fmul(row[40 + i] as int, 0x100));
        let neg = fadd(fadd(row[16 + i] as int, row[24 + i] as int), bor_prev);
        if is_bgeu == 1 {
            crate::field::lemma_fmul_small(row[40 + i] as int, 0x100);
            crate::field::lemma_fadd_small(row[8 + i] as int, (row[40 + i] as int) * 0x100);
            crate::field::lemma_fadd_small(row[16 + i] as int, row[24 + i] as int);
            crate::field::lemma_fadd_small(row[16 + i] as int + row[24 + i] as int, bor_prev);
            crate::field::lemma_fsub_zero(pos, neg);
            crate::field::lemma_fmul_sel(is_bgeu, 0);
        } else {
            crate::field::lemma_fsub_ok(pos, neg);
            crate::field::lemma_fmul_sel(is_bgeu, fsub(pos, neg));
        }
    } else {
        let i = k - 4;
        let carry_prev: int = if i == 0 {
            0
        } else {
            row[36 + i - 1] as int
        };
        let t1 = fmul(fsub(1, ltu), row[20 + i] as int);
        let t2: int = if i == 0 {
            fmul(ltu, 4)
        } else {
            0
        };
        let pos = fadd(fadd(fadd(t1, t2), row[i] as int), carry_prev);
        let neg = fadd(fmul(row[36 + i] as int, 0x100), row[4 + i] as int);
        if is_bgeu == 1 {
            crate::field::lemma_fsub_small(1, ltu);
            crate::field::lemma_fmul_sel(1 - ltu, row[20 + i] as int);
            if i == 0 {
                crate::field::lemma_fmul_sel(ltu, 4);
            }
            crate::field::lemma_fadd_small(t1, t2);
            crate::field::lemma_fadd_small(t1 + t2, row[i] as int);
            crate::field::lemma_fadd_small(t1 + t2 + row[i] as int, carry_prev);
            crate::field::lemma_fmul_small(row[36 + i] as int, 0x100);
            crate::field::lemma_fadd_small((row[36 + i] as int) * 0x100, row[4 + i] as int);
            crate::field::lemma_fsub_zero(pos, neg);
            crate::field::lemma_fmul_sel(is_bgeu, 0);
        } else {
            crate::field::lemma_fsub_ok(pos, neg);
            crate::field::lemma_fmul_sel(is_bgeu, fsub(pos, neg));
        }
    }
}

} // verus!
