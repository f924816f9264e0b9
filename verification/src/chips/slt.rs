//! The chip of the signed set-less-than forms. It reuses the limb-wise
//! subtraction (its final borrow is the unsigned below flag), introduces
//! sign-bit witnesses with 7-bit magnitude helpers for both operands, and
//! materializes the signed comparison in the first result limb with the
//! other limbs constrained to zero.

use vstd::prelude::*;

use crate::chips::sub::{ExecutionResult as SubExecutionResult, SubChip};
use crate::column::Column;
use crate::field::{Fp, fadd, fmul, fsub};
use crate::rv32::BuiltinOpcode;
use crate::trace::{BoolWord, ProgramStep, SideNote, TracesBuilder, Word};

verus! {

/// What the signed set-less-than chip computes for one step.
pub struct ExecutionResult {
    pub borrow_bits: BoolWord,
    pub diff_bytes: Word,
    pub result: Word,
    pub value_a_effective_flag: bool,
}

/// The signed set-less-than chip.
pub struct SltChip;

impl SltChip {
    /// Computes the step's limb-wise difference, the operands' sign bits
    /// and the comparison result: one exactly when the first operand is
    /// smaller as a signed word.
    pub fn execute(program_step: &ProgramStep) -> (r: ExecutionResult)
        requires
            program_step.wf(),
        ensures
            ({
                let b = program_step.spec_value_b();
                let c = program_step.spec_value_c();
                let sgn_b = b >= 0x8000_0000;
                let sgn_c = c >= 0x8000_0000;
                &&& crate::chips::sub::limbs_are_diff(r.diff_bytes@, r.borrow_bits@, b, c)
                &&& r.borrow_bits@[3] == (b < c)
                &&& r.result@[0] == (if crate::cpu::spec_signed(b) < crate::cpu::spec_signed(c) {
                    1u8
                } else {
                    0u8
                })
                &&& r.result@[0] as int == sel_int(sgn_b) * (1 - sel_int(sgn_c)) + (if b < c {
                    1int
                } else {
                    0int
                }) * (sel_int(sgn_b) * sel_int(sgn_c) + (1 - sel_int(sgn_b)) * (1 - sel_int(
                    sgn_c,
                )))
                &&& r.result@[1] == 0 && r.result@[2] == 0 && r.result@[3] == 0
                &&& r.value_a_effective_flag == (program_step.step.instruction.op_a != 0)
            }),
    {
        let SubExecutionResult { borrow_bits, diff_bytes, value_a_effective_flag } =
            SubChip::execute(program_step);
        let sgn_b = program_step.get_sgn_b();
        let sgn_c = program_step.get_sgn_c();
        let result: Word = match (sgn_b, sgn_c) {
            (false, false) | (true, true) => [
                if borrow_bits[3] {
                    1u8
                } else {
                    0u8
                },
                0u8,
                0u8,
                0u8,
            ],
            (false, true) => [0u8, 0u8, 0u8, 0u8],
            (true, false) => [1u8, 0u8, 0u8, 0u8],
        };
        proof {
            lemma_signed_lt(program_step.spec_value_b(), program_step.spec_value_c());
            let sb = sel_int(sgn_b);
            let sc = sel_int(sgn_c);
            let lt = sel_int(borrow_bits@[3]);
            if sgn_b {
                if sgn_c {
                    assert(sb * (1 - sc) + lt * (sb * sc + (1 - sb) * (1 - sc)) == lt);
                } else {
                    assert(sb * (1 - sc) + lt * (sb * sc + (1 - sb) * (1 - sc)) == 1);
                }
            } else {
                if sgn_c {
                    assert(sb * (1 - sc) + lt * (sb * sc + (1 - sb) * (1 - sc)) == 0);
                } else {
                    assert(sb * (1 - sc) + lt * (sb * sc + (1 - sb) * (1 - sc)) == lt);
                }
            }
        }
        ExecutionResult { borrow_bits, diff_bytes, result, value_a_effective_flag }
    }

    /// Fills the chip's columns for one row: the 7-bit magnitude helpers,
    /// the sign bits, the difference limbs with their borrows in the
    /// carry column, and the result. A no-op off its rows and on padding.
    #[verifier::rlimit(100)]
    #[verifier::spinoff_prover]
    pub fn fill_main_trace(
        traces: &mut TracesBuilder,
        row_idx: usize,
        vm_step: &Option<ProgramStep>,
        _side_note: &mut SideNote,
    )
        requires
            old(traces).wf(),
            row_idx < old(traces).rows,
            match vm_step {
                Some(s) => s.wf(),
                None => true,
            },
        ensures
            final(traces).wf(),
            final(traces).rows == old(traces).rows,
            final(traces).log_size == old(traces).log_size,
            match vm_step {
                Some(s) => if s.step.instruction.opcode.spec_builtin() == Some(BuiltinOpcode::SLT)
                    || s.step.instruction.opcode.spec_builtin() == Some(BuiltinOpcode::SLTI) {
                    slt_row_filled(*final(traces), row_idx as int, *s) && (forall|cc: int, r: int|
                        0 <= cc < crate::column::COLUMNS_TOTAL && 0 <= r < old(traces).rows && !(r
                            == row_idx && (8 <= cc < 16 || 24 <= cc < 40 || cc == 44 || cc == 45))
                            ==> final(traces).spec_cell(cc, r) == old(traces).spec_cell(cc, r))
                } else {
                    *final(traces) == *old(traces)
                },
                None => *final(traces) == *old(traces),
            },
    {
        let vm_step = match vm_step {
            Some(vm_step) => vm_step,
            None => {
                return ;
            },
        };
        let is_slt = match vm_step.step.instruction.opcode.builtin() {
            Some(BuiltinOpcode::SLT) | Some(BuiltinOpcode::SLTI) => true,
            _ => false,
        };
        if !is_slt {
            return ;
        }
        let res = Self::execute(vm_step);
        let mut helper_b = vm_step.get_value_b();
        helper_b[3] = helper_b[3] % 0x80;
        let (mut helper_c, _) = vm_step.get_value_c();
        helper_c[3] = helper_c[3] % 0x80;
        traces.fill_columns_word(row_idx, helper_b, Column::Helper2);
        traces.fill_columns_word(row_idx, helper_c, Column::Helper3);
        traces.fill_columns_bool(row_idx, vm_step.get_sgn_b(), Column::SgnB);
        traces.fill_columns_bool(row_idx, vm_step.get_sgn_c(), Column::SgnC);
        traces.fill_columns_word(row_idx, res.diff_bytes, Column::Helper1);
        traces.fill_columns_bool_word(row_idx, res.borrow_bits, Column::CarryFlag);
        traces.fill_columns_word(row_idx, res.result, Column::ValueA);
        traces.fill_effective_columns(
            row_idx,
            &res.result,
            Column::ValueAEffective,
            res.value_a_effective_flag,
        );
        proof {
            let row = row_idx as int;
            let b = vm_step.spec_value_b();
            let c = vm_step.spec_value_c();
            let bt = crate::memory::extract_part(b, 3, crate::memory::MemAccessSize::Byte);
            let ct = crate::memory::extract_part(c, 3, crate::memory::MemAccessSize::Byte);
            assert(b / 0x1000000 < 0x100 && (b >= 0x8000_0000) == (b / 0x1000000 >= 0x80))
                by (nonlinear_arith);
            assert(c / 0x1000000 < 0x100 && (c >= 0x8000_0000) == (c / 0x1000000 >= 0x80))
                by (nonlinear_arith);
            assert(traces.spec_cell(31, row) == helper_b@[3]);
            assert(traces.spec_cell(35, row) == helper_c@[3]);
            assert forall|k: int|
                0 <= k < 3 implies #[trigger] traces.spec_cell(28 + k, row)
                == crate::memory::extract_part(b, k as u32, crate::memory::MemAccessSize::Byte) by {
                assert(traces.spec_cell(28 + k, row) == helper_b@[k]);
            }
            assert forall|k: int|
                0 <= k < 3 implies #[trigger] traces.spec_cell(32 + k, row)
                == crate::memory::extract_part(c, k as u32, crate::memory::MemAccessSize::Byte) by {
                assert(traces.spec_cell(32 + k, row) == helper_c@[k]);
            }
            assert(helper_b@[3] as int == bt % 0x80);
            assert(helper_c@[3] as int == ct % 0x80);
            assert(bt % 0x80 == bt - 0x80 * (if bt >= 0x80 {
                1int
            } else {
                0int
            }));
            assert(ct % 0x80 == ct - 0x80 * (if ct >= 0x80 {
                1int
            } else {
                0int
            }));
        }
    }

    /// Appends the chip's constraints over a row's column values: the four
    /// limb constraints of the operand difference (borrows in the carry
    /// column), the result limbs (the comparison in the first limb, zeros
    /// elsewhere), and the two sign decompositions with their 7-bit
    /// magnitude helpers. All are gated by the chip's selector.
    pub fn add_constraints(
        eval: &mut Vec<Fp>,
        trace_eval: &Vec<Fp>,
        _lookup_elements: &crate::lookups::AllLookupElements,
    )
        requires
            trace_eval@.len() == crate::column::COLUMNS_TOTAL,
            forall|c: int|
                0 <= c < crate::column::COLUMNS_TOTAL ==> (#[trigger] trace_eval@[c]).ok(),
            forall|j: int| 0 <= j < old(eval)@.len() ==> (#[trigger] old(eval)@[j]).ok(),
        ensures
            final(eval)@.len() == old(eval)@.len() + 10,
            forall|j: int| 0 <= j < final(eval)@.len() ==> (#[trigger] final(eval)@[j]).ok(),
            forall|j: int| 0 <= j < old(eval)@.len() ==> final(eval)@[j] == old(eval)@[j],
            forall|k: int|
                0 <= k < 10 ==> (#[trigger] final(eval)@[old(eval)@.len() + k]).v == slt_constraint_spec(
                    crate::trace::row_of(trace_eval@),
                    k,
                ),
    {
        let is_slt = trace_eval[48];
        let ltu = trace_eval[39];
        let sgn_b = trace_eval[44];
        let sgn_c = trace_eval[45];
        let mut k: usize = 0;
        while k < 10
            invariant
                k <= 10,
                trace_eval@.len() == crate::column::COLUMNS_TOTAL,
                forall|c: int|
                    0 <= c < crate::column::COLUMNS_TOTAL ==> (#[trigger] trace_eval@[c]).ok(),
                is_slt == trace_eval@[48],
                ltu == trace_eval@[39],
                sgn_b == trace_eval@[44],
                sgn_c == trace_eval@[45],
                eval@.len() == old(eval)@.len() + k,
                forall|j: int| 0 <= j < eval@.len() ==> (#[trigger] eval@[j]).ok(),
                forall|j: int| 0 <= j < old(eval)@.len() ==> eval@[j] == old(eval)@[j],
                forall|q: int|
                    0 <= q < k ==> (#[trigger] eval@[old(eval)@.len() + q]).v == slt_constraint_spec(
                        crate::trace::row_of(trace_eval@),
                        q,
                    ),
            decreases 10 - k,
        {
            let c = if k < 4 {
                let i = k;
                let h_i = trace_eval[24 + i];
                let b_i = trace_eval[16 + i];
                let c_i = trace_eval[20 + i];
                let bor_i = trace_eval[36 + i];
                let bor_prev = if i == 0 {
                    Fp::zero()
                } else {
                    trace_eval[36 + i - 1]
                };
                let pos = h_i.add(c_i).add(bor_prev);
                let neg = bor_i.mul(Fp::new(0x100)).add(b_i);
                is_slt.mul(pos.sub(neg))
            } else if k == 4 {
                let a_0 = trace_eval[8];
                let t1 = sgn_b.mul(Fp::one().sub(sgn_c));
                let t2 = ltu.mul(
                    sgn_b.mul(sgn_c).add(Fp::one().sub(sgn_b).mul(Fp::one().sub(sgn_c))),
                );
                is_slt.mul(t1.add(t2).sub(a_0))
            } else if k < 8 {
                let i = k - 4;
                is_slt.mul(trace_eval[8 + i])
            } else if k == 8 {
                let pos = sgn_b.mul(Fp::new(0x80)).add(trace_eval[31]);
                is_slt.mul(pos.sub(trace_eval[19]))
            } else {
                let pos = sgn_c.mul(Fp::new(0x80)).add(trace_eval[35]);
                is_slt.mul(pos.sub(trace_eval[23]))
            };
            eval.push(c);
            k = k + 1;
        }
    }
}

/// What the signed set-less-than chip writes at a row for a real step,
/// related to the step's operands: the sign bits and their 7-bit
/// magnitude helpers, the difference limbs with their borrows, and the
/// comparison materialized in the first result limb.
pub open spec fn slt_row_filled(t: crate::trace::TracesBuilder, row: int, s: ProgramStep) -> bool {
    let b = s.spec_value_b();
    let c = s.spec_value_c();
    &&& (forall|k: int| 0 <= k < 4 ==> #[trigger] t.spec_cell(24 + k, row) < 256)
    &&& (forall|k: int|
        0 <= k < 4 ==> (#[trigger] t.spec_cell(36 + k, row) == 0 || t.spec_cell(36 + k, row)
            == 1))
    &&& t.spec_cell(44, row) == (if b >= 0x8000_0000 {
        1int
    } else {
        0int
    })
    &&& t.spec_cell(45, row) == (if c >= 0x8000_0000 {
        1int
    } else {
        0int
    })
    &&& t.spec_cell(39, row) == (if b < c {
        1int
    } else {
        0int
    })
    &&& (forall|k: int|
        0 <= k < 4 ==> (#[trigger] t.spec_cell(24 + k, row)) as int == crate::memory::extract_part(
            b,
            k as u32,
            crate::memory::MemAccessSize::Byte,
        ) - crate::memory::extract_part(c, k as u32, crate::memory::MemAccessSize::Byte) - (if k
            == 0 {
            0int
        } else {
            t.spec_cell(36 + k - 1, row) as int
        }) + 256 * t.spec_cell(36 + k, row))
    &&& t.spec_cell(8, row) == (if crate::cpu::spec_signed(b) < crate::cpu::spec_signed(c) {
        1int
    } else {
        0int
    })
    &&& t.spec_cell(9, row) == 0 && t.spec_cell(10, row) == 0 && t.spec_cell(11, row) == 0
    &&& (forall|k: int|
        0 <= k < 3 ==> #[trigger] t.spec_cell(28 + k, row) == crate::memory::extract_part(
            b,
            k as u32,
            crate::memory::MemAccessSize::Byte,
        ))
    &&& (forall|k: int|
        0 <= k < 3 ==> #[trigger] t.spec_cell(32 + k, row) == crate::memory::extract_part(
            c,
            k as u32,
            crate::memory::MemAccessSize::Byte,
        ))
    &&& t.spec_cell(31, row) < 0x80
    &&& t.spec_cell(31, row) as int == crate::memory::extract_part(
        b,
        3,
        crate::memory::MemAccessSize::Byte,
    ) - 0x80 * t.spec_cell(44, row)
    &&& t.spec_cell(35, row) < 0x80
    &&& t.spec_cell(35, row) as int == crate::memory::extract_part(
        c,
        3,
        crate::memory::MemAccessSize::Byte,
    ) - 0x80 * t.spec_cell(45, row)
}

/// A truth value as an integer.
pub open spec fn sel_int(b: bool) -> int {
    if b {
        1
    } else {
        0
    }
}

/// The signed comparison decomposes into the sign bits and the unsigned
/// below flag: a negative word is below any nonnegative one, and words of
/// one sign compare as unsigned values.
pub proof fn lemma_signed_lt(b: u32, c: u32)
    ensures
        (crate::cpu::spec_signed(b) < crate::cpu::spec_signed(c)) == (if (b >= 0x8000_0000) != (c
            >= 0x8000_0000) {
            b >= 0x8000_0000
        } else {
            b < c
        }),
{
}

/// The signed set-less-than chip's constraint `k` over a row's values.
pub open spec fn slt_constraint_spec(row: Seq<u32>, k: int) -> int {
    let is_slt = row[48] as int;
    let ltu = row[39] as int;
    let sgn_b = row[44] as int;
    let sgn_c = row[45] as int;
    if k < 4 {
        let i = k;
        let bor_prev: int = if i == 0 {
            0
        } else {
            row[36 + i - 1] as int
        };
        let pos = fadd(fadd(row[24 + i] as int, row[20 + i] as int), bor_prev);
        let neg = fadd(fmul(row[36 + i] as int, 0x100), row[16 + i] as int);
        fmul(is_slt, fsub(pos, neg))
    } else if k == 4 {
        let t1 = fmul(sgn_b, fsub(1, sgn_c));
        let t2 = fmul(ltu, fadd(fmul(sgn_b, sgn_c), fmul(fsub(1, sgn_b), fsub(1, sgn_c))));
        fmul(is_slt, fsub(fadd(t1, t2), row[8] as int))
    } else if k < 8 {
        let i = k - 4;
        fmul(is_slt, row[8 + i] as int)
    } else if k == 8 {
        fmul(is_slt, fsub(fadd(fmul(sgn_b, 0x80), row[31] as int), row[19] as int))
    } else {
        fmul(is_slt, fsub(fadd(fmul(sgn_c, 0x80), row[35] as int), row[23] as int))
    }
}

/// Trace validity for the signed set-less-than chip: on a row whose cells
/// hold what the chip fills for a real step, every constraint evaluates
/// to zero; on a row whose selector is zero they vanish as well.
pub proof fn lemma_slt_constraints_vanish(row: Seq<u32>, k: int)
    requires
        row.len() == crate::column::COLUMNS_TOTAL,
        0 <= k < 10,
        row[48] == 0 || row[48] == 1,
        row[48] == 1 ==> {
            &&& forall|i: int| 0 <= i < 4 ==> (#[trigger] row[8 + i]) < 256
            &&& forall|i: int| 0 <= i < 4 ==> (#[trigger] row[16 + i]) < 256
            &&& forall|i: int| 0 <= i < 4 ==> (#[trigger] row[20 + i]) < 256
            &&& forall|i: int| 0 <= i < 4 ==> (#[trigger] row[24 + i]) < 256
            &&& forall|i: int| 0 <= i < 4 ==> ((#[trigger] row[36 + i]) == 0 || row[36 + i] == 1)
            &&& (row[44] == 0 || row[44] == 1)
            &&& (row[45] == 0 || row[45] == 1)
            &&& row[31] < 0x80
            &&& row[35] < 0x80
            &&& (forall|i: int|
                0 <= i < 4 ==> (#[trigger] row[24 + i]) as int == row[16 + i] - row[20 + i] - (if i == 0 {
                    0int
                } else {
                    row[36 + i - 1] as int
                }) + 256 * row[36 + i])
            &&& row[8] as int == row[44] * (1 - row[45]) + row[39] * (row[44] * row[45] + (1
                - row[44]) * (1 - row[45]))
            &&& row[9] == 0 && row[10] == 0 && row[11] == 0
            &&& row[19] as int == 0x80 * row[44] + row[31]
            &&& row[23] as int == 0x80 * row[45] + row[35]
        },
    ensures
        slt_constraint_spec(row, k) == 0,
{
    let is_slt = row[48] as int;
    let ltu = row[39] as int;
    let sgn_b = row[44] as int;
    let sgn_c = row[45] as int;
    let ghost i3: int = 3;
    if is_slt == 1 {
        assert(row[36 + i3] == 0 || row[36 + i3] == 1);
        assert(ltu == 0 || ltu == 1);
    }
    if k < 4 {
        let i = k;
        let bor_prev: int = if i == 0 {
            0
        } else {
            row[36 + i - 1] as int
        };
        let pos = fadd(fadd(row[24 + i] as int, row[20 + i] as int), bor_prev);
        let neg = fadd(fmul(row[36 + i] as int, 0x100), row[16 + i] as int);
        if is_slt == 1 {
            crate::field::lemma_fadd_small(row[24 + i] as int, row[20 + i] as int);
            crate::field::lemma_fadd_small(row[24 + i] as int + row[20 + i] as int, bor_prev);
            crate::field::lemma_fmul_small(row[36 + i] as int, 0x100);
            crate::field::lemma_fadd_small((row[36 + i] as int) * 0x100, row[16 + i] as int);
            crate::field::lemma_fsub_zero(pos, neg);
            crate::field::lemma_fmul_sel(is_slt, 0);
        } else {
            crate::field::lemma_fsub_ok(pos, neg);
            crate::field::lemma_fmul_sel(is_slt, fsub(pos, neg));
        }
    } else if k == 4 {
        let t1 = fmul(sgn_b, fsub(1, sgn_c));
        let t2 = fmul(ltu, fadd(fmul(sgn_b, sgn_c), fmul(fsub(1, sgn_b), fsub(1, sgn_c))));
        if is_slt == 1 {
            assert((sgn_b == 1 ==> sgn_b * sgn_c == sgn_c && sgn_b * (1 - sgn_c) == 1 - sgn_c
                && (1 - sgn_b) * (1 - sgn_c) == 0) && (sgn_b == 0 ==> sgn_b * sgn_c == 0 && sgn_b
                * (1 - sgn_c) == 0 && (1 - sgn_b) * (1 - sgn_c) == 1 - sgn_c))
                by (nonlinear_arith);
            crate::field::lemma_fsub_small(1, sgn_c);
            crate::field::lemma_fsub_small(1, sgn_b);
            crate::field::lemma_fmul_sel(sgn_b, 1 - sgn_c);
            crate::field::lemma_fmul_sel(sgn_b, sgn_c);
            crate::field::lemma_fmul_sel(1 - sgn_b, 1 - sgn_c);
            crate::field::lemma_fadd_small(sgn_b * sgn_c, (1 - sgn_b) * (1 - sgn_c));
            crate::field::lemma_fmul_sel(ltu, sgn_b * sgn_c + (1 - sgn_b) * (1 - sgn_c));
            crate::field::lemma_fadd_small(t1, t2);
            crate::field::lemma_fsub_zero(fadd(t1, t2), row[8] as int);
            crate::field::lemma_fmul_sel(is_slt, 0);
        } else {
            crate::field::lemma_fsub_ok(fadd(t1, t2), row[8] as int);
            crate::field::lemma_fmul_sel(is_slt, fsub(fadd(t1, t2), row[8] as int));
        }
    } else if k < 8 {
        let i = k - 4;
        if is_slt == 1 {
            crate::field::lemma_fmul_sel(is_slt, row[8 + i] as int);
        } else {
            assert(fmul(0, row[8 + i] as int) == 0);
        }
    } else if k == 8 {
        let pos = fadd(fmul(sgn_b, 0x80), row[31] as int);
        if is_slt == 1 {
            crate::field::lemma_fmul_sel(sgn_b, 0x80);
            crate::field::lemma_fadd_small(sgn_b * 0x80, row[31] as int);
            crate::field::lemma_fsub_zero(pos, row[19] as int);
            crate::field::lemma_fmul_sel(is_slt, 0);
        } else {
            crate::field::lemma_fsub_ok(pos, row[19] as int);
            crate::field::lemma_fmul_sel(is_slt, fsub(pos, row[19] as int));
        }
    } else {
        let pos = fadd(fmul(sgn_c, 0x80), row[35] as int);
        if is_slt == 1 {
            crate::field::lemma_fmul_sel(sgn_c, 0x80);
            crate::field::lemma_fadd_small(sgn_c * 0x80, row[35] as int);
            crate::field::lemma_fsub_zero(pos, row[23] as int);
            crate::field::lemma_fmul_sel(is_slt, 0);
        } else {
            crate::field::lemma_fsub_ok(pos, row[23] as int);
            crate::field::lemma_fmul_sel(is_slt, fsub(pos, row[23] as int));
        }
    }
}

} // verus!
