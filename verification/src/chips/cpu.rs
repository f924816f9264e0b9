//! The CPU chip: fills the shared columns every row carries — the program
//! counter, the operand values, and the instruction-class selectors — and
//! constrains the selectors to be boolean. On a row filled from a real
//! step exactly one class selector is one; on a padding row all are zero,
//! so no opcode constraint fires there.

use vstd::prelude::*;

use crate::column::Column;
use crate::field::{Fp, fmul, fsub};
use crate::rv32::{BuiltinOpcode, Instruction};
use crate::trace::{le_bytes, ProgramStep, SideNote, TracesBuilder};

verus! {

/// Whether the step belongs to the addition chip.
pub open spec fn is_class_add(i: Instruction) -> bool {
    i.opcode.spec_builtin() == Some(BuiltinOpcode::ADD) || i.opcode.spec_builtin() == Some(
        BuiltinOpcode::ADDI,
    )
}

/// Whether the step belongs to the subtraction chip.
pub open spec fn is_class_sub(i: Instruction) -> bool {
    i.opcode.spec_builtin() == Some(BuiltinOpcode::SUB)
}

/// Whether the step belongs to the signed set-less-than chip.
pub open spec fn is_class_slt(i: Instruction) -> bool {
    i.opcode.spec_builtin() == Some(BuiltinOpcode::SLT) || i.opcode.spec_builtin() == Some(
        BuiltinOpcode::SLTI,
    )
}

/// Whether the step belongs to the unsigned branch-if-not-below chip.
pub open spec fn is_class_bgeu(i: Instruction) -> bool {
    i.opcode.spec_builtin() == Some(BuiltinOpcode::BGEU)
}

/// Whether the step belongs to no chip of this crate.
pub open spec fn is_class_other(i: Instruction) -> bool {
    !is_class_add(i) && !is_class_sub(i) && !is_class_slt(i) && !is_class_bgeu(i)
}

/// A truth value as a selector cell.
pub open spec fn sel(b: bool) -> int {
    if b {
        1
    } else {
        0
    }
}

/// Selector disjointness, at the step level: every real step falls in
/// exactly one instruction class, so exactly one class selector is one on
/// its row; padding rows carry no class and every selector is zero there.
pub proof fn lemma_selector_disjointness(i: Instruction)
    ensures
        sel(is_class_add(i)) + sel(is_class_sub(i)) + sel(is_class_slt(i)) + sel(is_class_bgeu(i))
            + sel(is_class_other(i)) == 1,
{
}

/// A word equals its little-endian byte limbs recombined.
pub proof fn lemma_word_bytes(w: u32)
    ensures
        w == (w % 0x100) + 0x100 * (w / 0x100 % 0x100) + 0x10000 * (w / 0x10000 % 0x100)
            + 0x1000000 * (w / 0x1000000 % 0x100),
{
    assert(w == (w % 0x100) + 0x100 * (w / 0x100 % 0x100) + 0x10000 * (w / 0x10000 % 0x100)
        + 0x1000000 * (w / 0x1000000 % 0x100)) by (bit_vector);
}

/// The CPU chip.
pub struct CpuChip;

impl CpuChip {
    /// Fills the shared columns for one row: the program counter, the
    /// operand values and the class selectors for a real step, zeros and
    /// no selector for a padding row.
    #[verifier::rlimit(100)]
    #[verifier::spinoff_prover]
    pub fn fill_main_trace(
        traces: &mut TracesBuilder,
        row_idx: usize,
        vm_step: &Option<ProgramStep>,
        _side_note: &mut SideNote,
    )
        requires
            old(traces).wf(),
            row_idx < old(traces).rows,
            match vm_step {
                Some(s) => s.wf(),
                None => true,
            },
        ensures
            final(traces).wf(),
            final(traces).rows == old(traces).rows,
            final(traces).log_size == old(traces).log_size,
            forall|cc: int, r: int|
                0 <= cc < crate::column::COLUMNS_TOTAL && 0 <= r < old(traces).rows && !(r
                    == row_idx && (cc < 4 || 16 <= cc < 24 || 46 <= cc < 51))
                    ==> final(traces).spec_cell(cc, r) == old(traces).spec_cell(cc, r),
            match vm_step {
                Some(s) => {
                    &&& (forall|k: int|
                        0 <= k < 4 ==> #[trigger] final(traces).spec_cell(k, row_idx as int)
                            == crate::memory::extract_part(
                            s.step.pc,
                            k as u32,
                            crate::memory::MemAccessSize::Byte,
                        ))
                    &&& (forall|k: int|
                        0 <= k < 4 ==> #[trigger] final(traces).spec_cell(16 + k, row_idx as int)
                            == crate::memory::extract_part(
                            s.spec_value_b(),
                            k as u32,
                            crate::memory::MemAccessSize::Byte,
                        ))
                    &&& (forall|k: int|
                        0 <= k < 4 ==> #[trigger] final(traces).spec_cell(20 + k, row_idx as int)
                            == crate::memory::extract_part(
                            s.spec_value_c(),
                            k as u32,
                            crate::memory::MemAccessSize::Byte,
                        ))
                    &&& final(traces).spec_cell(46, row_idx as int) == sel(
                        is_class_add(s.step.instruction),
                    )
                    &&& final(traces).spec_cell(47, row_idx as int) == sel(
                        is_class_sub(s.step.instruction),
                    )
                    &&& final(traces).spec_cell(48, row_idx as int) == sel(
                        is_class_slt(s.step.instruction),
                    )
                    &&& final(traces).spec_cell(49, row_idx as int) == sel(
                        is_class_bgeu(s.step.instruction),
                    )
                    &&& final(traces).spec_cell(50, row_idx as int) == sel(
                        is_class_other(s.step.instruction),
                    )
                },
                None => {
                    &&& (forall|k: int|
                        0 <= k < 4 ==> #[trigger] final(traces).spec_cell(k, row_idx as int)
                            == 0)
                    &&& (forall|k: int|
                        0 <= k < 4 ==> #[trigger] final(traces).spec_cell(16 + k, row_idx as int)
                            == 0)
                    &&& (forall|k: int|
                        0 <= k < 4 ==> #[trigger] final(traces).spec_cell(20 + k, row_idx as int)
                            == 0)
                    &&& final(traces).spec_cell(46, row_idx as int) == 0
                    &&& final(traces).spec_cell(47, row_idx as int) == 0
                    &&& final(traces).spec_cell(48, row_idx as int) == 0
                    &&& final(traces).spec_cell(49, row_idx as int) == 0
                    &&& final(traces).spec_cell(50, row_idx as int) == 0
                },
            },
    {
        match vm_step {
            Some(step) => {
                traces.fill_columns_word(row_idx, le_bytes(step.step.pc), Column::Pc);
                let value_b = step.get_value_b();
                traces.fill_columns_word(row_idx, value_b, Column::ValueB);
                let (value_c, _) = step.get_value_c();
                traces.fill_columns_word(row_idx, value_c, Column::ValueC);
                let b = step.step.instruction.opcode.builtin();
                let cls_add = match b {
                    Some(BuiltinOpcode::ADD) | Some(BuiltinOpcode::ADDI) => true,
                    _ => false,
                };
                let cls_sub = match b {
                    Some(BuiltinOpcode::SUB) => true,
                    _ => false,
                };
                let cls_slt = match b {
                    Some(BuiltinOpcode::SLT) | Some(BuiltinOpcode::SLTI) => true,
                    _ => false,
                };
                let cls_bgeu = match b {
                    Some(BuiltinOpcode::BGEU) => true,
                    _ => false,
                };
                let cls_other = !cls_add && !cls_sub && !cls_slt && !cls_bgeu;
                traces.fill_columns_bool(row_idx, cls_add, Column::IsAdd);
                traces.fill_columns_bool(row_idx, cls_sub, Column::IsSub);
                traces.fill_columns_bool(row_idx, cls_slt, Column::IsSlt);
                traces.fill_columns_bool(row_idx, cls_bgeu, Column::IsBgeu);
                traces.fill_columns_bool(row_idx, cls_other, Column::IsOther);
                proof {
                    let row = row_idx as int;
                    assert forall|k: int|
                        0 <= k < 4 implies #[trigger] traces.spec_cell(16 + k, row)
                        == crate::memory::extract_part(
                        step.spec_value_b(),
                        k as u32,
                        crate::memory::MemAccessSize::Byte,
                    ) by {
                        assert(traces.spec_cell(16 + k, row) == value_b@[k]);
                    }
                    assert forall|k: int|
                        0 <= k < 4 implies #[trigger] traces.spec_cell(20 + k, row)
                        == crate::memory::extract_part(
                        step.spec_value_c(),
                        k as u32,
                        crate::memory::MemAccessSize::Byte,
                    ) by {
                        assert(traces.spec_cell(20 + k, row) == value_c@[k]);
                    }
                }
            },
            None => {
                traces.fill_columns_word(row_idx, [0u8, 0u8, 0u8, 0u8], Column::Pc);
                traces.fill_columns_word(row_idx, [0u8, 0u8, 0u8, 0u8], Column::ValueB);
                traces.fill_columns_word(row_idx, [0u8, 0u8, 0u8, 0u8], Column::ValueC);
                traces.fill_columns_bool(row_idx, false, Column::IsAdd);
                traces.fill_columns_bool(row_idx, false, Column::IsSub);
                traces.fill_columns_bool(row_idx, false, Column::IsSlt);
                traces.fill_columns_bool(row_idx, false, Column::IsBgeu);
                traces.fill_columns_bool(row_idx, false, Column::IsOther);
            },
        }
    }

    /// Appends the CPU constraints over a row's column values: every
    /// class selector is boolean, `s * (s - 1) = 0`.
    pub fn add_constraints(
        eval: &mut Vec<Fp>,
        trace_eval: &Vec<Fp>,
        _lookup_elements: &crate::lookups::AllLookupElements,
    )
        requires
            trace_eval@.len() == crate::column::COLUMNS_TOTAL,
            forall|c: int|
                0 <= c < crate::column::COLUMNS_TOTAL ==> (#[trigger] trace_eval@[c]).ok(),
            forall|j: int| 0 <= j < old(eval)@.len() ==> (#[trigger] old(eval)@[j]).ok(),
        ensures
            final(eval)@.len() == old(eval)@.len() + 5,
            forall|j: int| 0 <= j < final(eval)@.len() ==> (#[trigger] final(eval)@[j]).ok(),
            forall|j: int| 0 <= j < old(eval)@.len() ==> final(eval)@[j] == old(eval)@[j],
            forall|i: int|
                0 <= i < 5 ==> (#[trigger] final(eval)@[old(eval)@.len() + i]).v == cpu_constraint_spec(
                    crate::trace::row_of(trace_eval@),
                    i,
                ),
    {
        let mut i: usize = 0;
        while i < 5
            invariant
                i <= 5,
                trace_eval@.len() == crate::column::COLUMNS_TOTAL,
                forall|c: int|
                    0 <= c < crate::column::COLUMNS_TOTAL ==> (#[trigger] trace_eval@[c]).ok(),
                eval@.len() == old(eval)@.len() + i,
                forall|j: int| 0 <= j < eval@.len() ==> (#[trigger] eval@[j]).ok(),
                forall|j: int| 0 <= j < old(eval)@.len() ==> eval@[j] == old(eval)@[j],
                forall|k: int|
                    0 <= k < i ==> (#[trigger] eval@[old(eval)@.len() + k]).v == cpu_constraint_spec(
                        crate::trace::row_of(trace_eval@),
                        k,
                    ),
            decreases 5 - i,
        {
            let s = trace_eval[46 + i];
            eval.push(s.mul(s.sub(Fp::one())));
            i = i + 1;
        }
    }
}

/// The CPU chip's booleanity constraint for selector `i` over a row.
pub open spec fn cpu_constraint_spec(row: Seq<u32>, i: int) -> int {
    let s = row[46 + i] as int;
    fmul(s, fsub(s, 1))
}

/// A boolean selector cell satisfies its booleanity constraint.
pub proof fn lemma_cpu_constraints_vanish(row: Seq<u32>, i: int)
    requires
        row.len() == crate::column::COLUMNS_TOTAL,
        0 <= i < 5,
        row[46 + i] == 0 || row[46 + i] == 1,
    ensures
        cpu_constraint_spec(row, i) == 0,
{
    let s = row[46 + i] as int;
    if s == 0 {
        assert(fmul(s, fsub(s, 1)) == 0);
    } else {
        assert(fsub(1, 1) == 0);
        assert(fmul(1, 0) == 0);
    }
}

} // verus!
