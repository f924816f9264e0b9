//! Byte-limb addition with carries, and the chip constraining the addition
//! forms: for each limb, `b[i] + c[i] + k[i-1] = a[i] + 256*k[i]` with
//! `k[-1] = 0`; the final carry is discarded, giving the wrap-around
//! arithmetic of the machine.

use vstd::prelude::*;

use crate::column::Column;
use crate::field::{Fp, fadd, fmul, fsub};
use crate::rv32::BuiltinOpcode;
use crate::trace::{BoolWord, ProgramStep, SideNote, TracesBuilder, Word};

verus! {

/// Adds two words limb by limb, yielding the sum limbs and the carries.
pub fn add_with_carries(a: Word, b: Word) -> (r: (Word, BoolWord))
    ensures
        r.1@[0] == (a@[0] + b@[0] >= 0x100),
        r.0@[0] == (a@[0] + b@[0]) % 0x100,
        r.1@[1] == (a@[1] + b@[1] + carry_in(r.1@[0]) >= 0x100),
        r.0@[1] == (a@[1] + b@[1] + carry_in(r.1@[0])) % 0x100,
        r.1@[2] == (a@[2] + b@[2] + carry_in(r.1@[1]) >= 0x100),
        r.0@[2] == (a@[2] + b@[2] + carry_in(r.1@[1])) % 0x100,
        r.1@[3] == (a@[3] + b@[3] + carry_in(r.1@[2]) >= 0x100),
        r.0@[3] == (a@[3] + b@[3] + carry_in(r.1@[2])) % 0x100,
{
    let s0: u32 = a[0] as u32 + b[0] as u32;
    let c0 = s0 >= 0x100;
    let s1: u32 = a[1] as u32 + b[1] as u32 + if c0 {
        1
    } else {
        0
    };
    let c1 = s1 >= 0x100;
    let s2: u32 = a[2] as u32 + b[2] as u32 + if c1 {
        1
    } else {
        0
    };
    let c2 = s2 >= 0x100;
    let s3: u32 = a[3] as u32 + b[3] as u32 + if c2 {
        1
    } else {
        0
    };
    let c3 = s3 >= 0x100;
    (
        [(s0 % 0x100) as u8, (s1 % 0x100) as u8, (s2 % 0x100) as u8, (s3 % 0x100) as u8],
        [c0, c1, c2, c3],
    )
}

/// A carry bit as a limb value.
pub open spec fn carry_in(c: bool) -> int {
    if c {
        1
    } else {
        0
    }
}

/// The chip of the addition forms.
pub struct AddChip;

impl AddChip {
    /// Fills the addition chip's columns for one row: the result limbs and
    /// the carry bits. A no-op off addition rows and on padding.
    #[verifier::rlimit(100)]
    #[verifier::spinoff_prover]
    pub fn fill_main_trace(
        traces: &mut TracesBuilder,
        row_idx: usize,
        vm_step: &Option<ProgramStep>,
        _side_note: &mut SideNote,
    )
        requires
            old(traces).wf(),
            row_idx < old(traces).rows,
            match vm_step {
                Some(s) => s.wf(),
                None => true,
            },
        ensures
            final(traces).wf(),
            final(traces).rows == old(traces).rows,
            final(traces).log_size == old(traces).log_size,
            match vm_step {
                Some(s) => if is_add_step(*s) {
                    add_row_filled(*final(traces), row_idx as int, *s) && (forall|cc: int, r: int|
                        0 <= cc < crate::column::COLUMNS_TOTAL && 0 <= r < old(traces).rows && !(r
                            == row_idx && (8 <= cc < 16 || 36 <= cc < 40))
                            ==> final(traces).spec_cell(cc, r) == old(traces).spec_cell(cc, r))
                } else {
                    *final(traces) == *old(traces)
                },
                None => *final(traces) == *old(traces),
            },
    {
        let step = match vm_step {
            Some(s) => s,
            None => {
                return ;
            },
        };
        let is_add = match step.step.instruction.opcode.builtin() {
            Some(BuiltinOpcode::ADD) => true,
            Some(BuiltinOpcode::ADDI) => true,
            _ => false,
        };
        if !is_add {
            return ;
        }
        let value_b = step.get_value_b();
        let (value_c, _) = step.get_value_c();
        let (sum, carries) = add_with_carries(value_b, value_c);
        traces.fill_columns_word(row_idx, sum, Column::ValueA);
        traces.fill_columns_bool_word(row_idx, carries, Column::CarryFlag);
        let flag = step.step.instruction.op_a != 0;
        traces.fill_effective_columns(row_idx, &sum, Column::ValueAEffective, flag);
        proof {
            let row = row_idx as int;
            assert forall|k: int|
                0 <= k < 4 implies #[trigger] traces.spec_cell(8 + k, row) == sum@[k] by {
            }
        }
    }

    /// Appends the addition constraints over a row's column values: for
    /// each limb, `is_add * (b[i] + c[i] + k[i-1] - a[i] - 256*k[i])`.
    pub fn add_constraints(
        eval: &mut Vec<Fp>,
        trace_eval: &Vec<Fp>,
        _lookup_elements: &crate::lookups::AllLookupElements,
    )
        requires
            trace_eval@.len() == crate::column::COLUMNS_TOTAL,
            forall|c: int|
                0 <= c < crate::column::COLUMNS_TOTAL ==> (#[trigger] trace_eval@[c]).ok(),
            forall|j: int| 0 <= j < old(eval)@.len() ==> (#[trigger] old(eval)@[j]).ok(),
        ensures
            final(eval)@.len() == old(eval)@.len() + 4,
            forall|j: int| 0 <= j < final(eval)@.len() ==> (#[trigger] final(eval)@[j]).ok(),
            forall|j: int| 0 <= j < old(eval)@.len() ==> final(eval)@[j] == old(eval)@[j],
            forall|i: int|
                0 <= i < 4 ==> (#[trigger] final(eval)@[old(eval)@.len() + i]).v == add_constraint_spec(
                    crate::trace::row_of(trace_eval@),
                    i,
                ),
    {
        let is_add = trace_eval[46];
        let mut i: usize = 0;
        while i < 4
            invariant
                i <= 4,
                trace_eval@.len() == crate::column::COLUMNS_TOTAL,
                forall|c: int|
                    0 <= c < crate::column::COLUMNS_TOTAL ==> (#[trigger] trace_eval@[c]).ok(),
                is_add == trace_eval@[46],
                eval@.len() == old(eval)@.len() + i,
                forall|j: int| 0 <= j < eval@.len() ==> (#[trigger] eval@[j]).ok(),
                forall|j: int| 0 <= j < old(eval)@.len() ==> eval@[j] == old(eval)@[j],
                forall|k: int|
                    0 <= k < i ==> (#[trigger] eval@[old(eval)@.len() + k]).v == add_constraint_spec(
                        crate::trace::row_of(trace_eval@),
                        k,
                    ),
            decreases 4 - i,
        {
            let b_i = trace_eval[16 + i];
            let c_i = trace_eval[20 + i];
            let a_i = trace_eval[8 + i];
            let k_i = trace_eval[36 + i];
            let k_prev = if i == 0 {
                Fp::zero()
            } else {
                trace_eval[36 + i - 1]
            };
            let lhs = b_i.add(c_i).add(k_prev);
            let rhs = a_i.add(k_i.mul(Fp::new(0x100)));
            eval.push(is_add.mul(lhs.sub(rhs)));
            i = i + 1;
        }
    }
}

/// Whether a step belongs to the addition chip.
pub open spec fn is_add_step(s: ProgramStep) -> bool {
    s.step.instruction.opcode.spec_builtin() == Some(BuiltinOpcode::ADD)
        || s.step.instruction.opcode.spec_builtin() == Some(BuiltinOpcode::ADDI)
}

/// What the addition chip writes at a row for a real addition step: result
/// limbs witnessing the limb-wise sum of the operands with its carries.
pub open spec fn add_row_filled(t: crate::trace::TracesBuilder, row: int, s: ProgramStep) -> bool {
    let b = s.spec_value_b();
    let c = s.spec_value_c();
    &&& (forall|k: int| 0 <= k < 4 ==> #[trigger] t.spec_cell(8 + k, row) < 256)
    &&& (forall|k: int|
        0 <= k < 4 ==> (#[trigger] t.spec_cell(36 + k, row) == 0 || t.spec_cell(36 + k, row)
            == 1))
    &&& (forall|k: int|
        0 <= k < 4 ==> (#[trigger] t.spec_cell(8 + k, row)) as int == crate::memory::extract_part(
            b,
            k as u32,
            crate::memory::MemAccessSize::Byte,
        ) + crate::memory::extract_part(c, k as u32, crate::memory::MemAccessSize::Byte) + (if k
            == 0 {
            0int
        } else {
            t.spec_cell(36 + k - 1, row) as int
        }) - 256 * t.spec_cell(36 + k, row))
}

/// The addition chip's constraint for limb `i` over a row's column values.
pub open spec fn add_constraint_spec(row: Seq<u32>, i: int) -> int {
    let is_add = row[46] as int;
    let b_i = row[16 + i] as int;
    let c_i = row[20 + i] as int;
    let a_i = row[8 + i] as int;
    let k_i = row[36 + i] as int;
    let k_prev: int = if i == 0 {
        0
    } else {
        row[36 + i - 1] as int
    };
    fmul(is_add, fsub(fadd(fadd(b_i, c_i), k_prev), fadd(a_i, fmul(k_i, 0x100))))
}

} // verus!

verus! {

/// Trace validity for the addition chip: on a row whose cells hold what
/// the chip fills for a real addition step — result limbs witnessing the
/// limb-wise sum with its carries — every addition constraint evaluates
/// to zero; on a row whose selector is zero they vanish as well.
pub proof fn lemma_add_constraints_vanish(row: Seq<u32>, i: int)
    requires
        row.len() == crate::column::COLUMNS_TOTAL,
        0 <= i < 4,
        row[46] == 0 || row[46] == 1,
        row[46] == 1 ==> {
            &&& forall|j: int| 0 <= j < 4 ==> (#[trigger] row[8 + j]) < 256
            &&& forall|j: int| 0 <= j < 4 ==> (#[trigger] row[16 + j]) < 256
            &&& forall|j: int| 0 <= j < 4 ==> (#[trigger] row[20 + j]) < 256
            &&& forall|j: int| 0 <= j < 4 ==> ((#[trigger] row[36 + j]) == 0 || row[36 + j] == 1)
            &&& (forall|j: int|
                0 <= j < 4 ==> (#[trigger] row[8 + j]) as int == row[16 + j] + row[20 + j] + (
                if j == 0 {
                    0int
                } else {
                    row[36 + j - 1] as int
                }) - 256 * row[36 + j])
        },
    ensures
        add_constraint_spec(row, i) == 0,
{
    let is_add = row[46] as int;
    let k_prev: int = if i == 0 {
        0
    } else {
        row[36 + i - 1] as int
    };
    let pos = fadd(fadd(row[16 + i] as int, row[20 + i] as int), k_prev);
    let neg = fadd(row[8 + i] as int, fmul(row[36 + i] as int, 0x100));
    if is_add == 1 {
        crate::field::lemma_fadd_small(row[16 + i] as int, row[20 + i] as int);
        crate::field::lemma_fadd_small(row[16 + i] as int + row[20 + i] as int, k_prev);
        crate::field::lemma_fmul_small(row[36 + i] as int, 0x100);
        crate::field::lemma_fadd_small(row[8 + i] as int, (row[36 + i] as int) * 0x100);
        crate::field::lemma_fsub_zero(pos, neg);
        crate::field::lemma_fmul_sel(is_add, 0);
    } else {
        crate::field::lemma_fsub_ok(pos, neg);
        crate::field::lemma_fmul_sel(is_add, fsub(pos, neg));
    }
}

} // verus!
