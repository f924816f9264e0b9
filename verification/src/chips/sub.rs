//! Byte-limb subtraction with borrows, and the chip constraining the
//! subtraction form: for each limb, `a[i] + 256*h[i] = b[i] - c[i] -
//! h[i-1]` rearranged over the field; the final borrow bit equals the
//! unsigned below flag.

use vstd::prelude::*;

use crate::column::Column;
use crate::field::{Fp, fadd, fmul, fsub};
use crate::rv32::BuiltinOpcode;
use crate::trace::{BoolWord, ProgramStep, SideNote, TracesBuilder, Word};
use crate::chips::add::carry_in;

verus! {

/// Subtracts two words limb by limb, yielding the difference limbs and
/// the borrows.
pub fn subtract_with_borrow(a: Word, b: Word) -> (r: (Word, BoolWord))
    ensures
        r.1@[0] == (a@[0] < b@[0]),
        r.0@[0] == a@[0] - b@[0] + 256 * carry_in(r.1@[0]),
        r.1@[1] == (a@[1] - b@[1] - carry_in(r.1@[0]) < 0),
        r.0@[1] == a@[1] - b@[1] - carry_in(r.1@[0]) + 256 * carry_in(r.1@[1]),
        r.1@[2] == (a@[2] - b@[2] - carry_in(r.1@[1]) < 0),
        r.0@[2] == a@[2] - b@[2] - carry_in(r.1@[1]) + 256 * carry_in(r.1@[2]),
        r.1@[3] == (a@[3] - b@[3] - carry_in(r.1@[2]) < 0),
        r.0@[3] == a@[3] - b@[3] - carry_in(r.1@[2]) + 256 * carry_in(r.1@[3]),
{
    let x0: i32 = a[0] as i32 - b[0] as i32;
    let bor0 = x0 < 0;
    let d0: i32 = if bor0 {
        x0 + 256
    } else {
        x0
    };
    let x1: i32 = a[1] as i32 - b[1] as i32 - if bor0 {
        1
    } else {
        0
    };
    let bor1 = x1 < 0;
    let d1: i32 = if bor1 {
        x1 + 256
    } else {
        x1
    };
    let x2: i32 = a[2] as i32 - b[2] as i32 - if bor1 {
        1
    } else {
        0
    };
    let bor2 = x2 < 0;
    let d2: i32 = if bor2 {
        x2 + 256
    } else {
        x2
    };
    let x3: i32 = a[3] as i32 - b[3] as i32 - if bor2 {
        1
    } else {
        0
    };
    let bor3 = x3 < 0;
    let d3: i32 = if bor3 {
        x3 + 256
    } else {
        x3
    };
    ([d0 as u8, d1 as u8, d2 as u8, d3 as u8], [bor0, bor1, bor2, bor3])
}

/// The final borrow of a limb-wise subtraction is the unsigned below
/// flag of the words the limbs compose.
pub proof fn lemma_borrow_is_unsigned_lt(
    a0: int,
    a1: int,
    a2: int,
    a3: int,
    b0: int,
    b1: int,
    b2: int,
    b3: int,
    h0: int,
    h1: int,
    h2: int,
    h3: int,
    r0: int,
    r1: int,
    r2: int,
    r3: int,
)
    requires
        0 <= a0 < 256 && 0 <= a1 < 256 && 0 <= a2 < 256 && 0 <= a3 < 256,
        0 <= b0 < 256 && 0 <= b1 < 256 && 0 <= b2 < 256 && 0 <= b3 < 256,
        0 <= h0 < 256 && 0 <= h1 < 256 && 0 <= h2 < 256 && 0 <= h3 < 256,
        r0 == 0 || r0 == 1,
        r1 == 0 || r1 == 1,
        r2 == 0 || r2 == 1,
        r3 == 0 || r3 == 1,
        h0 == a0 - b0 + 256 * r0,
        h1 == a1 - b1 - r0 + 256 * r1,
        h2 == a2 - b2 - r1 + 256 * r2,
        h3 == a3 - b3 - r2 + 256 * r3,
    ensures
        (r3 == 1) <==> (a0 + 256 * a1 + 0x10000 * a2 + 0x1000000 * a3 < b0 + 256 * b1 + 0x10000
            * b2 + 0x1000000 * b3),
        h0 + 256 * h1 + 0x10000 * h2 + 0x1000000 * h3 == a0 + 256 * a1 + 0x10000 * a2 + 0x1000000
            * a3 - (b0 + 256 * b1 + 0x10000 * b2 + 0x1000000 * b3) + 0x100000000 * r3,
{
    assert(h0 + 256 * h1 + 0x10000 * h2 + 0x1000000 * h3 == (a0 + 256 * a1 + 0x10000 * a2
        + 0x1000000 * a3) - (b0 + 256 * b1 + 0x10000 * b2 + 0x1000000 * b3) + 0x100000000 * r3);
}

/// What the subtraction chip computes for one step.
pub struct ExecutionResult {
    pub borrow_bits: BoolWord,
    pub diff_bytes: Word,
    pub value_a_effective_flag: bool,
}

/// The chip of the subtraction form.
pub struct SubChip;

impl SubChip {
    /// Computes the step's limb-wise difference `value_b - value_c` with
    /// its borrow bits, and whether the destination register is written.
    pub fn execute(program_step: &ProgramStep) -> (r: ExecutionResult)
        requires
            program_step.wf(),
        ensures
            ({
                let b = program_step.spec_value_b();
                let c = program_step.spec_value_c();
                &&& r.borrow_bits@[3] == (b < c)
                &&& r.value_a_effective_flag == (program_step.step.instruction.op_a != 0)
                &&& limbs_are_diff(r.diff_bytes@, r.borrow_bits@, b, c)
            }),
    {
        let value_b = program_step.get_value_b();
        let (value_c, _) = program_step.get_value_c();
        let (diff_bytes, borrow_bits) = subtract_with_borrow(value_b, value_c);
        proof {
            let b = program_step.spec_value_b();
            let c = program_step.spec_value_c();
            lemma_borrow_is_unsigned_lt(
                value_b@[0] as int,
                value_b@[1] as int,
                value_b@[2] as int,
                value_b@[3] as int,
                value_c@[0] as int,
                value_c@[1] as int,
                value_c@[2] as int,
                value_c@[3] as int,
                diff_bytes@[0] as int,
                diff_bytes@[1] as int,
                diff_bytes@[2] as int,
                diff_bytes@[3] as int,
                carry_in(borrow_bits@[0]),
                carry_in(borrow_bits@[1]),
                carry_in(borrow_bits@[2]),
                carry_in(borrow_bits@[3]),
            );
            crate::chips::cpu::lemma_word_bytes(b);
            crate::chips::cpu::lemma_word_bytes(c);
        }
        ExecutionResult {
            borrow_bits,
            diff_bytes,
            value_a_effective_flag: program_step.step.instruction.op_a != 0,
        }
    }

    /// Fills the subtraction chip's columns for one row: the result limbs
    /// and the borrow bits. A no-op off subtraction rows and on padding.
    #[verifier::rlimit(100)]
    #[verifier::spinoff_prover]
    pub fn fill_main_trace(
        traces: &mut TracesBuilder,
        row_idx: usize,
        vm_step: &Option<ProgramStep>,
        _side_note: &mut SideNote,
    )
        requires
            old(traces).wf(),
            row_idx < old(traces).rows,
            match vm_step {
                Some(s) => s.wf(),
                None => true,
            },
        ensures
            final(traces).wf(),
            final(traces).rows == old(traces).rows,
            final(traces).log_size == old(traces).log_size,
            match vm_step {
                Some(s) => if s.step.instruction.opcode.spec_builtin() == Some(BuiltinOpcode::SUB) {
                    sub_row_filled(*final(traces), row_idx as int, *s) && (forall|cc: int, r: int|
                        0 <= cc < crate::column::COLUMNS_TOTAL && 0 <= r < old(traces).rows && !(r
                            == row_idx && (8 <= cc < 16 || 36 <= cc < 40))
                            ==> final(traces).spec_cell(cc, r) == old(traces).spec_cell(cc, r))
                } else {
                    *final(traces) == *old(traces)
                },
                None => *final(traces) == *old(traces),
            },
    {
        let step = match vm_step {
            Some(s) => s,
            None => {
                return ;
            },
        };
        let is_sub = match step.step.instruction.opcode.builtin() {
            Some(BuiltinOpcode::SUB) => true,
            _ => false,
        };
        if !is_sub {
            return ;
        }
        let res = Self::execute(step);
        traces.fill_columns_word(row_idx, res.diff_bytes, Column::ValueA);
        traces.fill_columns_bool_word(row_idx, res.borrow_bits, Column::CarryFlag);
        traces.fill_effective_columns(
            row_idx,
            &res.diff_bytes,
            Column::ValueAEffective,
            res.value_a_effective_flag,
        );
        proof {
            let row = row_idx as int;
            assert forall|k: int|
                0 <= k < 4 implies #[trigger] traces.spec_cell(8 + k, row)
                == res.diff_bytes@[k] by {
            }
        }
    }

    /// Appends the subtraction constraints over a row's column values: for
    /// each limb, `is_sub * (a[i] + c[i] + h[i-1] - b[i] - 256*h[i])`,
    /// with the borrow bits in the carry column.
    pub fn add_constraints(
        eval: &mut Vec<Fp>,
        trace_eval: &Vec<Fp>,
        _lookup_elements: &crate::lookups::AllLookupElements,
    )
        requires
            trace_eval@.len() == crate::column::COLUMNS_TOTAL,
            forall|c: int|
                0 <= c < crate::column::COLUMNS_TOTAL ==> (#[trigger] trace_eval@[c]).ok(),
            forall|j: int| 0 <= j < old(eval)@.len() ==> (#[trigger] old(eval)@[j]).ok(),
        ensures
            final(eval)@.len() == old(eval)@.len() + 4,
            forall|j: int| 0 <= j < final(eval)@.len() ==> (#[trigger] final(eval)@[j]).ok(),
            forall|j: int| 0 <= j < old(eval)@.len() ==> final(eval)@[j] == old(eval)@[j],
            forall|i: int|
                0 <= i < 4 ==> (#[trigger] final(eval)@[old(eval)@.len() + i]).v == sub_constraint_spec(
                    crate::trace::row_of(trace_eval@),
                    i,
                ),
    {
        let is_sub = trace_eval[47];
        let mut i: usize = 0;
        while i < 4
            invariant
                i <= 4,
                trace_eval@.len() == crate::column::COLUMNS_TOTAL,
                forall|c: int|
                    0 <= c < crate::column::COLUMNS_TOTAL ==> (#[trigger] trace_eval@[c]).ok(),
                is_sub == trace_eval@[47],
                eval@.len() == old(eval)@.len() + i,
                forall|j: int| 0 <= j < eval@.len() ==> (#[trigger] eval@[j]).ok(),
                forall|j: int| 0 <= j < old(eval)@.len() ==> eval@[j] == old(eval)@[j],
                forall|k: int|
                    0 <= k < i ==> (#[trigger] eval@[old(eval)@.len() + k]).v == sub_constraint_spec(
                        crate::trace::row_of(trace_eval@),
                        k,
                    ),
            decreases 4 - i,
        {
            let a_i = trace_eval[8 + i];
            let b_i = trace_eval[16 + i];
            let c_i = trace_eval[20 + i];
            let h_i = trace_eval[36 + i];
            let h_prev = if i == 0 {
                Fp::zero()
            } else {
                trace_eval[36 + i - 1]
            };
            let lhs = a_i.add(c_i).add(h_prev);
            let rhs = b_i.add(h_i.mul(Fp::new(0x100)));
            eval.push(is_sub.mul(lhs.sub(rhs)));
            i = i + 1;
        }
    }
}

/// What the subtraction chip writes at a row for a real subtraction step:
/// result limbs witnessing the limb-wise difference of the operands with
/// its borrows in the carry column.
pub open spec fn sub_row_filled(t: crate::trace::TracesBuilder, row: int, s: ProgramStep) -> bool {
    let b = s.spec_value_b();
    let c = s.spec_value_c();
    &&& (forall|k: int| 0 <= k < 4 ==> #[trigger] t.spec_cell(8 + k, row) < 256)
    &&& (forall|k: int|
        0 <= k < 4 ==> (#[trigger] t.spec_cell(36 + k, row) == 0 || t.spec_cell(36 + k, row)
            == 1))
    &&& (forall|k: int|
        0 <= k < 4 ==> (#[trigger] t.spec_cell(8 + k, row)) as int == crate::memory::extract_part(
            b,
            k as u32,
            crate::memory::MemAccessSize::Byte,
        ) - crate::memory::extract_part(c, k as u32, crate::memory::MemAccessSize::Byte) - (if k
            == 0 {
            0int
        } else {
            t.spec_cell(36 + k - 1, row) as int
        }) + 256 * t.spec_cell(36 + k, row))
}

/// Whether difference limbs and borrows witness `b - c` over the words
/// the limbs compose.
pub open spec fn limbs_are_diff(d: Seq<u8>, bor: Seq<bool>, b: u32, c: u32) -> bool {
    &&& d[0] == (b % 0x100) - (c % 0x100) + 256 * carry_in(bor[0])
    &&& d[1] == (b / 0x100 % 0x100) - (c / 0x100 % 0x100) - carry_in(bor[0]) + 256 * carry_in(
        bor[1],
    )
    &&& d[2] == (b / 0x10000 % 0x100) - (c / 0x10000 % 0x100) - carry_in(bor[1]) + 256 * carry_in(
        bor[2],
    )
    &&& d[3] == (b / 0x1000000 % 0x100) - (c / 0x1000000 % 0x100) - carry_in(bor[2]) + 256
        * carry_in(bor[3])
}

/// The subtraction chip's constraint for limb `i` over a row's values.
pub open spec fn sub_constraint_spec(row: Seq<u32>, i: int) -> int {
    let is_sub = row[47] as int;
    let a_i = row[8 + i] as int;
    let b_i = row[16 + i] as int;
    let c_i = row[20 + i] as int;
    let h_i = row[36 + i] as int;
    let h_prev: int = if i == 0 {
        0
    } else {
        row[36 + i - 1] as int
    };
    fmul(is_sub, fsub(fadd(fadd(a_i, c_i), h_prev), fadd(b_i, fmul(h_i, 0x100))))
}

} // verus!

verus! {

/// Trace validity for the subtraction chip: on a row whose cells hold
/// what the chip fills for a real subtraction step — result limbs
/// witnessing the limb-wise difference with its borrows — every
/// subtraction constraint evaluates to zero; on a row whose selector is
/// zero they vanish as well.
pub proof fn lemma_sub_constraints_vanish(row: Seq<u32>, i: int)
    requires
        row.len() == crate::column::COLUMNS_TOTAL,
        0 <= i < 4,
        row[47] == 0 || row[47] == 1,
        row[47] == 1 ==> {
            &&& forall|j: int| 0 <= j < 4 ==> (#[trigger] row[8 + j]) < 256
            &&& forall|j: int| 0 <= j < 4 ==> (#[trigger] row[16 + j]) < 256
            &&& forall|j: int| 0 <= j < 4 ==> (#[trigger] row[20 + j]) < 256
            &&& forall|j: int| 0 <= j < 4 ==> ((#[trigger] row[36 + j]) == 0 || row[36 + j] == 1)
            &&& (forall|j: int|
                0 <= j < 4 ==> (#[trigger] row[8 + j]) as int == row[16 + j] - row[20 + j] - (
                if j == 0 {
                    0int
                } else {
                    row[36 + j - 1] as int
                }) + 256 * row[36 + j])
        },
    ensures
        sub_constraint_spec(row, i) == 0,
{
    let is_sub = row[47] as int;
    let h_prev: int = if i == 0 {
        0
    } else {
        row[36 + i - 1] as int
    };
    let pos = fadd(fadd(row[8 + i] as int, row[20 + i] as int), h_prev);
    let neg = fadd(row[16 + i] as int, fmul(row[36 + i] as int, 0x100));
    if is_sub == 1 {
        crate::field::lemma_fadd_small(row[8 + i] as int, row[20 + i] as int);
        crate::field::lemma_fadd_small(row[8 + i] as int + row[20 + i] as int, h_prev);
        crate::field::lemma_fmul_small(row[36 + i] as int, 0x100);
        crate::field::lemma_fadd_small(row[16 + i] as int, (row[36 + i] as int) * 0x100);
        crate::field::lemma_fsub_zero(pos, neg);
        crate::field::lemma_fmul_sel(is_sub, 0);
    } else {
        crate::field::lemma_fsub_ok(pos, neg);
        crate::field::lemma_fmul_sel(is_sub, fsub(pos, neg));
    }
}

} // verus!
