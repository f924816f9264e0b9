//! The composed machine: the chips conjoined into one contributor that
//! fills every row and appends every constraint, and the evaluator the
//! backend drives over the trace domain. The backend itself (commitment,
//! FFT, FRI) is an external collaborator; this module carries the
//! constraint content it evaluates.

use vstd::prelude::*;

use crate::chips::add::{add_constraint_spec, AddChip};
use crate::chips::bgeu::{bgeu_constraint_spec, BgeuChip};
use crate::chips::cpu::{cpu_constraint_spec, CpuChip};
use crate::chips::slt::{slt_constraint_spec, SltChip};
use crate::chips::sub::{sub_constraint_spec, SubChip};
use crate::field::Fp;
use crate::lookups::AllLookupElements;
use crate::chips::add::add_row_filled;
use crate::chips::bgeu::bgeu_row_filled;
use crate::chips::cpu::{is_class_add, is_class_bgeu, is_class_other, is_class_slt, is_class_sub,
    sel};
use crate::chips::slt::slt_row_filled;
use crate::chips::sub::sub_row_filled;
use crate::trace::{ProgramStep, SideNote, TracesBuilder};

verus! {

/// Logarithm of the constraint-degree blowup the backend must provide.
pub const LOG_CONSTRAINT_DEGREE: u32 = 2;

/// The number of constraints the composed machine appends per row.
pub const MACHINE_CONSTRAINTS: usize = 31;

/// The composed machine's chips, conjoined: the CPU chip, the arithmetic
/// and comparison chips, and the branch chip, in filling order.
pub struct Components;

/// What the composed machine's chips together write at a row: the shared
/// columns and selectors of the CPU chip, and the active class's witness
/// columns.
pub open spec fn machine_row_filled(t: TracesBuilder, row: int, s: ProgramStep) -> bool {
    &&& (forall|k: int|
        0 <= k < 4 ==> #[trigger] t.spec_cell(k, row) == crate::memory::extract_part(
            s.step.pc,
            k as u32,
            crate::memory::MemAccessSize::Byte,
        ))
    &&& (forall|k: int|
        0 <= k < 4 ==> #[trigger] t.spec_cell(16 + k, row) == crate::memory::extract_part(
            s.spec_value_b(),
            k as u32,
            crate::memory::MemAccessSize::Byte,
        ))
    &&& (forall|k: int|
        0 <= k < 4 ==> #[trigger] t.spec_cell(20 + k, row) == crate::memory::extract_part(
            s.spec_value_c(),
            k as u32,
            crate::memory::MemAccessSize::Byte,
        ))
    &&& t.spec_cell(46, row) == sel(is_class_add(s.step.instruction))
    &&& t.spec_cell(47, row) == sel(is_class_sub(s.step.instruction))
    &&& t.spec_cell(48, row) == sel(is_class_slt(s.step.instruction))
    &&& t.spec_cell(49, row) == sel(is_class_bgeu(s.step.instruction))
    &&& t.spec_cell(50, row) == sel(is_class_other(s.step.instruction))
    &&& (is_class_add(s.step.instruction) ==> add_row_filled(t, row, s))
    &&& (is_class_sub(s.step.instruction) ==> sub_row_filled(t, row, s))
    &&& (is_class_slt(s.step.instruction) ==> slt_row_filled(t, row, s))
    &&& (is_class_bgeu(s.step.instruction) ==> bgeu_row_filled(t, row, s))
}

/// What the composed machine's chips write at a padding row: zeros in the
/// shared columns and every selector clear.
pub open spec fn machine_padding_row(t: TracesBuilder, row: int) -> bool {
    &&& (forall|k: int| 0 <= k < 4 ==> #[trigger] t.spec_cell(k, row) == 0)
    &&& (forall|k: int| 0 <= k < 4 ==> #[trigger] t.spec_cell(16 + k, row) == 0)
    &&& (forall|k: int| 0 <= k < 4 ==> #[trigger] t.spec_cell(20 + k, row) == 0)
    &&& t.spec_cell(46, row) == 0
    &&& t.spec_cell(47, row) == 0
    &&& t.spec_cell(48, row) == 0
    &&& t.spec_cell(49, row) == 0
    &&& t.spec_cell(50, row) == 0
}

/// Constraint `k` of the composed machine over a row's column values: the
/// CPU chip's booleanity constraints, then the addition, subtraction,
/// signed comparison and branch chips' constraints, in order.
pub open spec fn machine_constraint_spec(row: Seq<u32>, k: int) -> int {
    if k < 5 {
        cpu_constraint_spec(row, k)
    } else if k < 9 {
        add_constraint_spec(row, k - 5)
    } else if k < 13 {
        sub_constraint_spec(row, k - 9)
    } else if k < 23 {
        slt_constraint_spec(row, k - 13)
    } else {
        bgeu_constraint_spec(row, k - 23)
    }
}

impl Components {
    /// Fills one row with every chip, in order: the CPU chip first (it
    /// owns the shared columns and the selectors), then the opcode chips;
    /// at most one of those writes, the row's class.
    #[verifier::rlimit(100)]
    #[verifier::spinoff_prover]
    pub fn fill_main_trace(
        traces: &mut TracesBuilder,
        row_idx: usize,
        vm_step: &Option<ProgramStep>,
        side_note: &mut SideNote,
    )
        requires
            old(traces).wf(),
            row_idx < old(traces).rows,
            match vm_step {
                Some(s) => s.wf(),
                None => true,
            },
        ensures
            final(traces).wf(),
            final(traces).rows == old(traces).rows,
            final(traces).log_size == old(traces).log_size,
            match vm_step {
                Some(s) => machine_row_filled(*final(traces), row_idx as int, *s),
                None => machine_padding_row(*final(traces), row_idx as int),
            },
    {
        CpuChip::fill_main_trace(traces, row_idx, vm_step, side_note);
        AddChip::fill_main_trace(traces, row_idx, vm_step, side_note);
        SubChip::fill_main_trace(traces, row_idx, vm_step, side_note);
        SltChip::fill_main_trace(traces, row_idx, vm_step, side_note);
        BgeuChip::fill_main_trace(traces, row_idx, vm_step, side_note);
    }

    /// Appends every chip's constraints over a row's column values.
    pub fn add_constraints(
        eval: &mut Vec<Fp>,
        trace_eval: &Vec<Fp>,
        lookup_elements: &AllLookupElements,
    )
        requires
            trace_eval@.len() == crate::column::COLUMNS_TOTAL,
            forall|c: int|
                0 <= c < crate::column::COLUMNS_TOTAL ==> (#[trigger] trace_eval@[c]).ok(),
            forall|j: int| 0 <= j < old(eval)@.len() ==> (#[trigger] old(eval)@[j]).ok(),
        ensures
            final(eval)@.len() == old(eval)@.len() + MACHINE_CONSTRAINTS,
            forall|j: int| 0 <= j < final(eval)@.len() ==> (#[trigger] final(eval)@[j]).ok(),
            forall|j: int| 0 <= j < old(eval)@.len() ==> final(eval)@[j] == old(eval)@[j],
            forall|k: int|
                0 <= k < MACHINE_CONSTRAINTS ==> (#[trigger] final(eval)@[old(eval)@.len()
                    + k]).v == machine_constraint_spec(crate::trace::row_of(trace_eval@), k),
    {
        let ghost base = eval@.len() as int;
        CpuChip::add_constraints(eval, trace_eval, lookup_elements);
        AddChip::add_constraints(eval, trace_eval, lookup_elements);
        SubChip::add_constraints(eval, trace_eval, lookup_elements);
        SltChip::add_constraints(eval, trace_eval, lookup_elements);
        BgeuChip::add_constraints(eval, trace_eval, lookup_elements);
        proof {
            let row = crate::trace::row_of(trace_eval@);
            assert forall|k: int|
                0 <= k < MACHINE_CONSTRAINTS implies (#[trigger] final(eval)@[base + k]).v
                == machine_constraint_spec(row, k) by {
                if k < 5 {
                    assert(final(eval)@[base + k].v == cpu_constraint_spec(row, k));
                } else if k < 9 {
                    assert(final(eval)@[base + 5 + (k - 5)].v == add_constraint_spec(row, k - 5));
                } else if k < 13 {
                    assert(final(eval)@[base + 9 + (k - 9)].v == sub_constraint_spec(row, k - 9));
                } else if k < 23 {
                    assert(final(eval)@[base + 13 + (k - 13)].v == slt_constraint_spec(
                        row,
                        k - 13,
                    ));
                } else {
                    assert(final(eval)@[base + 23 + (k - 23)].v == bgeu_constraint_spec(
                        row,
                        k - 23,
                    ));
                }
            }
        }
    }
}

/// The per-component evaluator the backend drives: the trace's size and
/// the challenge tuples, evaluating the composed constraints at a row.
#[derive(Debug, PartialEq, Eq)]
pub struct MachineEval {
    pub log_n_rows: u32,
    pub lookup_elements: AllLookupElements,
}

impl MachineEval {
    /// Builds an evaluator over a trace size and drawn challenges.
    pub fn new(log_n_rows: u32, lookup_elements: AllLookupElements) -> (r: MachineEval)
        ensures
            r.log_n_rows == log_n_rows,
            r.lookup_elements == lookup_elements,
    {
        MachineEval { log_n_rows, lookup_elements }
    }

    /// The trace's logarithmic size.
    pub fn log_size(&self) -> (r: u32)
        ensures
            r == self.log_n_rows,
    {
        self.log_n_rows
    }

    /// The degree bound the backend must accommodate.
    pub fn max_constraint_log_degree_bound(&self) -> (r: u32)
        requires
            self.log_n_rows + LOG_CONSTRAINT_DEGREE <= u32::MAX,
        ensures
            r == self.log_n_rows + LOG_CONSTRAINT_DEGREE,
    {
        self.log_n_rows + LOG_CONSTRAINT_DEGREE
    }

    /// Evaluates every constraint of the composed machine at one row.
    pub fn evaluate(&self, trace_eval: &Vec<Fp>) -> (r: Vec<Fp>)
        requires
            trace_eval@.len() == crate::column::COLUMNS_TOTAL,
            forall|c: int|
                0 <= c < crate::column::COLUMNS_TOTAL ==> (#[trigger] trace_eval@[c]).ok(),
        ensures
            r@.len() == MACHINE_CONSTRAINTS,
            forall|k: int|
                0 <= k < MACHINE_CONSTRAINTS ==> (#[trigger] r@[k]).v == machine_constraint_spec(
                    crate::trace::row_of(trace_eval@),
                    k,
                ),
    {
        let mut eval: Vec<Fp> = Vec::new();
        Components::add_constraints(&mut eval, trace_eval, &self.lookup_elements);
        proof {
            assert forall|k: int|
                0 <= k < MACHINE_CONSTRAINTS implies (#[trigger] eval@[k]).v
                == machine_constraint_spec(crate::trace::row_of(trace_eval@), k) by {
                assert(eval@[0 + k].v == machine_constraint_spec(
                    crate::trace::row_of(trace_eval@),
                    k,
                ));
            }
        }
        eval
    }
}

/// Trace validity for the composed machine: on a row whose cells hold
/// what the chips fill — boolean selectors, of which the active class's
/// is one, and that chip's witnesses — every constraint of the machine
/// evaluates to zero. Padding rows carry zero selectors, so all gated
/// constraints vanish there too.
pub proof fn lemma_trace_validity(row: Seq<u32>, k: int)
    requires
        row.len() == crate::column::COLUMNS_TOTAL,
        0 <= k < MACHINE_CONSTRAINTS,
        forall|s: int| 46 <= s < 51 ==> ((#[trigger] row[s]) == 0 || row[s] == 1),
        row[46] == 1 ==> {
            &&& forall|j: int| 0 <= j < 4 ==> (#[trigger] row[8 + j]) < 256
            &&& forall|j: int| 0 <= j < 4 ==> (#[trigger] row[16 + j]) < 256
            &&& forall|j: int| 0 <= j < 4 ==> (#[trigger] row[20 + j]) < 256
            &&& forall|j: int| 0 <= j < 4 ==> ((#[trigger] row[36 + j]) == 0 || row[36 + j] == 1)
            &&& (forall|j: int|
                0 <= j < 4 ==> (#[trigger] row[8 + j]) as int == row[16 + j] + row[20 + j] + (
                if j == 0 {
                    0int
                } else {
                    row[36 + j - 1] as int
                }) - 256 * row[36 + j])
        },
        row[47] == 1 ==> {
            &&& forall|j: int| 0 <= j < 4 ==> (#[trigger] row[8 + j]) < 256
            &&& forall|j: int| 0 <= j < 4 ==> (#[trigger] row[16 + j]) < 256
            &&& forall|j: int| 0 <= j < 4 ==> (#[trigger] row[20 + j]) < 256
            &&& forall|j: int| 0 <= j < 4 ==> ((#[trigger] row[36 + j]) == 0 || row[36 + j] == 1)
            &&& (forall|j: int|
                0 <= j < 4 ==> (#[trigger] row[8 + j]) as int == row[16 + j] - row[20 + j] - (
                if j == 0 {
                    0int
                } else {
                    row[36 + j - 1] as int
                }) + 256 * row[36 + j])
        },
        row[48] == 1 ==> {
            &&& forall|i: int| 0 <= i < 4 ==> (#[trigger] row[8 + i]) < 256
            &&& forall|i: int| 0 <= i < 4 ==> (#[trigger] row[16 + i]) < 256
            &&& forall|i: int| 0 <= i < 4 ==> (#[trigger] row[20 + i]) < 256
            &&& forall|i: int| 0 <= i < 4 ==> (#[trigger] row[24 + i]) < 256
            &&& forall|i: int| 0 <= i < 4 ==> ((#[trigger] row[36 + i]) == 0 || row[36 + i] == 1)
            &&& (row[44] == 0 || row[44] == 1)
            &&& (row[45] == 0 || row[45] == 1)
            &&& row[31] < 0x80
            &&& row[35] < 0x80
            &&& (forall|i: int|
                0 <= i < 4 ==> (#[trigger] row[24 + i]) as int == row[16 + i] - row[20 + i] - (
                if i == 0 {
                    0int
                } else {
                    row[36 + i - 1] as int
                }) + 256 * row[36 + i])
            &&& row[8] as int == row[44] * (1 - row[45]) + row[39] * (row[44] * row[45] + (1
                - row[44]) * (1 - row[45]))
            &&& row[9] == 0 && row[10] == 0 && row[11] == 0
            &&& row[19] as int == 0x80 * row[44] + row[31]
            &&& row[23] as int == 0x80 * row[45] + row[35]
        },
        row[49] == 1 ==> {
            &&& forall|i: int| 0 <= i < 4 ==> (#[trigger] row[8 + i]) < 256
            &&& forall|i: int| 0 <= i < 4 ==> (#[trigger] row[16 + i]) < 256
            &&& forall|i: int| 0 <= i < 4 ==> (#[trigger] row[20 + i]) < 256
            &&& forall|i: int| 0 <= i < 4 ==> (#[trigger] row[24 + i]) < 256
            &&& forall|i: int| 0 <= i < 4 ==> (#[trigger] row[i]) < 256
            &&& forall|i: int| 0 <= i < 4 ==> (#[trigger] row[4 + i]) < 256
            &&& forall|i: int| 0 <= i < 4 ==> ((#[trigger] row[36 + i]) == 0 || row[36 + i] == 1)
            &&& forall|i: int| 0 <= i < 4 ==> ((#[trigger] row[40 + i]) == 0 || row[40 + i] == 1)
            &&& (forall|i: int|
                0 <= i < 4 ==> (#[trigger] row[24 + i]) as int == row[8 + i] - row[16 + i] - (
                if i == 0 {
                    0int
                } else {
                    row[40 + i - 1] as int
                }) + 256 * row[40 + i])
            &&& (forall|i: int|
                0 <= i < 4 ==> (#[trigger] row[4 + i]) as int == row[i] + (if row[43] == 1 {
                    if i == 0 {
                        4int
                    } else {
                        0int
                    }
                } else {
                    row[20 + i] as int
                }) + (if i == 0 {
                    0int
                } else {
                    row[36 + i - 1] as int
                }) - 256 * row[36 + i])
        },
    ensures
        machine_constraint_spec(row, k) == 0,
{
    if k < 5 {
        crate::chips::cpu::lemma_cpu_constraints_vanish(row, k);
    } else if k < 9 {
        crate::chips::add::lemma_add_constraints_vanish(row, k - 5);
    } else if k < 13 {
        crate::chips::sub::lemma_sub_constraints_vanish(row, k - 9);
    } else if k < 23 {
        crate::chips::slt::lemma_slt_constraints_vanish(row, k - 13);
    } else {
        crate::chips::bgeu::lemma_bgeu_constraints_vanish(row, k - 23);
    }
}

} // verus!

verus! {

/// The column values at one row of a trace.
pub open spec fn trace_row(t: TracesBuilder, row: int) -> Seq<u32> {
    Seq::new(crate::column::COLUMNS_TOTAL as nat, |c: int| t.spec_cell(c, row))
}

/// Trace validity, end to end: on any row the composed machine filled from
/// a real step, every constraint of the machine evaluates to zero.
#[verifier::rlimit(100)]
#[verifier::spinoff_prover]
pub proof fn lemma_filled_row_constraints_vanish(
    t: TracesBuilder,
    row: int,
    s: ProgramStep,
    k: int,
)
    requires
        machine_row_filled(t, row, s),
        0 <= k < MACHINE_CONSTRAINTS,
    ensures
        machine_constraint_spec(trace_row(t, row), k) == 0,
{
    let r = trace_row(t, row);
    let b = s.spec_value_b();
    let c = s.spec_value_c();
    let i = s.step.instruction;
    crate::chips::cpu::lemma_selector_disjointness(i);
    assert forall|j: int| 0 <= j < 4 implies #[trigger] crate::memory::extract_part(
        b,
        j as u32,
        crate::memory::MemAccessSize::Byte,
    ) < 256 && crate::memory::extract_part(c, j as u32, crate::memory::MemAccessSize::Byte) < 256
        && crate::memory::extract_part(s.step.pc, j as u32, crate::memory::MemAccessSize::Byte)
        < 256 by {}
    if is_class_slt(i) {
        let sb: int = if b >= 0x8000_0000 {
            1
        } else {
            0
        };
        let sc: int = if c >= 0x8000_0000 {
            1
        } else {
            0
        };
        let lt: int = if b < c {
            1
        } else {
            0
        };
        crate::chips::slt::lemma_signed_lt(b, c);
        let ind: int = r[8] as int;
        assert(sb != sc ==> ind == sb);
        assert(sb == sc ==> ind == lt);
        assert(ind == sb * (1 - sc) + lt * (sb * sc + (1 - sb) * (1 - sc))) by (nonlinear_arith)
            requires
                sb == 0 || sb == 1,
                sc == 0 || sc == 1,
                lt == 0 || lt == 1,
                sb != sc ==> ind == sb,
                sb == sc ==> ind == lt,
        ;
        assert(r[44] == sb && r[45] == sc && r[39] == lt);
        assert(r[44] * (1 - r[45]) == sb * (1 - sc) && r[44] * r[45] == sb * sc && (1 - r[44]) * (
        1 - r[45]) == (1 - sb) * (1 - sc)) by (nonlinear_arith)
            requires
                r[44] == sb,
                r[45] == sc,
        ;
        assert(r[8] as int == r[44] * (1 - r[45]) + r[39] * (r[44] * r[45] + (1 - r[44]) * (1
            - r[45])));
        assert forall|j: int|
            0 <= j < 4 implies (#[trigger] r[24 + j]) as int == r[16 + j] - r[20 + j] - (if j
            == 0 {
            0int
        } else {
            r[36 + j - 1] as int
        }) + 256 * r[36 + j] by {
            assert(r[16 + j] == crate::memory::extract_part(
                b,
                j as u32,
                crate::memory::MemAccessSize::Byte,
            ));
            assert(r[20 + j] == crate::memory::extract_part(
                c,
                j as u32,
                crate::memory::MemAccessSize::Byte,
            ));
        }
        let k3: int = 3;
        assert(t.spec_cell(16 + k3, row) == crate::memory::extract_part(
            b,
            k3 as u32,
            crate::memory::MemAccessSize::Byte,
        ));
        assert(t.spec_cell(20 + k3, row) == crate::memory::extract_part(
            c,
            k3 as u32,
            crate::memory::MemAccessSize::Byte,
        ));
        assert(r[19] as int == 0x80 * r[44] + r[31]);
        assert(r[23] as int == 0x80 * r[45] + r[35]);
    }
    if is_class_bgeu(i) {
        let a = s.spec_value_a();
        let taken_y: u32 = if a < b {
            4
        } else {
            c
        };
        assert forall|j: int|
            0 <= j < 4 implies (#[trigger] r[4 + j]) as int == r[j] + (if r[43] == 1 {
            if j == 0 {
                4int
            } else {
                0int
            }
        } else {
            r[20 + j] as int
        }) + (if j == 0 {
            0int
        } else {
            r[36 + j - 1] as int
        }) - 256 * r[36 + j] by {
            if a < b {
                assert(crate::memory::extract_part(
                    4u32,
                    j as u32,
                    crate::memory::MemAccessSize::Byte,
                ) == (if j == 0 {
                    4int
                } else {
                    0int
                }));
            }
        }
    }
    lemma_trace_validity(r, k);
}

/// Trace validity on padding: on any row the composed machine filled as
/// padding, every selector is zero and every constraint vanishes.
pub proof fn lemma_padding_row_constraints_vanish(t: TracesBuilder, row: int, k: int)
    requires
        machine_padding_row(t, row),
        0 <= k < MACHINE_CONSTRAINTS,
    ensures
        machine_constraint_spec(trace_row(t, row), k) == 0,
{
    lemma_trace_validity(trace_row(t, row), k);
}

} // verus!

verus! {

/// Selector disjointness, at the trace level: on every row filled from a
/// real step exactly one instruction-class selector is one; on a padding
/// row all of them are zero.
pub proof fn lemma_trace_selector_disjointness(t: TracesBuilder, row: int, s: ProgramStep)
    requires
        machine_row_filled(t, row, s),
    ensures
        t.spec_cell(46, row) + t.spec_cell(47, row) + t.spec_cell(48, row) + t.spec_cell(49, row)
            + t.spec_cell(50, row) == 1,
{
    crate::chips::cpu::lemma_selector_disjointness(s.step.instruction);
}

} // verus!
