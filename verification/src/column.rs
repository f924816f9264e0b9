//! The column registry: every named column of the main trace, its width in
//! base columns and its offset in the shared column space. Each (column,
//! row) cell is filled by exactly one chip.

use vstd::prelude::*;

verus! {

/// The named columns of the main trace.
#[derive(Clone, Copy, Debug, PartialEq, Eq, Structural)]
pub enum Column {
    /// The program counter, as four byte limbs.
    Pc,
    /// The program counter after the step, as four byte limbs.
    PcNext,
    /// The destination value, as four byte limbs.
    ValueA,
    /// The destination value gated by whether the destination is written.
    ValueAEffective,
    /// The first operand value, as four byte limbs.
    ValueB,
    /// The second operand value or immediate, as four byte limbs.
    ValueC,
    /// First helper word of the active chip.
    Helper1,
    /// Second helper word of the active chip.
    Helper2,
    /// Third helper word of the active chip.
    Helper3,
    /// Carry bits of the active chip's addition.
    CarryFlag,
    /// Borrow bits of the active chip's subtraction.
    BorrowFlag,
    /// Sign bit of the first operand.
    SgnB,
    /// Sign bit of the second operand.
    SgnC,
    /// Selector: the row's step executes an addition form.
    IsAdd,
    /// Selector: the row's step executes a subtraction.
    IsSub,
    /// Selector: the row's step executes a signed set-less-than form.
    IsSlt,
    /// Selector: the row's step executes an unsigned branch-if-not-below.
    IsBgeu,
    /// Selector: the row's step executes any other instruction.
    IsOther,
}

/// Total number of base columns.
pub const COLUMNS_TOTAL: usize = 51;

/// Width of a named column in base columns.
pub open spec fn spec_col_width(c: Column) -> int {
    match c {
        Column::Pc => 4,
        Column::PcNext => 4,
        Column::ValueA => 4,
        Column::ValueAEffective => 4,
        Column::ValueB => 4,
        Column::ValueC => 4,
        Column::Helper1 => 4,
        Column::Helper2 => 4,
        Column::Helper3 => 4,
        Column::CarryFlag => 4,
        Column::BorrowFlag => 4,
        Column::SgnB => 1,
        Column::SgnC => 1,
        Column::IsAdd => 1,
        Column::IsSub => 1,
        Column::IsSlt => 1,
        Column::IsBgeu => 1,
        Column::IsOther => 1,
    }
}

/// Offset of a named column's first base column.
pub open spec fn spec_col_offset(c: Column) -> int {
    match c {
        Column::Pc => 0,
        Column::PcNext => 4,
        Column::ValueA => 8,
        Column::ValueAEffective => 12,
        Column::ValueB => 16,
        Column::ValueC => 20,
        Column::Helper1 => 24,
        Column::Helper2 => 28,
        Column::Helper3 => 32,
        Column::CarryFlag => 36,
        Column::BorrowFlag => 40,
        Column::SgnB => 44,
        Column::SgnC => 45,
        Column::IsAdd => 46,
        Column::IsSub => 47,
        Column::IsSlt => 48,
        Column::IsBgeu => 49,
        Column::IsOther => 50,
    }
}

/// Width of a named column in base columns.
pub fn col_width(c: Column) -> (r: usize)
    ensures
        r == spec_col_width(c),
{
    match c {
        Column::Pc => 4,
        Column::PcNext => 4,
        Column::ValueA => 4,
        Column::ValueAEffective => 4,
        Column::ValueB => 4,
        Column::ValueC => 4,
        Column::Helper1 => 4,
        Column::Helper2 => 4,
        Column::Helper3 => 4,
        Column::CarryFlag => 4,
        Column::BorrowFlag => 4,
        Column::SgnB => 1,
        Column::SgnC => 1,
        Column::IsAdd => 1,
        Column::IsSub => 1,
        Column::IsSlt => 1,
        Column::IsBgeu => 1,
        Column::IsOther => 1,
    }
}

/// Offset of a named column's first base column.
pub fn col_offset(c: Column) -> (r: usize)
    ensures
        r == spec_col_offset(c),
        r + spec_col_width(c) <= COLUMNS_TOTAL,
{
    match c {
        Column::Pc => 0,
        Column::PcNext => 4,
        Column::ValueA => 8,
        Column::ValueAEffective => 12,
        Column::ValueB => 16,
        Column::ValueC => 20,
        Column::Helper1 => 24,
        Column::Helper2 => 28,
        Column::Helper3 => 32,
        Column::CarryFlag => 36,
        Column::BorrowFlag => 40,
        Column::SgnB => 44,
        Column::SgnC => 45,
        Column::IsAdd => 46,
        Column::IsSub => 47,
        Column::IsSlt => 48,
        Column::IsBgeu => 49,
        Column::IsOther => 50,
    }
}

} // verus!
