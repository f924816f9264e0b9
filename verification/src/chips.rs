//! The chips: modular contributors to the trace and constraint system, one
//! per opcode family. Each chip fills its columns from a `ProgramStep` and
//! appends constraints gated by its selector, so inactive rows contribute
//! nothing.

pub mod add;
pub mod bgeu;
pub mod cpu;
pub mod slt;
pub mod sub;
