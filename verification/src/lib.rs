//! Core of a RISC-V zero-knowledge virtual machine: a two-pass, basic-block
//! cached RV32 emulator that records every architectural event, and a chip
//! framework that turns the recorded transcript into an algebraic constraint
//! system over a prime field.
//!
//! The polynomial commitment backend (FFT, FRI, Merkle hashing) is an external
//! collaborator and is not part of this crate; the prover driver exposes the
//! protocol decisions the backend must follow.

pub mod cpu;
pub mod decoder;
pub mod emulator;
pub mod chips;
pub mod column;
pub mod components;
pub mod field;
pub mod trace;
pub mod layout;
pub mod lookups;
pub mod prover;
pub mod memory;
pub mod rv32;

use vstd::prelude::*;

pub use components::Components;
pub use components::MachineEval;
pub use prover::Machine;

verus! {

/// Number of bytes in a machine word.
pub const WORD_SIZE: usize = 4;

} // verus!
