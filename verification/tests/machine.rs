use zkvm_core::emulator::ElfFile;
use zkvm_core::field::{Fp, FIELD_MODULUS};
use zkvm_core::layout::{word_align, LinearMemoryLayout, MemoryStats, MEMORY_TOP};
use zkvm_core::lookups::{chain_check, range_check_balanced, AllLookupElements, LookupElements,
    RelationKind};
use zkvm_core::memory::{FixedMemory, MemAccessSize, MemoryRecord, Mode, UnifiedMemory,
    VariableMemory};
use zkvm_core::prover::{log_size_for, next_stage, Machine, ProverAction, ProverStage};
use zkvm_core::emulator::{HarvardEmulator, LinearEmulator};
use zkvm_core::rv32::{BuiltinOpcode, Instruction, InstructionType, Opcode};

#[test]
fn test_memory_chain_check() {
    let rec = |vb: u32, va: u32, tp: usize, tc: usize| MemoryRecord {
        address: 0x100,
        size: MemAccessSize::Word,
        value_before: vb,
        value_after: va,
        timestamp_prev: tp,
        timestamp_cur: tc,
    };
    // a well-ordered chain balances
    assert!(chain_check(&vec![rec(0, 5, 0, 1), rec(5, 6, 1, 2), rec(6, 6, 2, 3)]));
    // a value mismatch breaks the chain
    assert!(!chain_check(&vec![rec(0, 5, 0, 1), rec(4, 6, 1, 2)]));
    // a timestamp mismatch breaks the chain
    assert!(!chain_check(&vec![rec(0, 5, 0, 1), rec(5, 6, 2, 3)]));
}

#[test]
fn test_field_arithmetic() {
    let a = Fp::new(FIELD_MODULUS - 1);
    let b = Fp::new(2);
    assert_eq!(a.add(b).v, 1);
    assert_eq!(b.sub(a).v, 3);
    assert_eq!(Fp::new(3).mul(Fp::new(5)).v, 15);
    assert_eq!(Fp::new(1 << 16).mul(Fp::new(1 << 16)).v, 2);
    assert_eq!(Fp::new(7).neg().v, FIELD_MODULUS - 7);
    assert_eq!(Fp::zero().neg().v, 0);
}

#[test]
fn test_lookup_container() {
    let mut all = AllLookupElements::new();
    assert!(all.is_empty());
    let elems = LookupElements { alpha: Fp::new(3), z: Fp::new(5) };
    all.insert(RelationKind::Range256, elems);
    assert!(!all.is_empty());
    assert_eq!(all.get(RelationKind::Range256), Some(elems));
    assert_eq!(all.get(RelationKind::BitOp), None);
}

#[test]
fn test_range_check_balanced() {
    assert!(range_check_balanced(&vec![0, 1, 255], 256));
    // a single out-of-range value unbalances the ledger
    assert!(!range_check_balanced(&vec![0, 256, 1], 256));
}

#[test]
fn test_word_align_values() {
    assert_eq!(word_align(0), 0);
    assert_eq!(word_align(1), 4);
    assert_eq!(word_align(4), 4);
    assert_eq!(word_align(5), 8);
}

#[test]
fn test_optimized_layout_orders_regions() {
    let stats = MemoryStats::new(0x3000, MEMORY_TOP);
    let layout = stats.create_optimized_layout(0x2000, 0, 8, 4).unwrap();
    assert_eq!(layout.program_start(), 0x1000);
    assert_eq!(layout.public_input_start(), 0x3000);
    assert_eq!(layout.public_input_end(), 0x300C);
    assert_eq!(layout.exit_code(), 0x300C);
    assert_eq!(layout.public_output_end(), 0x3014);
    assert!(layout.heap_start() <= layout.heap_end());
    assert!(layout.heap_end() <= layout.stack_bottom());
    assert!(layout.stack_bottom() <= layout.stack_top());
    assert_eq!(layout.stack_top(), MEMORY_TOP);
    assert_eq!(layout.ad_start(), layout.ad_end());
}

#[test]
fn test_memory_load_store_round_trip() {
    let mut mem = UnifiedMemory::from_variable(VariableMemory::new(Mode::ReadWrite));
    mem.store(0x100, MemAccessSize::Word, 0xAABBCCDD).unwrap();
    assert_eq!(mem.load(0x100, MemAccessSize::Word).unwrap().0, 0xAABBCCDD);
    assert_eq!(mem.load(0x102, MemAccessSize::HalfWord).unwrap().0, 0xAABB);
    assert_eq!(mem.load(0x101, MemAccessSize::Byte).unwrap().0, 0xCC);
    mem.store(0x101, MemAccessSize::Byte, 0x11).unwrap();
    assert_eq!(mem.load(0x100, MemAccessSize::Word).unwrap().0, 0xAABB11DD);
}

#[test]
fn test_fixed_memory_from_bytes_little_endian() {
    let seg = FixedMemory::from_bytes(Mode::ReadOnly, 0, &vec![0xDD, 0xCC, 0xBB, 0xAA, 0x01]);
    assert_eq!(seg.words, vec![0xAABBCCDD, 0x01]);
}

#[test]
fn test_log_size_for_values() {
    assert_eq!(log_size_for(0), 0);
    assert_eq!(log_size_for(1), 0);
    assert_eq!(log_size_for(2), 1);
    assert_eq!(log_size_for(3), 2);
    assert_eq!(log_size_for(1024), 10);
    assert_eq!(log_size_for(1025), 11);
}

#[test]
fn test_prover_protocol_order() {
    let schedule = Machine::proof_schedule();
    assert_eq!(
        schedule,
        vec![
            ProverAction::CommitPreprocessed,
            ProverAction::CommitMain,
            ProverAction::DrawLookupsAndCommitInteraction,
            ProverAction::CommitProgram,
            ProverAction::InvokeBackend,
        ]
    );
    assert_eq!(
        next_stage(ProverStage::Setup),
        (ProverStage::PreprocessedCommitted, ProverAction::CommitPreprocessed)
    );
    assert_eq!(next_stage(ProverStage::Proved), (ProverStage::Proved, ProverAction::Done));
}

#[test]
fn test_harvard_from_elf_boots_at_entry() {
    let halt = Instruction::new(Opcode::from(BuiltinOpcode::JAL), 0, 0, 0, InstructionType::JType);
    let elf = ElfFile {
        instructions: vec![halt.encode()],
        rom_image: vec![(0x2000, 7)],
        ram_image: vec![(0x3000, 9)],
        base: 0x1000,
        entry: 0x1000,
    };
    let em = HarvardEmulator::from_elf(elf, &[1, 2], &[3]);
    assert_eq!(em.executor.cpu.pc.value, 0x1000);
    assert_eq!(em.executor.private_input_tape, vec![3]);
    // the read-only image is visible through the data memory
    assert_eq!(em.data_memory.load(0x2000, MemAccessSize::Word).unwrap().0, 7);
    assert_eq!(em.data_memory.load(0x3000, MemAccessSize::Word).unwrap().0, 9);
    // the input memory holds the length word then the bytes
    assert_eq!(em.input_memory.load(0, MemAccessSize::Word).unwrap().0, 2);
    assert_eq!(em.input_memory.load(4, MemAccessSize::Byte).unwrap().0, 1);
}

#[test]
fn test_linear_from_harvard_relocates_program() {
    let halt = Instruction::new(Opcode::from(BuiltinOpcode::JAL), 0, 0, 0, InstructionType::JType);
    let elf = ElfFile {
        instructions: vec![halt.encode()],
        rom_image: vec![],
        ram_image: vec![],
        base: 0x1000,
        entry: 0x1000,
    };
    let harvard = HarvardEmulator::from_elf(
        ElfFile {
            instructions: vec![halt.encode()],
            rom_image: vec![],
            ram_image: vec![],
            base: 0x1000,
            entry: 0x1000,
        },
        &[],
        &[],
    );
    let linear = LinearEmulator::from_harvard(harvard, elf, &[], &[]).unwrap();
    assert_eq!(linear.executor.cpu.pc.value, linear.memory_layout.program_start());
    assert_eq!(linear.memory_layout.program_start(), 0x1000);
}
