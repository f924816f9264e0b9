use zkvm_core::emulator::{HarvardEmulator, LinearEmulator, VMError, SYSCALL_EXIT,
    SYSCALL_READ_PRIVATE_INPUT};
use zkvm_core::layout::LinearMemoryLayout;
use zkvm_core::memory::MemoryError;
use zkvm_core::rv32::{BasicBlock, BuiltinOpcode, Instruction, InstructionType, Opcode};

fn setup_basic_block_ir() -> Vec<BasicBlock> {
    let basic_block = BasicBlock::new(vec![
        // Set x0 = 0 (default constant), x1 = 1
        Instruction::new(Opcode::from(BuiltinOpcode::ADDI), 1, 0, 1, InstructionType::IType),
        // x2 = x1 + x0
        // x3 = x2 + x1 ... and so on
        Instruction::new(Opcode::from(BuiltinOpcode::ADD), 2, 1, 0, InstructionType::RType),
        Instruction::new(Opcode::from(BuiltinOpcode::ADD), 3, 2, 1, InstructionType::RType),
        Instruction::new(Opcode::from(BuiltinOpcode::ADD), 4, 3, 2, InstructionType::RType),
        Instruction::new(Opcode::from(BuiltinOpcode::ADD), 5, 4, 3, InstructionType::RType),
        Instruction::new(Opcode::from(BuiltinOpcode::ADD), 6, 5, 4, InstructionType::RType),
        Instruction::new(Opcode::from(BuiltinOpcode::ADD), 7, 6, 5, InstructionType::RType),
        Instruction::new(Opcode::from(BuiltinOpcode::ADD), 8, 7, 6, InstructionType::RType),
        Instruction::new(Opcode::from(BuiltinOpcode::ADD), 9, 8, 7, InstructionType::RType),
        Instruction::new(Opcode::from(BuiltinOpcode::ADD), 10, 9, 8, InstructionType::RType),
        Instruction::new(Opcode::from(BuiltinOpcode::ADD), 11, 10, 9, InstructionType::RType),
        Instruction::new(Opcode::from(BuiltinOpcode::ADD), 12, 11, 10, InstructionType::RType),
        Instruction::new(Opcode::from(BuiltinOpcode::ADD), 13, 12, 11, InstructionType::RType),
        Instruction::new(Opcode::from(BuiltinOpcode::ADD), 14, 13, 12, InstructionType::RType),
        Instruction::new(Opcode::from(BuiltinOpcode::ADD), 15, 14, 13, InstructionType::RType),
        Instruction::new(Opcode::from(BuiltinOpcode::ADD), 16, 15, 14, InstructionType::RType),
        Instruction::new(Opcode::from(BuiltinOpcode::ADD), 17, 16, 15, InstructionType::RType),
        Instruction::new(Opcode::from(BuiltinOpcode::ADD), 18, 17, 16, InstructionType::RType),
        Instruction::new(Opcode::from(BuiltinOpcode::ADD), 19, 18, 17, InstructionType::RType),
        Instruction::new(Opcode::from(BuiltinOpcode::ADD), 20, 19, 18, InstructionType::RType),
        Instruction::new(Opcode::from(BuiltinOpcode::ADD), 21, 20, 19, InstructionType::RType),
        Instruction::new(Opcode::from(BuiltinOpcode::ADD), 22, 21, 20, InstructionType::RType),
        Instruction::new(Opcode::from(BuiltinOpcode::ADD), 23, 22, 21, InstructionType::RType),
        Instruction::new(Opcode::from(BuiltinOpcode::ADD), 24, 23, 22, InstructionType::RType),
        Instruction::new(Opcode::from(BuiltinOpcode::ADD), 25, 24, 23, InstructionType::RType),
        Instruction::new(Opcode::from(BuiltinOpcode::ADD), 26, 25, 24, InstructionType::RType),
        Instruction::new(Opcode::from(BuiltinOpcode::ADD), 27, 26, 25, InstructionType::RType),
        Instruction::new(Opcode::from(BuiltinOpcode::ADD), 28, 27, 26, InstructionType::RType),
        Instruction::new(Opcode::from(BuiltinOpcode::ADD), 29, 28, 27, InstructionType::RType),
        Instruction::new(Opcode::from(BuiltinOpcode::ADD), 30, 29, 28, InstructionType::RType),
        Instruction::new(Opcode::from(BuiltinOpcode::ADD), 31, 30, 29, InstructionType::RType),
    ]);
    vec![basic_block]
}

#[test]
fn test_harvard_fibonacci() {
    let basic_blocks = setup_basic_block_ir();

    let mut emulator = HarvardEmulator::default();
    basic_blocks.iter().for_each(|basic_block| {
        emulator.execute_basic_block(basic_block).unwrap();
    });

    assert_eq!(emulator.executor.cpu.registers.read(31), 1346269);
}

#[test]
fn test_harvard_set_private_input() {
    let private_input: [u8; 5] = [1, 2, 3, 4, 5];
    let private_input_vec = vec![1u8, 2, 3, 4, 5];

    let mut emulator = HarvardEmulator::default();
    emulator.set_private_input(&private_input);

    assert_eq!(emulator.executor.private_input_tape, private_input_vec);
}

#[test]
fn test_linear_fibonacci() {
    let basic_blocks = setup_basic_block_ir();

    let mut emulator = LinearEmulator::default();
    basic_blocks.iter().for_each(|basic_block| {
        emulator.execute_basic_block(basic_block).unwrap();
    });

    assert_eq!(emulator.executor.cpu.registers.read(31), 1346269);
}

#[test]
fn test_linear_set_private_input() {
    let private_input: [u8; 5] = [1, 2, 3, 4, 5];
    let private_input_vec = vec![1u8, 2, 3, 4, 5];

    let mut emulator = LinearEmulator::default();
    emulator.set_private_input(&private_input);

    assert_eq!(emulator.executor.private_input_tape, private_input_vec);
}

#[test]
fn test_linear_from_basic_block() {
    let basic_blocks = setup_basic_block_ir();
    let mut emulator = LinearEmulator::from_basic_blocks(LinearMemoryLayout::default(), &basic_blocks);

    assert_eq!(emulator.execute(), Err(VMError::VMOutOfInstructions));
}

#[test]
fn test_unimplemented_instruction() {
    let op = Opcode::new(0, None, None);
    let basic_block = BasicBlock::new(vec![Instruction::new(
        op.clone(),
        1,
        0,
        1,
        InstructionType::IType,
    )]);
    let mut emulator = HarvardEmulator::default();
    let res = emulator.execute_basic_block(&basic_block);

    assert_eq!(res, Err(VMError::UndefinedInstruction(op.clone())));

    let mut emulator = LinearEmulator::default();
    let res = emulator.execute_basic_block(&basic_block);

    assert_eq!(res, Err(VMError::UndefinedInstruction(op)));
}

#[test]
fn test_exit_syscall_reports_exit_code() {
    let block = BasicBlock::new(vec![
        Instruction::new(Opcode::from(BuiltinOpcode::ADDI), 17, 0, SYSCALL_EXIT, InstructionType::IType),
        Instruction::new(Opcode::from(BuiltinOpcode::ADDI), 10, 0, 42, InstructionType::IType),
        Instruction::new(Opcode::from(BuiltinOpcode::ECALL), 0, 0, 0, InstructionType::IType),
    ]);
    let mut emulator = HarvardEmulator::default();
    assert_eq!(emulator.execute_basic_block(&block), Err(VMError::VMExited(42)));
}

#[test]
fn test_unsupported_syscall_reports_number() {
    let block = BasicBlock::new(vec![
        Instruction::new(Opcode::from(BuiltinOpcode::ADDI), 17, 0, 999, InstructionType::IType),
        Instruction::new(Opcode::from(BuiltinOpcode::ECALL), 0, 0, 0, InstructionType::IType),
    ]);
    let mut emulator = HarvardEmulator::default();
    assert_eq!(emulator.execute_basic_block(&block), Err(VMError::UnsupportedSyscall(999)));
}

#[test]
fn test_private_input_syscall_reads_tape() {
    let block = BasicBlock::new(vec![
        Instruction::new(
            Opcode::from(BuiltinOpcode::ADDI),
            17,
            0,
            SYSCALL_READ_PRIVATE_INPUT,
            InstructionType::IType,
        ),
        Instruction::new(Opcode::from(BuiltinOpcode::ECALL), 0, 0, 0, InstructionType::IType),
        Instruction::new(Opcode::from(BuiltinOpcode::ECALL), 0, 0, 0, InstructionType::IType),
    ]);
    let mut emulator = LinearEmulator::default();
    emulator.set_private_input(&[7]);
    emulator.execute_basic_block(&block).unwrap();
    // the first read pops the single byte, the second finds the tape empty
    assert_eq!(emulator.executor.cpu.registers.read(10), 0xFFFF_FFFF);
}

#[test]
fn test_load_out_of_bounds_faults() {
    let block = BasicBlock::new(vec![Instruction::new(
        Opcode::from(BuiltinOpcode::LW),
        1,
        0,
        0x9000_0000,
        InstructionType::IType,
    )]);
    let mut emulator = LinearEmulator::default();
    assert_eq!(
        emulator.execute_basic_block(&block),
        Err(VMError::MemoryFault(MemoryError::MemoryOutOfBounds))
    );
}

#[test]
fn test_unaligned_load_faults() {
    let block = BasicBlock::new(vec![Instruction::new(
        Opcode::from(BuiltinOpcode::LW),
        1,
        0,
        0x1002,
        InstructionType::IType,
    )]);
    let mut emulator = LinearEmulator::default();
    assert_eq!(
        emulator.execute_basic_block(&block),
        Err(VMError::MemoryFault(MemoryError::UnalignedAccess))
    );
}

#[test]
fn test_store_to_code_denied() {
    // a word store aimed at the read-only code region of a laid-out machine
    let basic_blocks = setup_basic_block_ir();
    let mut emulator = LinearEmulator::from_basic_blocks(LinearMemoryLayout::default(), &basic_blocks);
    let block = BasicBlock::new(vec![Instruction::new(
        Opcode::from(BuiltinOpcode::SW),
        1,
        0,
        0x1000,
        InstructionType::SType,
    )]);
    assert_eq!(
        emulator.execute_basic_block(&block),
        Err(VMError::MemoryFault(MemoryError::MemoryPermissionDenied))
    );
}

#[test]
fn test_duplicate_opcode_registration() {
    let mut emulator = HarvardEmulator::default();
    let op = Opcode::new(0x0B, Some(5), Some(0));
    assert!(emulator.add_opcode(&op).is_ok());
    assert_eq!(emulator.add_opcode(&op), Err(VMError::DuplicateOpcode(op)));
}

#[test]
fn test_block_cache_decodes_once() {
    let basic_blocks = setup_basic_block_ir();
    let mut emulator = LinearEmulator::from_basic_blocks(LinearMemoryLayout::default(), &basic_blocks);
    assert_eq!(emulator.executor.block_decode_count, 0);
    let first = emulator.fetch_block(0x1000).unwrap();
    assert_eq!(emulator.executor.block_decode_count, 1);
    let second = emulator.fetch_block(0x1000).unwrap();
    // the second call returns an equal block and performs no decoding work
    assert_eq!(emulator.executor.block_decode_count, 1);
    assert_eq!(first, second);
}

#[test]
fn test_bgeu_branching_directions() {
    // x1=10, x2=20, x3=10, x4=-10 (0xFFFFFFF6), x5=0xFFFFFFFF
    let block = BasicBlock::new(vec![
        Instruction::new(Opcode::from(BuiltinOpcode::ADDI), 10, 0, 1, InstructionType::IType),
        Instruction::new(Opcode::from(BuiltinOpcode::ADDI), 1, 0, 10, InstructionType::IType),
        Instruction::new(Opcode::from(BuiltinOpcode::ADDI), 2, 0, 20, InstructionType::IType),
        Instruction::new(Opcode::from(BuiltinOpcode::ADDI), 3, 0, 10, InstructionType::IType),
        Instruction::new(Opcode::from(BuiltinOpcode::SUB), 4, 0, 1, InstructionType::RType),
        Instruction::new(Opcode::from(BuiltinOpcode::SUB), 5, 0, 10, InstructionType::RType),
    ]);
    let mut em = HarvardEmulator::default();
    em.execute_basic_block(&block).unwrap();
    let pc0 = em.executor.cpu.pc.value;

    // BGEU x1, x3, 12 branches: 10 >= 10
    let taken = BasicBlock::new(vec![Instruction::new(
        Opcode::from(BuiltinOpcode::BGEU),
        1,
        3,
        12,
        InstructionType::BType,
    )]);
    em.execute_basic_block(&taken).unwrap();
    assert_eq!(em.executor.cpu.pc.value, pc0 + 12);

    // BGEU x1, x2, 0xff falls through: 10 < 20
    let pc1 = em.executor.cpu.pc.value;
    let not_taken = BasicBlock::new(vec![Instruction::new(
        Opcode::from(BuiltinOpcode::BGEU),
        1,
        2,
        0xff,
        InstructionType::BType,
    )]);
    em.execute_basic_block(&not_taken).unwrap();
    assert_eq!(em.executor.cpu.pc.value, pc1 + 4);

    // BGEU x4, x1, 12 branches: 0xFFFFFFF6 >= 10 unsigned
    let pc2 = em.executor.cpu.pc.value;
    let neg_taken = BasicBlock::new(vec![Instruction::new(
        Opcode::from(BuiltinOpcode::BGEU),
        4,
        1,
        12,
        InstructionType::BType,
    )]);
    em.execute_basic_block(&neg_taken).unwrap();
    assert_eq!(em.executor.cpu.pc.value, pc2 + 12);

    // BGEU x0, x5, 0xff falls through: 0 < 0xFFFFFFFF
    let pc3 = em.executor.cpu.pc.value;
    let max_not_taken = BasicBlock::new(vec![Instruction::new(
        Opcode::from(BuiltinOpcode::BGEU),
        0,
        5,
        0xff,
        InstructionType::BType,
    )]);
    em.execute_basic_block(&max_not_taken).unwrap();
    assert_eq!(em.executor.cpu.pc.value, pc3 + 4);
}

#[test]
fn test_slt_scenario_registers() {
    // x1=2000, x2=4000, x3=-2000, x4=-4000
    let block = BasicBlock::new(vec![
        Instruction::new(Opcode::from(BuiltinOpcode::ADDI), 1, 0, 2000, InstructionType::IType),
        Instruction::new(Opcode::from(BuiltinOpcode::ADDI), 2, 0, 4000, InstructionType::IType),
        Instruction::new(Opcode::from(BuiltinOpcode::SUB), 3, 0, 1, InstructionType::RType),
        Instruction::new(Opcode::from(BuiltinOpcode::SUB), 4, 0, 2, InstructionType::RType),
        Instruction::new(Opcode::from(BuiltinOpcode::SLT), 5, 1, 2, InstructionType::RType),
        Instruction::new(Opcode::from(BuiltinOpcode::SLT), 6, 2, 1, InstructionType::RType),
        Instruction::new(Opcode::from(BuiltinOpcode::SLT), 7, 4, 3, InstructionType::RType),
        Instruction::new(Opcode::from(BuiltinOpcode::SLT), 9, 1, 3, InstructionType::RType),
        Instruction::new(Opcode::from(BuiltinOpcode::SLT), 10, 3, 1, InstructionType::RType),
        // x15 = 0x80000000, x16 = -1, x17 = (x15 < x16) signed
        Instruction::new(Opcode::from(BuiltinOpcode::LUI), 15, 0, 0x80000, InstructionType::UType),
        Instruction::new(Opcode::from(BuiltinOpcode::ADDI), 20, 0, 1, InstructionType::IType),
        Instruction::new(Opcode::from(BuiltinOpcode::SUB), 16, 0, 20, InstructionType::RType),
        Instruction::new(Opcode::from(BuiltinOpcode::SLT), 17, 15, 16, InstructionType::RType),
    ]);
    let mut em = HarvardEmulator::default();
    em.execute_basic_block(&block).unwrap();
    assert_eq!(em.executor.cpu.registers.read(5), 1);
    assert_eq!(em.executor.cpu.registers.read(6), 0);
    assert_eq!(em.executor.cpu.registers.read(7), 1);
    assert_eq!(em.executor.cpu.registers.read(9), 0);
    assert_eq!(em.executor.cpu.registers.read(10), 1);
    assert_eq!(em.executor.cpu.registers.read(17), 1);
}

#[test]
fn test_harvard_get_output_empty() {
    let emulator = HarvardEmulator::default();
    assert_eq!(emulator.get_output(), Ok(vec![]));
}

#[test]
fn test_host_instruction_round_trip() {
    let mut em = HarvardEmulator::default();
    let op = Opcode::new(0x0B, Some(5), Some(0));
    em.add_opcode(&op).unwrap();
    let instr = Instruction::new(op.clone(), 3, 0, 0, InstructionType::RType);
    let block = BasicBlock::new(vec![instr]);
    // a registered host-defined instruction surfaces as an event
    assert_eq!(em.execute_basic_block(&block), Err(VMError::HostInstruction(op)));
    // the host performs the outside work and applies its result
    em.executor.apply_custom_result(&instr, 99).unwrap();
    assert_eq!(em.executor.cpu.registers.read(3), 99);
    assert_eq!(em.executor.cpu.pc.value, 4);
}
