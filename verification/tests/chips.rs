use zkvm_core::components::{Components, MachineEval, MACHINE_CONSTRAINTS};
use zkvm_core::field::Fp;
use zkvm_core::lookups::AllLookupElements;
use zkvm_core::rv32::{BasicBlock, BuiltinOpcode, Instruction, InstructionType, Opcode};
use zkvm_core::trace::{k_trace, SideNote, TracesBuilder};

const LOG_SIZE: u32 = 8;

fn assert_machine_rows_vanish(basic_block: Vec<BasicBlock>) {
    let steps = k_trace(&basic_block).expect("Failed to create trace");
    let mut traces = TracesBuilder::new(LOG_SIZE);
    let mut side_note = SideNote::new();
    let mut row_idx: usize = 0;
    for step in steps {
        Components::fill_main_trace(&mut traces, row_idx, &Some(step), &mut side_note);
        row_idx += 1;
    }
    while row_idx < traces.num_rows() {
        Components::fill_main_trace(&mut traces, row_idx, &None, &mut side_note);
        row_idx += 1;
    }
    let machine = MachineEval::new(LOG_SIZE, AllLookupElements::new());
    for r in 0..traces.num_rows() {
        let row = traces.row_eval(r);
        let constraints = machine.evaluate(&row);
        assert_eq!(constraints.len(), MACHINE_CONSTRAINTS);
        for c in constraints {
            assert_eq!(c, Fp::zero());
        }
    }
}

fn setup_bgeu_block() -> Vec<BasicBlock> {
    let basic_block = BasicBlock::new(vec![
        // Set x10 = 1
        Instruction::new_ir(Opcode::from(BuiltinOpcode::ADDI), 10, 0, 1),
        // Set x1 = 10
        Instruction::new_ir(Opcode::from(BuiltinOpcode::ADDI), 1, 0, 10),
        // Set x2 = 20
        Instruction::new_ir(Opcode::from(BuiltinOpcode::ADDI), 2, 0, 20),
        // Set x3 = 10 (same as x1)
        Instruction::new_ir(Opcode::from(BuiltinOpcode::ADDI), 3, 0, 10),
        // Set x4 = -10
        Instruction::new_ir(Opcode::from(BuiltinOpcode::SUB), 4, 0, 1),
        // Set x5 = 0xFFFFFFFF (max unsigned value)
        Instruction::new_ir(Opcode::from(BuiltinOpcode::SUB), 5, 0, 10),
        // Case 1: BGEU with equal values (should branch)
        Instruction::new_ir(Opcode::from(BuiltinOpcode::BGEU), 1, 3, 12),
        // Unimpl instructions to fill the gap (trigger error when executed)
        Instruction::unimpl(),
        Instruction::unimpl(),
        // Case 2: BGEU with different values (should not branch)
        Instruction::new_ir(Opcode::from(BuiltinOpcode::BGEU), 1, 2, 0xff),
        // Case 3: BGEU with zero and non-zero (should not branch)
        Instruction::new_ir(Opcode::from(BuiltinOpcode::BGEU), 0, 1, 0xff),
        // Case 4: BGEU with zero and zero (should branch)
        Instruction::new_ir(Opcode::from(BuiltinOpcode::BGEU), 0, 0, 12),
        // Unimpl instructions to fill the gap (trigger error when executed)
        Instruction::unimpl(),
        Instruction::unimpl(),
        // Case 5: BGEU with negative and positive values (should branch)
        Instruction::new_ir(Opcode::from(BuiltinOpcode::BGEU), 4, 1, 12),
        // Unimpl instructions to fill the gap (trigger error when executed)
        Instruction::unimpl(),
        Instruction::unimpl(),
        // Case 6: BGEU with max unsigned value and zero (should branch)
        Instruction::new_ir(Opcode::from(BuiltinOpcode::BGEU), 5, 0, 12),
        // Unimpl instructions to fill the gap (trigger error when executed)
        Instruction::unimpl(),
        Instruction::unimpl(),
        // Case 7: BGEU with zero and max unsigned value (should not branch)
        Instruction::new_ir(Opcode::from(BuiltinOpcode::BGEU), 0, 5, 0xff),
    ]);
    vec![basic_block]
}

#[test]
fn test_k_trace_constrained_bgeu_instructions() {
    assert_machine_rows_vanish(setup_bgeu_block());
}

fn setup_slt_block() -> Vec<BasicBlock> {
    let basic_block = BasicBlock::new(vec![
        // Set x0 = 0 (default constant)
        // Set x1 = 2000 (smaller positive number)
        Instruction::new(Opcode::from(BuiltinOpcode::ADDI), 1, 0, 2000, InstructionType::IType),
        // Set x2 = 4000 (larger positive number)
        Instruction::new(Opcode::from(BuiltinOpcode::ADDI), 2, 0, 4000, InstructionType::IType),
        // Set x3 = -2000 (smaller negative number)
        Instruction::new(Opcode::from(BuiltinOpcode::SUB), 3, 0, 1, InstructionType::RType),
        // Set x4 = -4000 (larger negative number)
        Instruction::new(Opcode::from(BuiltinOpcode::SUB), 4, 0, 2, InstructionType::RType),
        // Case 1: Smaller Positive < Larger Positive: x5 = 1
        Instruction::new(Opcode::from(BuiltinOpcode::SLT), 5, 1, 2, InstructionType::RType),
        // Case 2: Larger Positive > Smaller Positive: x6 = 0
        Instruction::new(Opcode::from(BuiltinOpcode::SLT), 6, 2, 1, InstructionType::RType),
        // Case 3: Larger Negative < Smaller Negative: x7 = 1
        Instruction::new(Opcode::from(BuiltinOpcode::SLT), 7, 4, 3, InstructionType::RType),
        // Case 4: Smaller Negative > Larger Negative: x8 = 0
        Instruction::new(Opcode::from(BuiltinOpcode::SLT), 8, 3, 4, InstructionType::RType),
        // Case 5: Positive < Negative (always false): x9 = 0
        Instruction::new(Opcode::from(BuiltinOpcode::SLT), 9, 1, 3, InstructionType::RType),
        // Case 6: Negative < Positive (always true): x10 = 1
        Instruction::new(Opcode::from(BuiltinOpcode::SLT), 10, 3, 1, InstructionType::RType),
        // Case 7: Equal positive numbers: x11 = 0
        Instruction::new(Opcode::from(BuiltinOpcode::SLT), 11, 1, 1, InstructionType::RType),
        // Case 8: Equal negative numbers: x12 = 0
        Instruction::new(Opcode::from(BuiltinOpcode::SLT), 12, 3, 3, InstructionType::RType),
        // Case 9: Zero and positive: x13 = 1
        Instruction::new(Opcode::from(BuiltinOpcode::SLT), 13, 0, 1, InstructionType::RType),
        // Case 10: Zero and negative: x14 = 0
        Instruction::new(Opcode::from(BuiltinOpcode::SLT), 14, 0, 3, InstructionType::RType),
        // Case 11: Smallest negative vs largest negative
        // x15 = 0x80000000, x16 = -1
        Instruction::new(Opcode::from(BuiltinOpcode::LUI), 15, 0, 0x80000, InstructionType::UType),
        Instruction::new(Opcode::from(BuiltinOpcode::ADDI), 20, 0, 1, InstructionType::IType),
        Instruction::new(Opcode::from(BuiltinOpcode::SUB), 16, 0, 20, InstructionType::RType),
        // x17 = 1 because -2147483648 < -1
        Instruction::new(Opcode::from(BuiltinOpcode::SLT), 17, 15, 16, InstructionType::RType),
    ]);
    vec![basic_block]
}

#[test]
fn test_k_trace_constrained_stl_instructions() {
    assert_machine_rows_vanish(setup_slt_block());
}

#[test]
fn test_add_with_carries_values() {
    let (sum, carries) = zkvm_core::chips::add::add_with_carries(
        [0xFF, 0xFF, 0x00, 0x01],
        [0x01, 0x00, 0x00, 0x02],
    );
    assert_eq!(sum, [0x00, 0x00, 0x01, 0x03]);
    assert_eq!(carries, [true, true, false, false]);
}

#[test]
fn test_subtract_with_borrow_values() {
    let (diff, borrows) = zkvm_core::chips::sub::subtract_with_borrow(
        [0x00, 0x00, 0x00, 0x01],
        [0x01, 0x00, 0x00, 0x00],
    );
    assert_eq!(diff, [0xFF, 0xFF, 0xFF, 0x00]);
    assert_eq!(borrows, [true, true, true, false]);
}
