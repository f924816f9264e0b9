use zkvm_core::decoder::{decode_instruction, decode_instructions, decode_rv32,
    decode_until_end_of_a_block, extract_fn3, extract_fn7, extract_opcode, extract_rd,
    extract_rs1, extract_rs2};
use zkvm_core::rv32::{BuiltinOpcode, Instruction, InstructionType, Opcode};

#[test]
fn test_extract_fields() {
    // add x3, x1, x2 == 0x002081B3
    let w: u32 = 0x002081B3;
    assert_eq!(extract_opcode(w), 0x33);
    assert_eq!(extract_rd(w), 3);
    assert_eq!(extract_fn3(w), 0);
    assert_eq!(extract_rs1(w), 1);
    assert_eq!(extract_rs2(w), 2);
    assert_eq!(extract_fn7(w), 0);
}

#[test]
fn test_decode_add() {
    let i = decode_rv32(0x002081B3);
    assert_eq!(i.opcode.builtin(), Some(BuiltinOpcode::ADD));
    assert_eq!(i.op_a, 3);
    assert_eq!(i.op_b, 1);
    assert_eq!(i.op_c, 2);
    assert_eq!(i.ins_type, InstructionType::RType);
}

#[test]
fn test_decode_addi_negative_immediate() {
    // addi sp, sp, -80 == 0xFB010113
    let i = decode_rv32(0xFB010113);
    assert_eq!(i.opcode.builtin(), Some(BuiltinOpcode::ADDI));
    assert_eq!(i.op_a, 2);
    assert_eq!(i.op_b, 2);
    assert_eq!(i.op_c, (-80i32) as u32);
}

#[test]
fn test_decode_store_and_branch() {
    // sw ra, 76(sp) == 0x04112623
    let sw = decode_rv32(0x04112623);
    assert_eq!(sw.opcode.builtin(), Some(BuiltinOpcode::SW));
    assert_eq!(sw.op_a, 1);
    assert_eq!(sw.op_b, 2);
    assert_eq!(sw.op_c, 76);
    // bgeu a0, a1, 8 == 0x00B57463
    let b = decode_rv32(0x00B57463);
    assert_eq!(b.opcode.builtin(), Some(BuiltinOpcode::BGEU));
    assert_eq!(b.op_a, 10);
    assert_eq!(b.op_b, 11);
    assert_eq!(b.op_c, 8);
}

#[test]
fn test_unknown_encoding_is_unimpl() {
    assert_eq!(decode_rv32(0), Instruction::unimpl());
    assert_eq!(decode_rv32(0xFFFF_FFFF), Instruction::unimpl());
    // the custom major opcode is unimpl for the standard decoder
    assert_eq!(decode_rv32(0x0000000B), Instruction::unimpl());
    // but decodes as a dynamic R-type instruction for the executor
    let d = decode_instruction(0x0000000B);
    assert_eq!(d.opcode.raw, 0x0B);
    assert_eq!(d.ins_type, InstructionType::RType);
}

#[test]
fn test_round_trip_each_form() {
    let cases = vec![
        Instruction::new(Opcode::from(BuiltinOpcode::ADD), 3, 1, 2, InstructionType::RType),
        Instruction::new(Opcode::from(BuiltinOpcode::SUB), 4, 5, 6, InstructionType::RType),
        Instruction::new(Opcode::from(BuiltinOpcode::ADDI), 2, 2, (-80i32) as u32, InstructionType::IType),
        Instruction::new(Opcode::from(BuiltinOpcode::SLTI), 7, 8, 2000, InstructionType::IType),
        Instruction::new(Opcode::from(BuiltinOpcode::SLLI), 9, 10, 31, InstructionType::ITypeShamt),
        Instruction::new(Opcode::from(BuiltinOpcode::SRAI), 11, 12, 1, InstructionType::ITypeShamt),
        Instruction::new(Opcode::from(BuiltinOpcode::LW), 1, 2, 76, InstructionType::IType),
        Instruction::new(Opcode::from(BuiltinOpcode::SW), 1, 2, (-4i32) as u32, InstructionType::SType),
        Instruction::new(Opcode::from(BuiltinOpcode::BGEU), 10, 11, 12, InstructionType::BType),
        Instruction::new(Opcode::from(BuiltinOpcode::BEQ), 1, 2, (-8i32) as u32, InstructionType::BType),
        Instruction::new(Opcode::from(BuiltinOpcode::LUI), 15, 0, 0x80000, InstructionType::UType),
        Instruction::new(Opcode::from(BuiltinOpcode::AUIPC), 1, 0, 0x12345, InstructionType::UType),
        Instruction::new(Opcode::from(BuiltinOpcode::JAL), 1, 0, (-164i32) as u32, InstructionType::JType),
        Instruction::new(Opcode::from(BuiltinOpcode::JALR), 1, 1, (-164i32) as u32, InstructionType::IType),
        Instruction::new(Opcode::from(BuiltinOpcode::ECALL), 0, 0, 0, InstructionType::IType),
        Instruction::new(Opcode::from(BuiltinOpcode::EBREAK), 0, 0, 1, InstructionType::IType),
        Instruction::unimpl(),
        Instruction::new(Opcode::new(0x0B, Some(1), Some(0)), 3, 4, 5, InstructionType::RType),
    ];
    for i in cases {
        assert_eq!(decode_instruction(i.encode()), i);
    }
}

#[test]
fn test_block_decoding_stops_at_branch() {
    let add = Instruction::new(Opcode::from(BuiltinOpcode::ADD), 3, 1, 2, InstructionType::RType);
    let jal = Instruction::new(Opcode::from(BuiltinOpcode::JAL), 1, 0, 8, InstructionType::JType);
    let words = vec![add.encode(), jal.encode(), add.encode()];
    let block = decode_until_end_of_a_block(&words);
    assert_eq!(block.len(), 2);
    assert_eq!(block.0[0], add);
    assert_eq!(block.0[1], jal);
}

#[test]
fn test_program_decoding_partitions_blocks() {
    let add = Instruction::new(Opcode::from(BuiltinOpcode::ADD), 3, 1, 2, InstructionType::RType);
    let jal = Instruction::new(Opcode::from(BuiltinOpcode::JAL), 1, 0, 8, InstructionType::JType);
    let words = vec![add.encode(), jal.encode(), add.encode(), add.encode()];
    let program = decode_instructions(&words);
    assert_eq!(program.blocks.len(), 2);
    assert_eq!(program.blocks[0].len(), 2);
    assert_eq!(program.blocks[1].len(), 2);
    assert_eq!(program.blocks[0].0[1], jal);
    assert_eq!(program.blocks[1].0[0], add);
}
