//! Decoding raw 32-bit words into instructions and basic blocks, and the
//! inverse encoding. A basic block ends at the first branch or jump; an
//! unrecognized encoding decodes to `unimpl`, never silently skipped. The
//! single custom R-type major opcode is recognized only by the block decoder
//! used for execution, so host-defined instructions reach the executor
//! registry without widening the standard decoder.

use vstd::prelude::*;

use crate::rv32::{
    builtin_type, BasicBlock, BasicBlockProgram, BuiltinOpcode, Instruction, InstructionType,
    Opcode, DYNAMIC_RTYPE_OPCODE,
};

verus! {

/// The 7 least significant bits (6-0).
pub open spec fn extract_opcode_spec(w: u32) -> u8 {
    (w & 0x7F) as u8
}

/// Bits 14-12.
pub open spec fn extract_fn3_spec(w: u32) -> u8 {
    ((w & 0x7000) >> 12) as u8
}

/// The 7 most significant bits (31-25).
pub open spec fn extract_fn7_spec(w: u32) -> u8 {
    ((w & 0xFE000000) >> 25) as u8
}

/// Bits 11-7.
pub open spec fn extract_rd_spec(w: u32) -> u8 {
    ((w & 0xF80) >> 7) as u8
}

/// Bits 19-15.
pub open spec fn extract_rs1_spec(w: u32) -> u8 {
    ((w & 0x000F8000) >> 15) as u8
}

/// Bits 24-20.
pub open spec fn extract_rs2_spec(w: u32) -> u8 {
    ((w & 0x01F00000) >> 20) as u8
}

/// The major opcode: the 7 least significant bits.
pub fn extract_opcode(u32_instruction: u32) -> (r: u8)
    ensures
        r == extract_opcode_spec(u32_instruction),
{
    (u32_instruction & 0x7F) as u8
}

/// The `funct3` field: bits 14-12.
pub fn extract_fn3(u32_instruction: u32) -> (r: u8)
    ensures
        r == extract_fn3_spec(u32_instruction),
{
    ((u32_instruction & 0x7000) >> 12) as u8
}

/// The `funct7` field: bits 31-25.
pub fn extract_fn7(u32_instruction: u32) -> (r: u8)
    ensures
        r == extract_fn7_spec(u32_instruction),
{
    ((u32_instruction & 0xFE000000) >> 25) as u8
}

/// The destination register field: bits 11-7.
pub fn extract_rd(u32_instruction: u32) -> (r: u8)
    ensures
        r == extract_rd_spec(u32_instruction),
{
    ((u32_instruction & 0xF80) >> 7) as u8
}

/// The first source register field: bits 19-15.
pub fn extract_rs1(u32_instruction: u32) -> (r: u8)
    ensures
        r == extract_rs1_spec(u32_instruction),
{
    ((u32_instruction & 0x000F8000) >> 15) as u8
}

/// The second source register field: bits 24-20.
pub fn extract_rs2(u32_instruction: u32) -> (r: u8)
    ensures
        r == extract_rs2_spec(u32_instruction),
{
    ((u32_instruction & 0x01F00000) >> 20) as u8
}

/// Sign extension of a 12-bit value to 32 bits.
pub open spec fn sext12(v: u32) -> u32 {
    let x = v & 0xFFF;
    if x & 0x800 != 0 {
        x | 0xFFFFF000
    } else {
        x
    }
}

/// Sign extension of a 13-bit value to 32 bits.
pub open spec fn sext13(v: u32) -> u32 {
    let x = v & 0x1FFF;
    if x & 0x1000 != 0 {
        x | 0xFFFFE000
    } else {
        x
    }
}

/// Sign extension of a 21-bit value to 32 bits.
pub open spec fn sext21(v: u32) -> u32 {
    let x = v & 0x1FFFFF;
    if x & 0x100000 != 0 {
        x | 0xFFE00000
    } else {
        x
    }
}

/// The I-type immediate, sign extended.
pub open spec fn imm_i_of(w: u32) -> u32 {
    sext12(w >> 20)
}

/// The S-type immediate, sign extended.
pub open spec fn imm_s_of(w: u32) -> u32 {
    sext12(((w >> 25) << 5) | ((w >> 7) & 0x1F))
}

/// The B-type immediate, sign extended.
pub open spec fn imm_b_of(w: u32) -> u32 {
    sext13(
        (((w >> 31) & 1) << 12) | (((w >> 7) & 1) << 11) | (((w >> 25) & 0x3F) << 5) | (((w >> 8)
            & 0xF) << 1),
    )
}

/// The U-type immediate: the upper 20 bits.
pub open spec fn imm_u_of(w: u32) -> u32 {
    w >> 12
}

/// The J-type immediate, sign extended.
pub open spec fn imm_j_of(w: u32) -> u32 {
    sext21(
        (((w >> 31) & 1) << 20) | (((w >> 12) & 0xFF) << 12) | (((w >> 20) & 1) << 11) | (((w
            >> 21) & 0x3FF) << 1),
    )
}

/// What the standard decoder yields on a raw word: the decoded instruction
/// for every recognized RV32I encoding, `unimpl` for any other.
pub open spec fn spec_decode(w: u32) -> Instruction {
    let op = extract_opcode_spec(w);
    let rd = extract_rd_spec(w);
    let f3 = extract_fn3_spec(w);
    let rs1 = extract_rs1_spec(w);
    let rs2 = extract_rs2_spec(w);
    let f7 = extract_fn7_spec(w);
    if op == 0x33 {
        if f7 == 0 || (f7 == 0x20 && (f3 == 0 || f3 == 5)) {
            Instruction {
                opcode: Opcode { raw: 0x33, fn3: Some(f3), fn7: Some(f7) },
                op_a: rd,
                op_b: rs1,
                op_c: rs2 as u32,
                ins_type: InstructionType::RType,
            }
        } else {
            Instruction::unimpl_spec()
        }
    } else if op == 0x13 {
        if f3 == 1 {
            if f7 == 0 {
                Instruction {
                    opcode: Opcode { raw: 0x13, fn3: Some(1), fn7: Some(0) },
                    op_a: rd,
                    op_b: rs1,
                    op_c: rs2 as u32,
                    ins_type: InstructionType::ITypeShamt,
                }
            } else {
                Instruction::unimpl_spec()
            }
        } else if f3 == 5 {
            if f7 == 0 || f7 == 0x20 {
                Instruction {
                    opcode: Opcode { raw: 0x13, fn3: Some(5), fn7: Some(f7) },
                    op_a: rd,
                    op_b: rs1,
                    op_c: rs2 as u32,
                    ins_type: InstructionType::ITypeShamt,
                }
            } else {
                Instruction::unimpl_spec()
            }
        } else {
            Instruction {
                opcode: Opcode { raw: 0x13, fn3: Some(f3), fn7: None },
                op_a: rd,
                op_b: rs1,
                op_c: imm_i_of(w),
                ins_type: InstructionType::IType,
            }
        }
    } else if op == 0x03 {
        if f3 == 0 || f3 == 1 || f3 == 2 || f3 == 4 || f3 == 5 {
            Instruction {
                opcode: Opcode { raw: 0x03, fn3: Some(f3), fn7: None },
                op_a: rd,
                op_b: rs1,
                op_c: imm_i_of(w),
                ins_type: InstructionType::IType,
            }
        } else {
            Instruction::unimpl_spec()
        }
    } else if op == 0x23 {
        if f3 == 0 || f3 == 1 || f3 == 2 {
            Instruction {
                opcode: Opcode { raw: 0x23, fn3: Some(f3), fn7: None },
                op_a: rs2,
                op_b: rs1,
                op_c: imm_s_of(w),
                ins_type: InstructionType::SType,
            }
        } else {
            Instruction::unimpl_spec()
        }
    } else if op == 0x63 {
        if f3 == 0 || f3 == 1 || f3 == 4 || f3 == 5 || f3 == 6 || f3 == 7 {
            Instruction {
                opcode: Opcode { raw: 0x63, fn3: Some(f3), fn7: None },
                op_a: rs1,
                op_b: rs2,
                op_c: imm_b_of(w),
                ins_type: InstructionType::BType,
            }
        } else {
            Instruction::unimpl_spec()
        }
    } else if op == 0x37 || op == 0x17 {
        Instruction {
            opcode: Opcode { raw: op, fn3: None, fn7: None },
            op_a: rd,
            op_b: 0,
            op_c: imm_u_of(w),
            ins_type: InstructionType::UType,
        }
    } else if op == 0x6F {
        Instruction {
            opcode: Opcode { raw: 0x6F, fn3: None, fn7: None },
            op_a: rd,
            op_b: 0,
            op_c: imm_j_of(w),
            ins_type: InstructionType::JType,
        }
    } else if op == 0x67 {
        if f3 == 0 {
            Instruction {
                opcode: Opcode { raw: 0x67, fn3: Some(0), fn7: None },
                op_a: rd,
                op_b: rs1,
                op_c: imm_i_of(w),
                ins_type: InstructionType::IType,
            }
        } else {
            Instruction::unimpl_spec()
        }
    } else if op == 0x73 {
        if f3 == 0 && rd == 0 && rs1 == 0 && (w >> 20) == 0 {
            Instruction {
                opcode: Opcode { raw: 0x73, fn3: Some(0), fn7: Some(0) },
                op_a: 0,
                op_b: 0,
                op_c: 0,
                ins_type: InstructionType::IType,
            }
        } else if f3 == 0 && rd == 0 && rs1 == 0 && (w >> 20) == 1 {
            Instruction {
                opcode: Opcode { raw: 0x73, fn3: Some(0), fn7: Some(1) },
                op_a: 0,
                op_b: 0,
                op_c: 1,
                ins_type: InstructionType::IType,
            }
        } else {
            Instruction::unimpl_spec()
        }
    } else {
        Instruction::unimpl_spec()
    }
}

/// What the execution decoder yields: as the standard decoder, except that
/// the custom R-type major opcode is kept as a dynamic instruction.
pub open spec fn spec_decode_dyn(w: u32) -> Instruction {
    if extract_opcode_spec(w) == DYNAMIC_RTYPE_OPCODE {
        Instruction {
            opcode: Opcode {
                raw: DYNAMIC_RTYPE_OPCODE,
                fn3: Some(extract_fn3_spec(w)),
                fn7: Some(extract_fn7_spec(w)),
            },
            op_a: extract_rd_spec(w),
            op_b: extract_rs1_spec(w),
            op_c: extract_rs2_spec(w) as u32,
            ins_type: InstructionType::RType,
        }
    } else {
        spec_decode(w)
    }
}

/// Sign extension of a 12-bit value.
fn sext12_exec(v: u32) -> (r: u32)
    ensures
        r == sext12(v),
{
    let x = v & 0xFFF;
    if x & 0x800 != 0 {
        x | 0xFFFFF000
    } else {
        x
    }
}

/// Sign extension of a 13-bit value.
fn sext13_exec(v: u32) -> (r: u32)
    ensures
        r == sext13(v),
{
    let x = v & 0x1FFF;
    if x & 0x1000 != 0 {
        x | 0xFFFFE000
    } else {
        x
    }
}

/// Sign extension of a 21-bit value.
fn sext21_exec(v: u32) -> (r: u32)
    ensures
        r == sext21(v),
{
    let x = v & 0x1FFFFF;
    if x & 0x100000 != 0 {
        x | 0xFFE00000
    } else {
        x
    }
}

/// Decodes one raw word with the standard RV32I decoder; every encoding it
/// does not recognize, the custom major opcode included, becomes `unimpl`.
pub fn decode_rv32(w: u32) -> (r: Instruction)
    ensures
        r == spec_decode(w),
{
    let op = extract_opcode(w);
    let rd = extract_rd(w);
    let f3 = extract_fn3(w);
    let rs1 = extract_rs1(w);
    let rs2 = extract_rs2(w);
    let f7 = extract_fn7(w);
    if op == 0x33 {
        if f7 == 0 || (f7 == 0x20 && (f3 == 0 || f3 == 5)) {
            Instruction {
                opcode: Opcode { raw: 0x33, fn3: Some(f3), fn7: Some(f7) },
                op_a: rd,
                op_b: rs1,
                op_c: rs2 as u32,
                ins_type: InstructionType::RType,
            }
        } else {
            Instruction::unimpl()
        }
    } else if op == 0x13 {
        if f3 == 1 {
            if f7 == 0 {
                Instruction {
                    opcode: Opcode { raw: 0x13, fn3: Some(1), fn7: Some(0) },
                    op_a: rd,
                    op_b: rs1,
                    op_c: rs2 as u32,
                    ins_type: InstructionType::ITypeShamt,
                }
            } else {
                Instruction::unimpl()
            }
        } else if f3 == 5 {
            if f7 == 0 || f7 == 0x20 {
                Instruction {
                    opcode: Opcode { raw: 0x13, fn3: Some(5), fn7: Some(f7) },
                    op_a: rd,
                    op_b: rs1,
                    op_c: rs2 as u32,
                    ins_type: InstructionType::ITypeShamt,
                }
            } else {
                Instruction::unimpl()
            }
        } else {
            Instruction {
                opcode: Opcode { raw: 0x13, fn3: Some(f3), fn7: None },
                op_a: rd,
                op_b: rs1,
                op_c: sext12_exec(w >> 20),
                ins_type: InstructionType::IType,
            }
        }
    } else if op == 0x03 {
        if f3 == 0 || f3 == 1 || f3 == 2 || f3 == 4 || f3 == 5 {
            Instruction {
                opcode: Opcode { raw: 0x03, fn3: Some(f3), fn7: None },
                op_a: rd,
                op_b: rs1,
                op_c: sext12_exec(w >> 20),
                ins_type: InstructionType::IType,
            }
        } else {
            Instruction::unimpl()
        }
    } else if op == 0x23 {
        if f3 == 0 || f3 == 1 || f3 == 2 {
            Instruction {
                opcode: Opcode { raw: 0x23, fn3: Some(f3), fn7: None },
                op_a: rs2,
                op_b: rs1,
                op_c: sext12_exec(((w >> 25) << 5) | ((w >> 7) & 0x1F)),
                ins_type: InstructionType::SType,
            }
        } else {
            Instruction::unimpl()
        }
    } else if op == 0x63 {
        if f3 == 0 || f3 == 1 || f3 == 4 || f3 == 5 || f3 == 6 || f3 == 7 {
            Instruction {
                opcode: Opcode { raw: 0x63, fn3: Some(f3), fn7: None },
                op_a: rs1,
                op_b: rs2,
                op_c: sext13_exec(
                    (((w >> 31) & 1) << 12) | (((w >> 7) & 1) << 11) | (((w >> 25) & 0x3F) << 5) | (
                    ((w >> 8) & 0xF) << 1),
                ),
                ins_type: InstructionType::BType,
            }
        } else {
            Instruction::unimpl()
        }
    } else if op == 0x37 || op == 0x17 {
        Instruction {
            opcode: Opcode { raw: op, fn3: None, fn7: None },
            op_a: rd,
            op_b: 0,
            op_c: w >> 12,
            ins_type: InstructionType::UType,
        }
    } else if op == 0x6F {
        Instruction {
            opcode: Opcode { raw: 0x6F, fn3: None, fn7: None },
            op_a: rd,
            op_b: 0,
            op_c: sext21_exec(
                (((w >> 31) & 1) << 20) | (((w >> 12) & 0xFF) << 12) | (((w >> 20) & 1) << 11) | (((
                w >> 21) & 0x3FF) << 1),
            ),
            ins_type: InstructionType::JType,
        }
    } else if op == 0x67 {
        if f3 == 0 {
            Instruction {
                opcode: Opcode { raw: 0x67, fn3: Some(0), fn7: None },
                op_a: rd,
                op_b: rs1,
                op_c: sext12_exec(w >> 20),
                ins_type: InstructionType::IType,
            }
        } else {
            Instruction::unimpl()
        }
    } else if op == 0x73 {
        if f3 == 0 && rd == 0 && rs1 == 0 && (w >> 20) == 0 {
            Instruction {
                opcode: Opcode { raw: 0x73, fn3: Some(0), fn7: Some(0) },
                op_a: 0,
                op_b: 0,
                op_c: 0,
                ins_type: InstructionType::IType,
            }
        } else if f3 == 0 && rd == 0 && rs1 == 0 && (w >> 20) == 1 {
            Instruction {
                opcode: Opcode { raw: 0x73, fn3: Some(0), fn7: Some(1) },
                op_a: 0,
                op_b: 0,
                op_c: 1,
                ins_type: InstructionType::IType,
            }
        } else {
            Instruction::unimpl()
        }
    } else {
        Instruction::unimpl()
    }
}

/// Decodes one raw word for execution: standard RV32I encodings as the
/// standard decoder does, and the custom major opcode as a dynamic R-type
/// instruction routed to the executor registry.
pub fn decode_instruction(w: u32) -> (r: Instruction)
    ensures
        r == spec_decode_dyn(w),
{
    let op = extract_opcode(w);
    if op == DYNAMIC_RTYPE_OPCODE {
        let fn3 = extract_fn3(w);
        let fn7 = extract_fn7(w);
        let rd = extract_rd(w);
        let rs1 = extract_rs1(w);
        let rs2 = extract_rs2(w);
        let opcode = Opcode::new(op, Some(fn3), Some(fn7));
        Instruction::new(opcode, rd, rs1, rs2 as u32, InstructionType::RType)
    } else {
        decode_rv32(w)
    }
}

} // verus!

verus! {

/// The value of an optional encoding field, absent standing for zero.
pub open spec fn opt0(o: Option<u8>) -> u8 {
    match o {
        Some(v) => v,
        None => 0,
    }
}

/// Whether an opcode denotes a builtin instruction of the given form.
pub open spec fn opcode_builtin_of_type(op: Opcode, t: InstructionType) -> bool {
    match op.spec_builtin() {
        Some(b) => builtin_type(b) == t,
        None => false,
    }
}

/// A 12-bit signed immediate, stored sign extended.
pub open spec fn wf_imm12(c: u32) -> bool {
    c < 0x800 || c >= 0xFFFFF800
}

/// A 13-bit signed, even branch offset, stored sign extended.
pub open spec fn wf_imm13(c: u32) -> bool {
    (c < 0x1000 || c >= 0xFFFFF000) && c % 2 == 0
}

/// A 21-bit signed, even jump offset, stored sign extended.
pub open spec fn wf_imm21(c: u32) -> bool {
    (c < 0x100000 || c >= 0xFFF00000) && c % 2 == 0
}

/// An instruction the encoder supports: a builtin (or custom R-type) opcode
/// in the form that matches its encoding type, with every field in range.
pub open spec fn wf_instruction(i: Instruction) -> bool {
    i.op_a < 32 && i.op_b < 32 && match i.ins_type {
        InstructionType::RType => i.op_c < 32 && (opcode_builtin_of_type(
            i.opcode,
            InstructionType::RType,
        ) || (i.opcode.raw == DYNAMIC_RTYPE_OPCODE && (match i.opcode.fn3 {
            Some(v) => v < 8,
            None => false,
        }) && (match i.opcode.fn7 {
            Some(v) => v < 128,
            None => false,
        }))),
        InstructionType::IType => opcode_builtin_of_type(i.opcode, InstructionType::IType) && (
        if i.opcode.raw == 0x73 {
            i.op_a == 0 && i.op_b == 0 && i.op_c == opt0(i.opcode.fn7)
        } else {
            wf_imm12(i.op_c)
        }),
        InstructionType::ITypeShamt => opcode_builtin_of_type(
            i.opcode,
            InstructionType::ITypeShamt,
        ) && i.op_c < 32,
        InstructionType::SType => opcode_builtin_of_type(i.opcode, InstructionType::SType)
            && wf_imm12(i.op_c),
        InstructionType::BType => opcode_builtin_of_type(i.opcode, InstructionType::BType)
            && wf_imm13(i.op_c),
        InstructionType::UType => opcode_builtin_of_type(i.opcode, InstructionType::UType)
            && i.op_c < 0x100000 && i.op_b == 0,
        InstructionType::JType => opcode_builtin_of_type(i.opcode, InstructionType::JType)
            && wf_imm21(i.op_c) && i.op_b == 0,
        InstructionType::Unimpl => i == Instruction::unimpl_spec(),
    }
}

/// The raw word an instruction encodes to, by its form.
pub open spec fn spec_encode(i: Instruction) -> u32 {
    let raw = i.opcode.raw as u32;
    let f3 = opt0(i.opcode.fn3) as u32;
    let f7 = opt0(i.opcode.fn7) as u32;
    let a = i.op_a as u32;
    let b = i.op_b as u32;
    let c = i.op_c;
    match i.ins_type {
        InstructionType::RType => raw | (a << 7) | (f3 << 12) | (b << 15) | ((c & 0x1F) << 20) | (
        f7 << 25),
        InstructionType::ITypeShamt => raw | (a << 7) | (f3 << 12) | (b << 15) | ((c & 0x1F) << 20)
            | (f7 << 25),
        InstructionType::IType => raw | (a << 7) | (f3 << 12) | (b << 15) | ((c & 0xFFF) << 20),
        InstructionType::SType => raw | ((c & 0x1F) << 7) | (f3 << 12) | (b << 15) | (a << 20) | ((
        (c >> 5) & 0x7F) << 25),
        InstructionType::BType => raw | (((c >> 11) & 1) << 7) | (((c >> 1) & 0xF) << 8) | (f3
            << 12) | (a << 15) | (b << 20) | (((c >> 5) & 0x3F) << 25) | (((c >> 12) & 1) << 31),
        InstructionType::UType => raw | (a << 7) | ((c & 0xFFFFF) << 12),
        InstructionType::JType => raw | (a << 7) | (((c >> 12) & 0xFF) << 12) | (((c >> 11) & 1)
            << 20) | (((c >> 1) & 0x3FF) << 21) | (((c >> 20) & 1) << 31),
        InstructionType::Unimpl => 0,
    }
}

/// The value of an optional encoding field, absent standing for zero.
fn opt0_exec(o: Option<u8>) -> (r: u8)
    ensures
        r == opt0(o),
{
    match o {
        Some(v) => v,
        None => 0,
    }
}

impl Instruction {
    /// Encodes the instruction back into its raw 32-bit word.
    pub fn encode(&self) -> (r: u32)
        requires
            wf_instruction(*self),
        ensures
            r == spec_encode(*self),
    {
        let raw = self.opcode.raw as u32;
        let f3 = opt0_exec(self.opcode.fn3) as u32;
        let f7 = opt0_exec(self.opcode.fn7) as u32;
        let a = self.op_a as u32;
        let b = self.op_b as u32;
        let c = self.op_c;
        match self.ins_type {
            InstructionType::RType => raw | (a << 7) | (f3 << 12) | (b << 15) | ((c & 0x1F) << 20)
                | (f7 << 25),
            InstructionType::ITypeShamt => raw | (a << 7) | (f3 << 12) | (b << 15) | ((c & 0x1F)
                << 20) | (f7 << 25),
            InstructionType::IType => raw | (a << 7) | (f3 << 12) | (b << 15) | ((c & 0xFFF)
                << 20),
            InstructionType::SType => raw | ((c & 0x1F) << 7) | (f3 << 12) | (b << 15) | (a << 20)
                | (((c >> 5) & 0x7F) << 25),
            InstructionType::BType => raw | (((c >> 11) & 1) << 7) | (((c >> 1) & 0xF) << 8) | (f3
                << 12) | (a << 15) | (b << 20) | (((c >> 5) & 0x3F) << 25) | (((c >> 12) & 1)
                << 31),
            InstructionType::UType => raw | (a << 7) | ((c & 0xFFFFF) << 12),
            InstructionType::JType => raw | (a << 7) | (((c >> 12) & 0xFF) << 12) | (((c >> 11) & 1)
                << 20) | (((c >> 1) & 0x3FF) << 21) | (((c >> 20) & 1) << 31),
            InstructionType::Unimpl => 0,
        }
    }
}

} // verus!

verus! {

proof fn lemma_bv_fields_r(raw: u8, rd: u8, f3: u8, rs1: u8, imm: u32, f7: u8, w: u32)
    by (bit_vector)
    requires
        raw < 128,
        rd < 32,
        f3 < 8,
        rs1 < 32,
        imm < 32,
        f7 < 128,
        w == (raw as u32) | ((rd as u32) << 7) | ((f3 as u32) << 12) | ((rs1 as u32) << 15) | ((imm
            & 0x1F) << 20) | ((f7 as u32) << 25),
    ensures
        (w & 0x7F) as u8 == raw,
        ((w & 0xF80) >> 7) as u8 == rd,
        ((w & 0x7000) >> 12) as u8 == f3,
        ((w & 0x000F8000) >> 15) as u8 == rs1,
        (((w & 0x01F00000) >> 20) as u8) as u32 == imm,
        ((w & 0xFE000000) >> 25) as u8 == f7,
{
}

proof fn lemma_bv_fields_i(raw: u8, rd: u8, f3: u8, rs1: u8, imm: u32, w: u32)
    by (bit_vector)
    requires
        raw < 128,
        rd < 32,
        f3 < 8,
        rs1 < 32,
        imm < 0x800 || imm >= 0xFFFFF800,
        w == (raw as u32) | ((rd as u32) << 7) | ((f3 as u32) << 12) | ((rs1 as u32) << 15) | ((imm
            & 0xFFF) << 20),
    ensures
        (w & 0x7F) as u8 == raw,
        ((w & 0xF80) >> 7) as u8 == rd,
        ((w & 0x7000) >> 12) as u8 == f3,
        ((w & 0x000F8000) >> 15) as u8 == rs1,
        ((w & 0xFE000000) >> 25) as u8 == ((imm >> 5) & 0x7F) as u8,
        sext12(w >> 20) == imm,
{
}

proof fn lemma_bv_fields_s(raw: u8, f3: u8, rs1: u8, rs2: u8, imm: u32, w: u32)
    by (bit_vector)
    requires
        raw < 128,
        f3 < 8,
        rs1 < 32,
        rs2 < 32,
        imm < 0x800 || imm >= 0xFFFFF800,
        w == (raw as u32) | ((imm & 0x1F) << 7) | ((f3 as u32) << 12) | ((rs1 as u32) << 15) | ((
        rs2 as u32) << 20) | (((imm >> 5) & 0x7F) << 25),
    ensures
        (w & 0x7F) as u8 == raw,
        ((w & 0x7000) >> 12) as u8 == f3,
        ((w & 0x000F8000) >> 15) as u8 == rs1,
        ((w & 0x01F00000) >> 20) as u8 == rs2,
        sext12(((w >> 25) << 5) | ((w >> 7) & 0x1F)) == imm,
{
}

proof fn lemma_bv_fields_b(raw: u8, f3: u8, rs1: u8, rs2: u8, imm: u32, w: u32)
    by (bit_vector)
    requires
        raw < 128,
        f3 < 8,
        rs1 < 32,
        rs2 < 32,
        imm < 0x1000 || imm >= 0xFFFFF000,
        imm % 2 == 0,
        w == (raw as u32) | (((imm >> 11) & 1) << 7) | (((imm >> 1) & 0xF) << 8) | ((f3 as u32)
            << 12) | ((rs1 as u32) << 15) | ((rs2 as u32) << 20) | (((imm >> 5) & 0x3F) << 25) | ((
        (imm >> 12) & 1) << 31),
    ensures
        (w & 0x7F) as u8 == raw,
        ((w & 0x7000) >> 12) as u8 == f3,
        ((w & 0x000F8000) >> 15) as u8 == rs1,
        ((w & 0x01F00000) >> 20) as u8 == rs2,
        sext13(
            (((w >> 31) & 1) << 12) | (((w >> 7) & 1) << 11) | (((w >> 25) & 0x3F) << 5) | (((w
                >> 8) & 0xF) << 1),
        ) == imm,
{
}

proof fn lemma_bv_fields_u(raw: u8, rd: u8, imm: u32, w: u32)
    by (bit_vector)
    requires
        raw < 128,
        rd < 32,
        imm < 0x100000,
        w == (raw as u32) | ((rd as u32) << 7) | ((imm & 0xFFFFF) << 12),
    ensures
        (w & 0x7F) as u8 == raw,
        ((w & 0xF80) >> 7) as u8 == rd,
        w >> 12 == imm,
{
}

proof fn lemma_bv_fields_j(raw: u8, rd: u8, imm: u32, w: u32)
    by (bit_vector)
    requires
        raw < 128,
        rd < 32,
        imm < 0x100000 || imm >= 0xFFF00000,
        imm % 2 == 0,
        w == (raw as u32) | ((rd as u32) << 7) | (((imm >> 12) & 0xFF) << 12) | (((imm >> 11) & 1)
            << 20) | (((imm >> 1) & 0x3FF) << 21) | (((imm >> 20) & 1) << 31),
    ensures
        (w & 0x7F) as u8 == raw,
        ((w & 0xF80) >> 7) as u8 == rd,
        sext21(
            (((w >> 31) & 1) << 20) | (((w >> 12) & 0xFF) << 12) | (((w >> 20) & 1) << 11) | (((w
                >> 21) & 0x3FF) << 1),
        ) == imm,
{
}

proof fn lemma_bv_fields_sys(imm: u32, w: u32)
    by (bit_vector)
    requires
        imm < 2,
        w == 0x73u32 | ((0u32) << 7) | ((0u32) << 12) | ((0u32) << 15) | ((imm & 0xFFF) << 20),
    ensures
        (w & 0x7F) as u8 == 0x73,
        ((w & 0xF80) >> 7) as u8 == 0,
        ((w & 0x7000) >> 12) as u8 == 0,
        ((w & 0x000F8000) >> 15) as u8 == 0,
        w >> 20 == imm,
{
}

proof fn lemma_bv_fields_zero()
    by (bit_vector)
    ensures
        (0u32 & 0x7F) as u8 == 0,
{
}

/// Round trip: decoding the encoding of any well-formed instruction gives
/// that instruction back, for every supported instruction form.
pub proof fn lemma_decode_encode_roundtrip(i: Instruction)
    requires
        wf_instruction(i),
    ensures
        spec_decode_dyn(spec_encode(i)) == i,
{
    let w = spec_encode(i);
    let raw = i.opcode.raw;
    let f3 = opt0(i.opcode.fn3);
    let f7 = opt0(i.opcode.fn7);
    match i.ins_type {
        InstructionType::RType => {
            lemma_bv_fields_r(raw, i.op_a, f3, i.op_b, i.op_c, f7, w);
        },
        InstructionType::ITypeShamt => {
            lemma_bv_fields_r(raw, i.op_a, f3, i.op_b, i.op_c, f7, w);
        },
        InstructionType::IType => {
            if raw == 0x73 {
                lemma_bv_fields_sys(i.op_c, w);
            } else {
                lemma_bv_fields_i(raw, i.op_a, f3, i.op_b, i.op_c, w);
            }
        },
        InstructionType::SType => {
            lemma_bv_fields_s(raw, f3, i.op_b, i.op_a, i.op_c, w);
        },
        InstructionType::BType => {
            lemma_bv_fields_b(raw, f3, i.op_a, i.op_b, i.op_c, w);
        },
        InstructionType::UType => {
            lemma_bv_fields_u(raw, i.op_a, i.op_c, w);
        },
        InstructionType::JType => {
            lemma_bv_fields_j(raw, i.op_a, i.op_c, w);
        },
        InstructionType::Unimpl => {
            lemma_bv_fields_zero();
        },
    }
}

} // verus!

verus! {

/// What block decoding yields: instructions decoded in order up to and
/// including the first branch or jump, or all of them when none branches.
pub open spec fn spec_block_decode(words: Seq<u32>) -> Seq<Instruction>
    decreases words.len(),
{
    if words.len() <= 0 {
        Seq::empty()
    } else {
        let i = spec_decode_dyn(words[0]);
        if i.spec_is_branch_or_jump() {
            seq![i]
        } else {
            seq![i] + spec_block_decode(words.skip(1))
        }
    }
}

/// Decodes words into one basic block: instructions in order up to and
/// including the first branch or jump. The custom R-type major opcode
/// becomes a dynamic instruction for the executor registry.
pub fn decode_until_end_of_a_block(u32_instructions: &Vec<u32>) -> (r: BasicBlock)
    ensures
        r@ == spec_block_decode(u32_instructions@),
{
    let mut insts: Vec<Instruction> = Vec::new();
    let mut i: usize = 0;
    let mut stop = false;
    let n = u32_instructions.len();
    proof {
        assert(u32_instructions@.skip(0) =~= u32_instructions@);
        assert(Seq::<Instruction>::empty() + spec_block_decode(u32_instructions@)
            =~= spec_block_decode(u32_instructions@));
    }
    while i < n && !stop
        invariant
            i <= n,
            n == u32_instructions@.len(),
            !stop ==> spec_block_decode(u32_instructions@) == insts@ + spec_block_decode(
                u32_instructions@.skip(i as int),
            ),
            stop ==> insts@ == spec_block_decode(u32_instructions@),
        decreases n - i,
    {
        let ghost pre = insts@;
        let w = u32_instructions[i];
        let decoded = decode_instruction(w);
        proof {
            assert(u32_instructions@.skip(i as int)[0] == u32_instructions@[i as int]);
            assert(u32_instructions@.skip(i as int).skip(1) =~= u32_instructions@.skip(
                i as int + 1,
            ));
        }
        let pc_changed = decoded.is_branch_or_jump_instruction();
        insts.push(decoded);
        proof {
            assert(pre.push(decoded) =~= pre + seq![decoded]);
        }
        if pc_changed {
            stop = true;
        }
        i = i + 1;
    }
    proof {
        if !stop {
            assert(u32_instructions@.skip(i as int) =~= Seq::<u32>::empty());
            assert(insts@ + Seq::<Instruction>::empty() =~= insts@);
        }
    }
    BasicBlock(insts)
}

/// Concatenation of a sequence of blocks, in order.
pub open spec fn concat_blocks(bs: Seq<Seq<Instruction>>) -> Seq<Instruction>
    decreases bs.len(),
{
    if bs.len() <= 0 {
        Seq::empty()
    } else {
        concat_blocks(bs.drop_last()) + bs.last()
    }
}

/// Decodes a whole program image into basic blocks with the standard
/// decoder: blocks partition the decoded instructions, every block is
/// nonempty, a branch or jump stands only last in a block, and every block
/// except possibly the final one ends with one.
pub fn decode_instructions(u32_instructions: &Vec<u32>) -> (r: BasicBlockProgram)
    ensures
        concat_blocks(r.blocks@.map_values(|b: BasicBlock| b@)) == u32_instructions@.map_values(
            |w: u32| spec_decode(w),
        ),
        forall|j: int| 0 <= j < r.blocks@.len() ==> r.blocks@[j]@.len() > 0,
        forall|j: int, k: int|
            0 <= j < r.blocks@.len() && 0 <= k < r.blocks@[j]@.len() - 1
                ==> !r.blocks@[j]@[k].spec_is_branch_or_jump(),
        forall|j: int|
            0 <= j < r.blocks@.len() - 1 ==> r.blocks@[j]@[r.blocks@[j]@.len()
                - 1].spec_is_branch_or_jump(),
{
    let mut blocks: Vec<BasicBlock> = Vec::new();
    let mut current: Vec<Instruction> = Vec::new();
    let mut start_new_block = true;
    let mut i: usize = 0;
    let n = u32_instructions.len();
    while i < n
        invariant
            i <= n,
            n == u32_instructions@.len(),
            concat_blocks(blocks@.map_values(|b: BasicBlock| b@)) + current@
                == u32_instructions@.subrange(0, i as int).map_values(|w: u32| spec_decode(w)),
            forall|j: int| 0 <= j < blocks@.len() ==> blocks@[j]@.len() > 0,
            forall|j: int, k: int|
                0 <= j < blocks@.len() && 0 <= k < blocks@[j]@.len() - 1
                    ==> !blocks@[j]@[k].spec_is_branch_or_jump(),
            forall|j: int|
                0 <= j < blocks@.len() ==> blocks@[j]@[blocks@[j]@.len()
                    - 1].spec_is_branch_or_jump(),
            forall|k: int| 0 <= k < current@.len() - 1 ==> !current@[k].spec_is_branch_or_jump(),
            current@.len() == 0 ==> start_new_block && i == 0 && blocks@.len() == 0,
            current@.len() > 0 ==> start_new_block == current@[current@.len()
                - 1].spec_is_branch_or_jump(),
        decreases n - i,
    {
        let w = u32_instructions[i];
        let decoded = decode_rv32(w);
        if start_new_block && current.len() > 0 {
            let ghost pre_blocks = blocks@;
            let ghost pre_current = current@;
            let done_block = current;
            current = Vec::new();
            blocks.push(BasicBlock(done_block));
            proof {
                let v = |b: BasicBlock| b@;
                assert(blocks@.map_values(v).drop_last() =~= pre_blocks.map_values(v));
                assert(blocks@.map_values(v).last() == pre_current);
                assert(concat_blocks(blocks@.map_values(v)) + current@ =~= concat_blocks(
                    pre_blocks.map_values(v),
                ) + pre_current);
            }
        }
        start_new_block = decoded.is_branch_or_jump_instruction();
        let ghost pre_cur = current@;
        current.push(decoded);
        i = i + 1;
        proof {
            let d = |w: u32| spec_decode(w);
            assert(u32_instructions@.subrange(0, i as int) =~= u32_instructions@.subrange(
                0,
                i as int - 1,
            ).push(u32_instructions@[i as int - 1]));
            assert(u32_instructions@.subrange(0, i as int).map_values(d)
                =~= u32_instructions@.subrange(0, i as int - 1).map_values(d).push(
                spec_decode(u32_instructions@[i as int - 1]),
            ));
            assert(concat_blocks(blocks@.map_values(|b: BasicBlock| b@)) + pre_cur.push(decoded)
                =~= (concat_blocks(blocks@.map_values(|b: BasicBlock| b@)) + pre_cur).push(
                decoded,
            ));
        }
    }
    if current.len() > 0 {
        let ghost pre_blocks = blocks@;
        let ghost pre_current = current@;
        blocks.push(BasicBlock(current));
        proof {
            let v = |b: BasicBlock| b@;
            assert(blocks@.map_values(v).drop_last() =~= pre_blocks.map_values(v));
            assert(blocks@.map_values(v).last() == pre_current);
        }
    }
    proof {
        assert(u32_instructions@.subrange(0, n as int) =~= u32_instructions@);
        if current@.len() == 0 {
            assert(concat_blocks(blocks@.map_values(|b: BasicBlock| b@)) + current@
                =~= concat_blocks(blocks@.map_values(|b: BasicBlock| b@)));
        }
    }
    BasicBlockProgram { blocks }
}

/// A block whose instructions the encoder all supports.
pub open spec fn wf_block(s: Seq<Instruction>) -> bool {
    forall|k: int| 0 <= k < s.len() ==> wf_instruction(s[k])
}

impl BasicBlock {
    /// Encodes the block's instructions back into raw words, in order.
    pub fn encode(&self) -> (r: Vec<u32>)
        requires
            wf_block(self@),
        ensures
            r@.len() == self@.len(),
            forall|k: int| 0 <= k < self@.len() ==> r@[k] == spec_encode(self@[k]),
    {
        let mut out: Vec<u32> = Vec::new();
        let mut i: usize = 0;
        while i < self.0.len()
            invariant
                i <= self.0.len(),
                wf_block(self.0@),
                out@.len() == i,
                forall|k: int| 0 <= k < i ==> out@[k] == spec_encode(self.0@[k]),
            decreases self.0.len() - i,
        {
            out.push(self.0[i].encode());
            i = i + 1;
        }
        out
    }
}

} // verus!
