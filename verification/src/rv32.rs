//! RV32 instruction data model: opcodes, decoded instructions and basic
//! blocks. A basic block is a maximal straight-line run of instructions that
//! ends at the first branch or jump.

use vstd::prelude::*;

verus! {

/// The base instructions this machine supports, plus `UNIMPL` for encodings
/// the decoder does not recognize.
#[derive(Clone, Copy, Debug, PartialEq, Eq, Hash, Structural)]
#[allow(clippy::upper_case_acronyms)]
pub enum BuiltinOpcode {
    ADD,
    SUB,
    SLL,
    SLT,
    SLTU,
    XOR,
    SRL,
    SRA,
    OR,
    AND,
    ADDI,
    SLTI,
    SLTIU,
    XORI,
    ORI,
    ANDI,
    SLLI,
    SRLI,
    SRAI,
    LB,
    LH,
    LW,
    LBU,
    LHU,
    SB,
    SH,
    SW,
    BEQ,
    BNE,
    BLT,
    BGE,
    BLTU,
    BGEU,
    LUI,
    AUIPC,
    JAL,
    JALR,
    ECALL,
    EBREAK,
    UNIMPL,
}

/// The encoding form of an instruction.
#[derive(Clone, Copy, Debug, PartialEq, Eq, Hash, Structural)]
pub enum InstructionType {
    RType,
    IType,
    ITypeShamt,
    SType,
    BType,
    UType,
    JType,
    Unimpl,
}

/// An opcode: the 7-bit major opcode together with the `funct3` and `funct7`
/// fields where the form has them. For `ECALL`/`EBREAK`, which share major
/// opcode and `funct3`, the low bits of the immediate stand in `fn7`.
#[derive(Clone, Copy, Debug, PartialEq, Eq, Hash)]
pub struct Opcode {
    pub raw: u8,
    pub fn3: Option<u8>,
    pub fn7: Option<u8>,
}

/// Major opcode of the late-bound custom R-type class.
pub const DYNAMIC_RTYPE_OPCODE: u8 = 0x0B;

/// `funct3` of the custom instruction that reads the public input segment.
pub const RIN_FN3: u8 = 1;
/// `funct3` of the custom instruction that writes the public output segment.
pub const WOU_FN3: u8 = 2;

/// The encoding fields of a builtin opcode.
pub open spec fn builtin_encoding(b: BuiltinOpcode) -> (u8, Option<u8>, Option<u8>) {
    match b {
        BuiltinOpcode::ADD => (0x33, Some(0), Some(0)),
        BuiltinOpcode::SUB => (0x33, Some(0), Some(0x20)),
        BuiltinOpcode::SLL => (0x33, Some(1), Some(0)),
        BuiltinOpcode::SLT => (0x33, Some(2), Some(0)),
        BuiltinOpcode::SLTU => (0x33, Some(3), Some(0)),
        BuiltinOpcode::XOR => (0x33, Some(4), Some(0)),
        BuiltinOpcode::SRL => (0x33, Some(5), Some(0)),
        BuiltinOpcode::SRA => (0x33, Some(5), Some(0x20)),
        BuiltinOpcode::OR => (0x33, Some(6), Some(0)),
        BuiltinOpcode::AND => (0x33, Some(7), Some(0)),
        BuiltinOpcode::ADDI => (0x13, Some(0), None),
        BuiltinOpcode::SLTI => (0x13, Some(2), None),
        BuiltinOpcode::SLTIU => (0x13, Some(3), None),
        BuiltinOpcode::XORI => (0x13, Some(4), None),
        BuiltinOpcode::ORI => (0x13, Some(6), None),
        BuiltinOpcode::ANDI => (0x13, Some(7), None),
        BuiltinOpcode::SLLI => (0x13, Some(1), Some(0)),
        BuiltinOpcode::SRLI => (0x13, Some(5), Some(0)),
        BuiltinOpcode::SRAI => (0x13, Some(5), Some(0x20)),
        BuiltinOpcode::LB => (0x03, Some(0), None),
        BuiltinOpcode::LH => (0x03, Some(1), None),
        BuiltinOpcode::LW => (0x03, Some(2), None),
        BuiltinOpcode::LBU => (0x03, Some(4), None),
        BuiltinOpcode::LHU => (0x03, Some(5), None),
        BuiltinOpcode::SB => (0x23, Some(0), None),
        BuiltinOpcode::SH => (0x23, Some(1), None),
        BuiltinOpcode::SW => (0x23, Some(2), None),
        BuiltinOpcode::BEQ => (0x63, Some(0), None),
        BuiltinOpcode::BNE => (0x63, Some(1), None),
        BuiltinOpcode::BLT => (0x63, Some(4), None),
        BuiltinOpcode::BGE => (0x63, Some(5), None),
        BuiltinOpcode::BLTU => (0x63, Some(6), None),
        BuiltinOpcode::BGEU => (0x63, Some(7), None),
        BuiltinOpcode::LUI => (0x37, None, None),
        BuiltinOpcode::AUIPC => (0x17, None, None),
        BuiltinOpcode::JAL => (0x6F, None, None),
        BuiltinOpcode::JALR => (0x67, Some(0), None),
        BuiltinOpcode::ECALL => (0x73, Some(0), Some(0)),
        BuiltinOpcode::EBREAK => (0x73, Some(0), Some(1)),
        BuiltinOpcode::UNIMPL => (0, None, None),
    }
}

/// The encoding form a builtin opcode uses.
pub open spec fn builtin_type(b: BuiltinOpcode) -> InstructionType {
    match b {
        BuiltinOpcode::ADD | BuiltinOpcode::SUB | BuiltinOpcode::SLL | BuiltinOpcode::SLT
        | BuiltinOpcode::SLTU | BuiltinOpcode::XOR | BuiltinOpcode::SRL | BuiltinOpcode::SRA
        | BuiltinOpcode::OR | BuiltinOpcode::AND => InstructionType::RType,
        BuiltinOpcode::ADDI | BuiltinOpcode::SLTI | BuiltinOpcode::SLTIU | BuiltinOpcode::XORI
        | BuiltinOpcode::ORI | BuiltinOpcode::ANDI | BuiltinOpcode::LB | BuiltinOpcode::LH
        | BuiltinOpcode::LW | BuiltinOpcode::LBU | BuiltinOpcode::LHU | BuiltinOpcode::JALR
        | BuiltinOpcode::ECALL | BuiltinOpcode::EBREAK => InstructionType::IType,
        BuiltinOpcode::SLLI | BuiltinOpcode::SRLI | BuiltinOpcode::SRAI
            => InstructionType::ITypeShamt,
        BuiltinOpcode::SB | BuiltinOpcode::SH | BuiltinOpcode::SW => InstructionType::SType,
        BuiltinOpcode::BEQ | BuiltinOpcode::BNE | BuiltinOpcode::BLT | BuiltinOpcode::BGE
        | BuiltinOpcode::BLTU | BuiltinOpcode::BGEU => InstructionType::BType,
        BuiltinOpcode::LUI | BuiltinOpcode::AUIPC => InstructionType::UType,
        BuiltinOpcode::JAL => InstructionType::JType,
        BuiltinOpcode::UNIMPL => InstructionType::Unimpl,
    }
}

impl Opcode {
    /// The opcode value of a builtin opcode.
    pub open spec fn of_builtin(b: BuiltinOpcode) -> Opcode {
        Opcode {
            raw: builtin_encoding(b).0,
            fn3: builtin_encoding(b).1,
            fn7: builtin_encoding(b).2,
        }
    }

    /// The builtin opcode this opcode denotes, if any.
    pub open spec fn spec_builtin(self) -> Option<BuiltinOpcode> {
        if self == Opcode::of_builtin(BuiltinOpcode::ADD) { Some(BuiltinOpcode::ADD) }
        else if self == Opcode::of_builtin(BuiltinOpcode::SUB) { Some(BuiltinOpcode::SUB) }
        else if self == Opcode::of_builtin(BuiltinOpcode::SLL) { Some(BuiltinOpcode::SLL) }
        else if self == Opcode::of_builtin(BuiltinOpcode::SLT) { Some(BuiltinOpcode::SLT) }
        else if self == Opcode::of_builtin(BuiltinOpcode::SLTU) { Some(BuiltinOpcode::SLTU) }
        else if self == Opcode::of_builtin(BuiltinOpcode::XOR) { Some(BuiltinOpcode::XOR) }
        else if self == Opcode::of_builtin(BuiltinOpcode::SRL) { Some(BuiltinOpcode::SRL) }
        else if self == Opcode::of_builtin(BuiltinOpcode::SRA) { Some(BuiltinOpcode::SRA) }
        else if self == Opcode::of_builtin(BuiltinOpcode::OR) { Some(BuiltinOpcode::OR) }
        else if self == Opcode::of_builtin(BuiltinOpcode::AND) { Some(BuiltinOpcode::AND) }
        else if self == Opcode::of_builtin(BuiltinOpcode::ADDI) { Some(BuiltinOpcode::ADDI) }
        else if self == Opcode::of_builtin(BuiltinOpcode::SLTI) { Some(BuiltinOpcode::SLTI) }
        else if self == Opcode::of_builtin(BuiltinOpcode::SLTIU) { Some(BuiltinOpcode::SLTIU) }
        else if self == Opcode::of_builtin(BuiltinOpcode::XORI) { Some(BuiltinOpcode::XORI) }
        else if self == Opcode::of_builtin(BuiltinOpcode::ORI) { Some(BuiltinOpcode::ORI) }
        else if self == Opcode::of_builtin(BuiltinOpcode::ANDI) { Some(BuiltinOpcode::ANDI) }
        else if self == Opcode::of_builtin(BuiltinOpcode::SLLI) { Some(BuiltinOpcode::SLLI) }
        else if self == Opcode::of_builtin(BuiltinOpcode::SRLI) { Some(BuiltinOpcode::SRLI) }
        else if self == Opcode::of_builtin(BuiltinOpcode::SRAI) { Some(BuiltinOpcode::SRAI) }
        else if self == Opcode::of_builtin(BuiltinOpcode::LB) { Some(BuiltinOpcode::LB) }
        else if self == Opcode::of_builtin(BuiltinOpcode::LH) { Some(BuiltinOpcode::LH) }
        else if self == Opcode::of_builtin(BuiltinOpcode::LW) { Some(BuiltinOpcode::LW) }
        else if self == Opcode::of_builtin(BuiltinOpcode::LBU) { Some(BuiltinOpcode::LBU) }
        else if self == Opcode::of_builtin(BuiltinOpcode::LHU) { Some(BuiltinOpcode::LHU) }
        else if self == Opcode::of_builtin(BuiltinOpcode::SB) { Some(BuiltinOpcode::SB) }
        else if self == Opcode::of_builtin(BuiltinOpcode::SH) { Some(BuiltinOpcode::SH) }
        else if self == Opcode::of_builtin(BuiltinOpcode::SW) { Some(BuiltinOpcode::SW) }
        else if self == Opcode::of_builtin(BuiltinOpcode::BEQ) { Some(BuiltinOpcode::BEQ) }
        else if self == Opcode::of_builtin(BuiltinOpcode::BNE) { Some(BuiltinOpcode::BNE) }
        else if self == Opcode::of_builtin(BuiltinOpcode::BLT) { Some(BuiltinOpcode::BLT) }
        else if self == Opcode::of_builtin(BuiltinOpcode::BGE) { Some(BuiltinOpcode::BGE) }
        else if self == Opcode::of_builtin(BuiltinOpcode::BLTU) { Some(BuiltinOpcode::BLTU) }
        else if self == Opcode::of_builtin(BuiltinOpcode::BGEU) { Some(BuiltinOpcode::BGEU) }
        else if self == Opcode::of_builtin(BuiltinOpcode::LUI) { Some(BuiltinOpcode::LUI) }
        else if self == Opcode::of_builtin(BuiltinOpcode::AUIPC) { Some(BuiltinOpcode::AUIPC) }
        else if self == Opcode::of_builtin(BuiltinOpcode::JAL) { Some(BuiltinOpcode::JAL) }
        else if self == Opcode::of_builtin(BuiltinOpcode::JALR) { Some(BuiltinOpcode::JALR) }
        else if self == Opcode::of_builtin(BuiltinOpcode::ECALL) { Some(BuiltinOpcode::ECALL) }
        else if self == Opcode::of_builtin(BuiltinOpcode::EBREAK) { Some(BuiltinOpcode::EBREAK) }
        else if self == Opcode::of_builtin(BuiltinOpcode::UNIMPL) { Some(BuiltinOpcode::UNIMPL) }
        else { None }
    }

    /// Builds an opcode from its raw fields.
    pub fn new(raw: u8, fn3: Option<u8>, fn7: Option<u8>) -> (r: Opcode)
        ensures
            r == (Opcode { raw, fn3, fn7 }),
    {
        Opcode { raw, fn3, fn7 }
    }

    /// The builtin opcode this opcode denotes, if any.
    pub fn builtin(&self) -> (r: Option<BuiltinOpcode>)
        ensures
            r == self.spec_builtin(),
    {
        if let Some(v) = self.fn3 {
            if v == 255 {
                return None;
            }
        }
        if let Some(v) = self.fn7 {
            if v == 255 {
                return None;
            }
        }
        let fn3 = opt_or_255(self.fn3);
        let fn7 = opt_or_255(self.fn7);
        match (self.raw, fn3, fn7) {
            (0x33, 0, 0) => Some(BuiltinOpcode::ADD),
            (0x33, 0, 0x20) => Some(BuiltinOpcode::SUB),
            (0x33, 1, 0) => Some(BuiltinOpcode::SLL),
            (0x33, 2, 0) => Some(BuiltinOpcode::SLT),
            (0x33, 3, 0) => Some(BuiltinOpcode::SLTU),
            (0x33, 4, 0) => Some(BuiltinOpcode::XOR),
            (0x33, 5, 0) => Some(BuiltinOpcode::SRL),
            (0x33, 5, 0x20) => Some(BuiltinOpcode::SRA),
            (0x33, 6, 0) => Some(BuiltinOpcode::OR),
            (0x33, 7, 0) => Some(BuiltinOpcode::AND),
            (0x13, 0, 255) => Some(BuiltinOpcode::ADDI),
            (0x13, 2, 255) => Some(BuiltinOpcode::SLTI),
            (0x13, 3, 255) => Some(BuiltinOpcode::SLTIU),
            (0x13, 4, 255) => Some(BuiltinOpcode::XORI),
            (0x13, 6, 255) => Some(BuiltinOpcode::ORI),
            (0x13, 7, 255) => Some(BuiltinOpcode::ANDI),
            (0x13, 1, 0) => Some(BuiltinOpcode::SLLI),
            (0x13, 5, 0) => Some(BuiltinOpcode::SRLI),
            (0x13, 5, 0x20) => Some(BuiltinOpcode::SRAI),
            (0x03, 0, 255) => Some(BuiltinOpcode::LB),
            (0x03, 1, 255) => Some(BuiltinOpcode::LH),
            (0x03, 2, 255) => Some(BuiltinOpcode::LW),
            (0x03, 4, 255) => Some(BuiltinOpcode::LBU),
            (0x03, 5, 255) => Some(BuiltinOpcode::LHU),
            (0x23, 0, 255) => Some(BuiltinOpcode::SB),
            (0x23, 1, 255) => Some(BuiltinOpcode::SH),
            (0x23, 2, 255) => Some(BuiltinOpcode::SW),
            (0x63, 0, 255) => Some(BuiltinOpcode::BEQ),
            (0x63, 1, 255) => Some(BuiltinOpcode::BNE),
            (0x63, 4, 255) => Some(BuiltinOpcode::BLT),
            (0x63, 5, 255) => Some(BuiltinOpcode::BGE),
            (0x63, 6, 255) => Some(BuiltinOpcode::BLTU),
            (0x63, 7, 255) => Some(BuiltinOpcode::BGEU),
            (0x37, 255, 255) => Some(BuiltinOpcode::LUI),
            (0x17, 255, 255) => Some(BuiltinOpcode::AUIPC),
            (0x6F, 255, 255) => Some(BuiltinOpcode::JAL),
            (0x67, 0, 255) => Some(BuiltinOpcode::JALR),
            (0x73, 0, 0) => Some(BuiltinOpcode::ECALL),
            (0x73, 0, 1) => Some(BuiltinOpcode::EBREAK),
            (0, 255, 255) => Some(BuiltinOpcode::UNIMPL),
            _ => None,
        }
    }

    /// Whether this opcode is a given builtin one.
    pub fn is_builtin(&self, b: BuiltinOpcode) -> (r: bool)
        ensures
            r == (*self == Opcode::of_builtin(b)),
    {
        let enc = builtin_fields(b);
        self.raw == enc.0 && opt_or_255(self.fn3) == opt_or_255(enc.1) && opt_or_255(
            self.fn7,
        ) == opt_or_255(enc.2) && !(self.fn3.is_none() && enc.1.is_some()) && !(self.fn3.is_some()
            && enc.1.is_none()) && !(self.fn7.is_none() && enc.2.is_some()) && !(self.fn7.is_some()
            && enc.2.is_none())
    }
}

/// The value of an optional field, with 255 standing for absent. 255 never
/// occurs as a real field value: `funct3` has 3 bits and `funct7` has 7.
pub fn opt_or_255(o: Option<u8>) -> (r: u8)
    ensures
        r == (match o {
            Some(v) => v,
            None => 255u8,
        }),
{
    match o {
        Some(v) => v,
        None => 255,
    }
}

/// The encoding fields of a builtin opcode.
pub fn builtin_fields(b: BuiltinOpcode) -> (r: (u8, Option<u8>, Option<u8>))
    ensures
        r == builtin_encoding(b),
{
    match b {
        BuiltinOpcode::ADD => (0x33, Some(0), Some(0)),
        BuiltinOpcode::SUB => (0x33, Some(0), Some(0x20)),
        BuiltinOpcode::SLL => (0x33, Some(1), Some(0)),
        BuiltinOpcode::SLT => (0x33, Some(2), Some(0)),
        BuiltinOpcode::SLTU => (0x33, Some(3), Some(0)),
        BuiltinOpcode::XOR => (0x33, Some(4), Some(0)),
        BuiltinOpcode::SRL => (0x33, Some(5), Some(0)),
        BuiltinOpcode::SRA => (0x33, Some(5), Some(0x20)),
        BuiltinOpcode::OR => (0x33, Some(6), Some(0)),
        BuiltinOpcode::AND => (0x33, Some(7), Some(0)),
        BuiltinOpcode::ADDI => (0x13, Some(0), None),
        BuiltinOpcode::SLTI => (0x13, Some(2), None),
        BuiltinOpcode::SLTIU => (0x13, Some(3), None),
        BuiltinOpcode::XORI => (0x13, Some(4), None),
        BuiltinOpcode::ORI => (0x13, Some(6), None),
        BuiltinOpcode::ANDI => (0x13, Some(7), None),
        BuiltinOpcode::SLLI => (0x13, Some(1), Some(0)),
        BuiltinOpcode::SRLI => (0x13, Some(5), Some(0)),
        BuiltinOpcode::SRAI => (0x13, Some(5), Some(0x20)),
        BuiltinOpcode::LB => (0x03, Some(0), None),
        BuiltinOpcode::LH => (0x03, Some(1), None),
        BuiltinOpcode::LW => (0x03, Some(2), None),
        BuiltinOpcode::LBU => (0x03, Some(4), None),
        BuiltinOpcode::LHU => (0x03, Some(5), None),
        BuiltinOpcode::SB => (0x23, Some(0), None),
        BuiltinOpcode::SH => (0x23, Some(1), None),
        BuiltinOpcode::SW => (0x23, Some(2), None),
        BuiltinOpcode::BEQ => (0x63, Some(0), None),
        BuiltinOpcode::BNE => (0x63, Some(1), None),
        BuiltinOpcode::BLT => (0x63, Some(4), None),
        BuiltinOpcode::BGE => (0x63, Some(5), None),
        BuiltinOpcode::BLTU => (0x63, Some(6), None),
        BuiltinOpcode::BGEU => (0x63, Some(7), None),
        BuiltinOpcode::LUI => (0x37, None, None),
        BuiltinOpcode::AUIPC => (0x17, None, None),
        BuiltinOpcode::JAL => (0x6F, None, None),
        BuiltinOpcode::JALR => (0x67, Some(0), None),
        BuiltinOpcode::ECALL => (0x73, Some(0), Some(0)),
        BuiltinOpcode::EBREAK => (0x73, Some(0), Some(1)),
        BuiltinOpcode::UNIMPL => (0, None, None),
    }
}

/// Builds the opcode value of a builtin opcode.
pub fn opcode_from_builtin(b: BuiltinOpcode) -> (r: Opcode)
    ensures
        r == Opcode::of_builtin(b),
{
    let enc = builtin_fields(b);
    Opcode { raw: enc.0, fn3: enc.1, fn7: enc.2 }
}

impl From<BuiltinOpcode> for Opcode {
    fn from(b: BuiltinOpcode) -> (r: Opcode) {
        opcode_from_builtin(b)
    }
}

impl vstd::std_specs::convert::FromSpecImpl<BuiltinOpcode> for Opcode {
    open spec fn obeys_from_spec() -> bool {
        true
    }

    open spec fn from_spec(b: BuiltinOpcode) -> Opcode {
        Opcode::of_builtin(b)
    }
}

/// A decoded instruction. `op_a` is the destination register, except for
/// branches and stores, where it is the first source; `op_b` is a source
/// register; `op_c` is the second source register number for R-type forms and
/// the immediate (two's complement, stored as `u32`) otherwise.
#[derive(Clone, Copy, Debug, PartialEq, Eq, Hash)]
pub struct Instruction {
    pub opcode: Opcode,
    pub op_a: u8,
    pub op_b: u8,
    pub op_c: u32,
    pub ins_type: InstructionType,
}

impl Instruction {
    /// Builds an instruction from its fields.
    pub fn new(opcode: Opcode, op_a: u8, op_b: u8, op_c: u32, ins_type: InstructionType) -> (r:
        Instruction)
        ensures
            r == (Instruction { opcode, op_a, op_b, op_c, ins_type }),
    {
        Instruction { opcode, op_a, op_b, op_c, ins_type }
    }

    /// Builds an instruction, taking the encoding form from the opcode.
    pub fn new_ir(opcode: Opcode, op_a: u8, op_b: u8, op_c: u32) -> (r: Instruction)
        ensures
            r.opcode == opcode,
            r.op_a == op_a,
            r.op_b == op_b,
            r.op_c == op_c,
            r.ins_type == (match opcode.spec_builtin() {
                Some(b) => builtin_type(b),
                None => InstructionType::RType,
            }),
    {
        let ins_type = match opcode.builtin() {
            Some(b) => builtin_type_of(b),
            None => InstructionType::RType,
        };
        Instruction { opcode, op_a, op_b, op_c, ins_type }
    }

    /// The placeholder for an unrecognized encoding; executing it raises
    /// an undefined-instruction error.
    pub fn unimpl() -> (r: Instruction)
        ensures
            r == Instruction::unimpl_spec(),
    {
        Instruction {
            opcode: Opcode { raw: 0, fn3: None, fn7: None },
            op_a: 0,
            op_b: 0,
            op_c: 0,
            ins_type: InstructionType::Unimpl,
        }
    }

    /// The placeholder for an unrecognized encoding.
    pub open spec fn unimpl_spec() -> Instruction {
        Instruction {
            opcode: Opcode { raw: 0, fn3: None, fn7: None },
            op_a: 0,
            op_b: 0,
            op_c: 0,
            ins_type: InstructionType::Unimpl,
        }
    }

    /// Whether this instruction ends a basic block.
    pub open spec fn spec_is_branch_or_jump(self) -> bool {
        self.opcode.raw == 0x63 || self.opcode.raw == 0x6F || self.opcode.raw == 0x67
    }

    /// Whether this instruction ends a basic block: any branch or jump.
    pub fn is_branch_or_jump_instruction(&self) -> (r: bool)
        ensures
            r == self.spec_is_branch_or_jump(),
    {
        self.opcode.raw == 0x63 || self.opcode.raw == 0x6F || self.opcode.raw == 0x67
    }

    /// Whether this instruction is a system instruction.
    pub open spec fn spec_is_system(self) -> bool {
        self.opcode.raw == 0x73
    }

    /// Whether this instruction is a system instruction (`ECALL`/`EBREAK`).
    pub fn is_system_instruction(&self) -> (r: bool)
        ensures
            r == self.spec_is_system(),
    {
        self.opcode.raw == 0x73
    }
}

/// The encoding form a builtin opcode uses.
pub fn builtin_type_of(b: BuiltinOpcode) -> (r: InstructionType)
    ensures
        r == builtin_type(b),
{
    match b {
        BuiltinOpcode::ADD | BuiltinOpcode::SUB | BuiltinOpcode::SLL | BuiltinOpcode::SLT
        | BuiltinOpcode::SLTU | BuiltinOpcode::XOR | BuiltinOpcode::SRL | BuiltinOpcode::SRA
        | BuiltinOpcode::OR | BuiltinOpcode::AND => InstructionType::RType,
        BuiltinOpcode::ADDI | BuiltinOpcode::SLTI | BuiltinOpcode::SLTIU | BuiltinOpcode::XORI
        | BuiltinOpcode::ORI | BuiltinOpcode::ANDI | BuiltinOpcode::LB | BuiltinOpcode::LH
        | BuiltinOpcode::LW | BuiltinOpcode::LBU | BuiltinOpcode::LHU | BuiltinOpcode::JALR
        | BuiltinOpcode::ECALL | BuiltinOpcode::EBREAK => InstructionType::IType,
        BuiltinOpcode::SLLI | BuiltinOpcode::SRLI | BuiltinOpcode::SRAI
            => InstructionType::ITypeShamt,
        BuiltinOpcode::SB | BuiltinOpcode::SH | BuiltinOpcode::SW => InstructionType::SType,
        BuiltinOpcode::BEQ | BuiltinOpcode::BNE | BuiltinOpcode::BLT | BuiltinOpcode::BGE
        | BuiltinOpcode::BLTU | BuiltinOpcode::BGEU => InstructionType::BType,
        BuiltinOpcode::LUI | BuiltinOpcode::AUIPC => InstructionType::UType,
        BuiltinOpcode::JAL => InstructionType::JType,
        BuiltinOpcode::UNIMPL => InstructionType::Unimpl,
    }
}

/// A basic block: straight-line instructions ending at the first branch or
/// jump, inclusive.
#[derive(Debug, PartialEq, Eq)]
pub struct BasicBlock(pub Vec<Instruction>);

impl View for BasicBlock {
    type V = Seq<Instruction>;

    open spec fn view(&self) -> Seq<Instruction> {
        self.0@
    }
}

impl BasicBlock {
    /// Builds a block from its instructions.
    pub fn new(instructions: Vec<Instruction>) -> (r: BasicBlock)
        ensures
            r@ == instructions@,
    {
        BasicBlock(instructions)
    }

    /// Whether the block holds no instruction.
    pub fn is_empty(&self) -> (r: bool)
        ensures
            r == (self@.len() == 0),
    {
        self.0.len() == 0
    }

    /// The number of instructions in the block.
    pub fn len(&self) -> (r: usize)
        ensures
            r == self@.len(),
    {
        self.0.len()
    }

    /// A copy of the block with the same instructions.
    pub fn duplicate(&self) -> (r: BasicBlock)
        ensures
            r@ == self@,
    {
        let mut v: Vec<Instruction> = Vec::new();
        let mut i: usize = 0;
        while i < self.0.len()
            invariant
                i <= self.0.len(),
                v@ == self.0@.subrange(0, i as int),
            decreases self.0.len() - i,
        {
            v.push(self.0[i]);
            i = i + 1;
        }
        proof {
            assert(v@ =~= self.0@);
        }
        BasicBlock(v)
    }
}

/// A whole program held as basic blocks.
#[derive(Debug, Default)]
pub struct BasicBlockProgram {
    pub blocks: Vec<BasicBlock>,
}

} // verus!
