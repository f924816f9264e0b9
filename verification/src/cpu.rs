//! CPU state: the 32-register file with `x0` hard-wired to zero, the program
//! counter, and the arithmetic every instruction reduces to. All word
//! arithmetic is modulo `2^32`.

use vstd::prelude::*;

verus! {

/// Wrapping 32-bit addition.
pub open spec fn spec_add32(a: u32, b: u32) -> u32 {
    if a + b <= 0xFFFF_FFFF {
        (a + b) as u32
    } else {
        (a + b - 0x1_0000_0000) as u32
    }
}

/// Wrapping 32-bit subtraction.
pub open spec fn spec_sub32(a: u32, b: u32) -> u32 {
    if a >= b {
        (a - b) as u32
    } else {
        (a + 0x1_0000_0000 - b) as u32
    }
}

/// The signed value a word denotes in two's complement.
pub open spec fn spec_signed(a: u32) -> int {
    if a >= 0x8000_0000 {
        a - 0x1_0000_0000
    } else {
        a as int
    }
}

/// Wrapping 32-bit addition.
pub fn add32(a: u32, b: u32) -> (r: u32)
    ensures
        r == spec_add32(a, b),
{
    let s: u64 = a as u64 + b as u64;
    if s <= 0xFFFF_FFFF {
        s as u32
    } else {
        (s - 0x1_0000_0000) as u32
    }
}

/// Wrapping 32-bit subtraction.
pub fn sub32(a: u32, b: u32) -> (r: u32)
    ensures
        r == spec_sub32(a, b),
{
    if a >= b {
        a - b
    } else {
        (a as u64 + 0x1_0000_0000 - b as u64) as u32
    }
}

/// Signed less-than on words.
pub fn slt32(a: u32, b: u32) -> (r: bool)
    ensures
        r == (spec_signed(a) < spec_signed(b)),
{
    let sa = a >= 0x8000_0000;
    let sb = b >= 0x8000_0000;
    if sa != sb {
        sa
    } else {
        a < b
    }
}

/// Logical left shift by the low five bits of the shift amount.
pub open spec fn spec_sll32(a: u32, sh: u32) -> u32 {
    a << (sh & 0x1F)
}

/// Logical right shift by the low five bits of the shift amount.
pub open spec fn spec_srl32(a: u32, sh: u32) -> u32 {
    a >> (sh & 0x1F)
}

/// Arithmetic right shift by the low five bits of the shift amount.
pub open spec fn spec_sra32(a: u32, sh: u32) -> u32 {
    if a >= 0x8000_0000 && (sh & 0x1F) != 0 {
        (a >> (sh & 0x1F)) | (0xFFFF_FFFFu32 << (32 - (sh & 0x1F)))
    } else {
        a >> (sh & 0x1F)
    }
}

/// Logical left shift by the low five bits of the shift amount.
pub fn sll32(a: u32, sh: u32) -> (r: u32)
    ensures
        r == spec_sll32(a, sh),
{
    proof {
        assert(sh & 0x1F < 32) by (bit_vector);
    }
    a << (sh & 0x1F)
}

/// Logical right shift by the low five bits of the shift amount.
pub fn srl32(a: u32, sh: u32) -> (r: u32)
    ensures
        r == spec_srl32(a, sh),
{
    proof {
        assert(sh & 0x1F < 32) by (bit_vector);
    }
    a >> (sh & 0x1F)
}

/// Arithmetic right shift by the low five bits of the shift amount.
pub fn sra32(a: u32, sh: u32) -> (r: u32)
    ensures
        r == spec_sra32(a, sh),
{
    let s = sh & 0x1F;
    proof {
        assert(sh & 0x1F < 32) by (bit_vector);
    }
    if a >= 0x8000_0000 && s != 0 {
        (a >> s) | (0xFFFF_FFFFu32 << (32 - s))
    } else {
        a >> s
    }
}

/// The register file: 32 words, with `x0` pinned to zero.
#[derive(Debug, PartialEq, Eq)]
pub struct RegisterFile {
    pub regs: Vec<u32>,
}

impl RegisterFile {
    /// 32 registers with register zero always zero.
    pub open spec fn wf(self) -> bool {
        self.regs@.len() == 32 && self.regs@[0] == 0
    }

    /// The value of a register.
    pub open spec fn spec_read(self, r: u8) -> u32 {
        self.regs@[r as int]
    }

    /// All registers zeroed.
    pub fn new() -> (r: RegisterFile)
        ensures
            r.wf(),
            forall|k: u8| k < 32 ==> r.spec_read(k) == 0,
    {
        let mut regs: Vec<u32> = Vec::new();
        let mut i: usize = 0;
        while i < 32
            invariant
                i <= 32,
                regs@.len() == i,
                forall|j: int| 0 <= j < i ==> regs@[j] == 0,
            decreases 32 - i,
        {
            regs.push(0);
            i = i + 1;
        }
        RegisterFile { regs }
    }

    /// Reads a register; `x0` always reads zero.
    pub fn read(&self, r: u8) -> (v: u32)
        requires
            self.wf(),
            r < 32,
        ensures
            v == self.spec_read(r),
    {
        self.regs[r as usize]
    }

    /// Writes a register; a write to `x0` is dropped.
    pub fn write(&mut self, r: u8, v: u32)
        requires
            old(self).wf(),
            r < 32,
        ensures
            final(self).wf(),
            r == 0 ==> *final(self) == *old(self),
            r != 0 ==> final(self).regs@ == old(self).regs@.update(r as int, v),
    {
        if r != 0 {
            self.regs.set(r as usize, v);
        }
    }
}

/// The program counter.
#[derive(Debug, PartialEq, Eq)]
pub struct ProgramCounter {
    pub value: u32,
}

impl ProgramCounter {
    /// Advances past one instruction, wrapping at the address space's end.
    pub fn step(&mut self)
        ensures
            final(self).value == spec_add32(old(self).value, 4),
    {
        self.value = add32(self.value, 4);
    }
}

/// The CPU: register file and program counter.
#[derive(Debug, PartialEq, Eq)]
pub struct Cpu {
    pub registers: RegisterFile,
    pub pc: ProgramCounter,
}

impl Cpu {
    /// Registers well formed.
    pub open spec fn wf(self) -> bool {
        self.registers.wf()
    }

    /// Fresh CPU state: all registers zero, PC zero.
    pub fn new() -> (r: Cpu)
        ensures
            r.wf(),
            r.pc.value == 0,
            forall|k: u8| k < 32 ==> r.registers.spec_read(k) == 0,
    {
        Cpu { registers: RegisterFile::new(), pc: ProgramCounter { value: 0 } }
    }
}

} // verus!
