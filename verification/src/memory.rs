//! Segmented memory with per-segment access modes. Every load and store is
//! byte, half-word or word sized, must be aligned to its size, and yields an
//! operation record carrying the value moved, for the proving transcript.
//! Words are stored little endian; sub-word accesses read or rewrite part of
//! the containing word.

use vstd::prelude::*;

verus! {

/// Per-segment access mode.
#[derive(Clone, Copy, Debug, PartialEq, Eq, Structural)]
pub enum Mode {
    ReadOnly,
    WriteOnly,
    ReadWrite,
    NoAccess,
}

impl Mode {
    /// Whether loads are allowed.
    pub open spec fn spec_readable(self) -> bool {
        self == Mode::ReadOnly || self == Mode::ReadWrite
    }

    /// Whether stores are allowed.
    pub open spec fn spec_writable(self) -> bool {
        self == Mode::WriteOnly || self == Mode::ReadWrite
    }

    /// Whether loads are allowed.
    pub fn readable(self) -> (r: bool)
        ensures
            r == self.spec_readable(),
    {
        self == Mode::ReadOnly || self == Mode::ReadWrite
    }

    /// Whether stores are allowed.
    pub fn writable(self) -> (r: bool)
        ensures
            r == self.spec_writable(),
    {
        self == Mode::WriteOnly || self == Mode::ReadWrite
    }
}

/// Access width of a memory operation.
#[derive(Clone, Copy, Debug, PartialEq, Eq, Hash, Structural)]
pub enum MemAccessSize {
    Byte,
    HalfWord,
    Word,
}

impl MemAccessSize {
    /// The width in bytes.
    pub open spec fn spec_bytes(self) -> u32 {
        match self {
            MemAccessSize::Byte => 1,
            MemAccessSize::HalfWord => 2,
            MemAccessSize::Word => 4,
        }
    }

    /// The width in bytes.
    pub fn bytes(self) -> (r: u32)
        ensures
            r == self.spec_bytes(),
    {
        match self {
            MemAccessSize::Byte => 1,
            MemAccessSize::HalfWord => 2,
            MemAccessSize::Word => 4,
        }
    }
}

/// The part of a word an access of the given size reads at a byte offset.
/// The offset is the address modulo the word size; an aligned access has
/// offset 0 for words, 0 or 2 for half-words.
pub open spec fn extract_part(word: u32, offset: u32, size: MemAccessSize) -> u32 {
    match size {
        MemAccessSize::Byte => if offset == 0 {
            word % 0x100
        } else if offset == 1 {
            (word / 0x100) % 0x100
        } else if offset == 2 {
            (word / 0x10000) % 0x100
        } else {
            (word / 0x1000000) % 0x100
        },
        MemAccessSize::HalfWord => if offset == 0 {
            word % 0x10000
        } else {
            (word / 0x10000) % 0x10000
        },
        MemAccessSize::Word => word,
    }
}

/// The word after an access of the given size writes `value` (truncated to
/// the access width) at a byte offset.
pub open spec fn insert_part(word: u32, offset: u32, size: MemAccessSize, value: u32) -> u32 {
    match size {
        MemAccessSize::Byte => if offset == 0 {
            ((value % 0x100) + (word / 0x100) * 0x100) as u32
        } else if offset == 1 {
            (word % 0x100 + (value % 0x100) * 0x100 + (word / 0x10000) * 0x10000) as u32
        } else if offset == 2 {
            (word % 0x10000 + (value % 0x100) * 0x10000 + (word / 0x1000000) * 0x1000000) as u32
        } else {
            (word % 0x1000000 + (value % 0x100) * 0x1000000) as u32
        },
        MemAccessSize::HalfWord => if offset == 0 {
            ((value % 0x10000) + (word / 0x10000) * 0x10000) as u32
        } else {
            (word % 0x10000 + (value % 0x10000) * 0x10000) as u32
        },
        MemAccessSize::Word => value,
    }
}

/// The part of a word an access reads at a byte offset.
pub fn extract_part_exec(word: u32, offset: u32, size: MemAccessSize) -> (r: u32)
    requires
        offset < 4,
    ensures
        r == extract_part(word, offset, size),
{
    match size {
        MemAccessSize::Byte => if offset == 0 {
            word % 0x100
        } else if offset == 1 {
            (word / 0x100) % 0x100
        } else if offset == 2 {
            (word / 0x10000) % 0x100
        } else {
            (word / 0x1000000) % 0x100
        },
        MemAccessSize::HalfWord => if offset == 0 {
            word % 0x10000
        } else {
            (word / 0x10000) % 0x10000
        },
        MemAccessSize::Word => word,
    }
}

/// The word after an access writes `value` at a byte offset.
pub fn insert_part_exec(word: u32, offset: u32, size: MemAccessSize, value: u32) -> (r: u32)
    requires
        offset < 4,
    ensures
        r == insert_part(word, offset, size, value),
{
    match size {
        MemAccessSize::Byte => if offset == 0 {
            (value % 0x100) + (word / 0x100) * 0x100
        } else if offset == 1 {
            word % 0x100 + (value % 0x100) * 0x100 + (word / 0x10000) * 0x10000
        } else if offset == 2 {
            word % 0x10000 + (value % 0x100) * 0x10000 + (word / 0x1000000) * 0x1000000
        } else {
            word % 0x1000000 + (value % 0x100) * 0x1000000
        },
        MemAccessSize::HalfWord => if offset == 0 {
            (value % 0x10000) + (word / 0x10000) * 0x10000
        } else {
            word % 0x10000 + (value % 0x10000) * 0x10000
        },
        MemAccessSize::Word => value,
    }
}

/// A completed load: where, how wide, and the value read.
#[derive(Clone, Copy, Debug, PartialEq, Eq, Hash)]
pub struct LoadOp {
    pub address: u32,
    pub size: MemAccessSize,
    pub value: u32,
}

/// A completed store: where, how wide, the value written and the value
/// overwritten.
#[derive(Clone, Copy, Debug, PartialEq, Eq, Hash)]
pub struct StoreOp {
    pub address: u32,
    pub size: MemAccessSize,
    pub value: u32,
    pub prev_value: u32,
}

/// One row of the memory transcript: an access annotated with the global
/// clock at which it happened and the last clock at which the location was
/// touched before it.
#[derive(Clone, Copy, Debug, PartialEq, Eq, Hash)]
pub struct MemoryRecord {
    pub address: u32,
    pub size: MemAccessSize,
    pub value_before: u32,
    pub value_after: u32,
    pub timestamp_prev: usize,
    pub timestamp_cur: usize,
}

impl LoadOp {
    /// The transcript row of this load: a load leaves the value unchanged.
    pub fn as_record(&self, timestamp_cur: usize, timestamp_prev: usize) -> (r: MemoryRecord)
        ensures
            r == (MemoryRecord {
                address: self.address,
                size: self.size,
                value_before: self.value,
                value_after: self.value,
                timestamp_prev,
                timestamp_cur,
            }),
    {
        MemoryRecord {
            address: self.address,
            size: self.size,
            value_before: self.value,
            value_after: self.value,
            timestamp_prev,
            timestamp_cur,
        }
    }
}

impl StoreOp {
    /// The transcript row of this store.
    pub fn as_record(&self, timestamp_cur: usize, timestamp_prev: usize) -> (r: MemoryRecord)
        ensures
            r == (MemoryRecord {
                address: self.address,
                size: self.size,
                value_before: self.prev_value,
                value_after: self.value,
                timestamp_prev,
                timestamp_cur,
            }),
    {
        MemoryRecord {
            address: self.address,
            size: self.size,
            value_before: self.prev_value,
            value_after: self.value,
            timestamp_prev,
            timestamp_cur,
        }
    }
}

/// The memory operations of one executed instruction.
pub type MemoryRecords = Vec<MemoryRecord>;

/// Failure of a memory access.
#[derive(Clone, Copy, Debug, PartialEq, Eq)]
pub enum MemoryError {
    /// The address lies in no segment.
    MemoryOutOfBounds,
    /// The segment's mode forbids the access.
    MemoryPermissionDenied,
    /// The address is not aligned to the access size.
    UnalignedAccess,
    /// A new segment overlaps an existing one.
    SegmentOverlap,
    /// A segment index does not name a segment.
    InvalidSegment,
}

} // verus!

verus! {

/// The value stored by an access: the written value truncated to the width.
pub open spec fn truncate_value(value: u32, size: MemAccessSize) -> u32 {
    match size {
        MemAccessSize::Byte => value % 0x100,
        MemAccessSize::HalfWord => value % 0x10000,
        MemAccessSize::Word => value,
    }
}

/// The little-endian word at word index `j` of a byte string, zero padded.
pub open spec fn word_from_bytes(bytes: Seq<u8>, j: int) -> u32 {
    (byte_or_zero(bytes, 4 * j) + 0x100 * byte_or_zero(bytes, 4 * j + 1) + 0x10000 * byte_or_zero(
        bytes,
        4 * j + 2,
    ) + 0x1000000 * byte_or_zero(bytes, 4 * j + 3)) as u32
}

/// The byte at an index, or zero past the end.
pub open spec fn byte_or_zero(bytes: Seq<u8>, k: int) -> u32 {
    if 0 <= k < bytes.len() {
        bytes[k] as u32
    } else {
        0
    }
}

/// A contiguous memory segment of whole words with one access mode.
#[derive(Debug, PartialEq, Eq)]
pub struct FixedMemory {
    pub mode: Mode,
    pub base: u32,
    pub words: Vec<u32>,
}

impl FixedMemory {
    /// A segment is well formed when its base is word aligned and its byte
    /// range stays within the 32-bit address space.
    pub open spec fn wf(self) -> bool {
        self.base % 4 == 0 && self.base + 4 * self.words@.len() <= 0x1_0000_0000
    }

    /// Whether a byte address falls inside the segment.
    pub open spec fn spec_contains(self, addr: u32) -> bool {
        self.base <= addr && (addr as int) < self.base + 4 * self.words@.len()
    }

    /// The word holding the given byte address.
    pub open spec fn word_at(self, addr: u32) -> u32 {
        self.words@[(addr as int - self.base as int) / 4]
    }

    /// Whether a byte address falls inside the segment.
    pub fn contains(&self, addr: u32) -> (r: bool)
        requires
            self.wf(),
        ensures
            r == self.spec_contains(addr),
    {
        addr >= self.base && ((addr - self.base) as u64) < 4u64 * (self.words.len() as u64)
    }

    /// A zero-filled segment of `len_bytes` bytes starting at `base`.
    pub fn new(mode: Mode, base: u32, len_bytes: usize) -> (r: FixedMemory)
        requires
            base % 4 == 0,
            len_bytes % 4 == 0,
            base + len_bytes <= 0x1_0000_0000,
        ensures
            r.wf(),
            r.mode == mode,
            r.base == base,
            r.words@.len() == len_bytes as int / 4,
            forall|j: int| 0 <= j < r.words@.len() ==> r.words@[j] == 0,
    {
        let n = len_bytes / 4;
        let mut words: Vec<u32> = Vec::new();
        let mut i: usize = 0;
        while i < n
            invariant
                i <= n,
                words@.len() == i,
                forall|j: int| 0 <= j < i ==> words@[j] == 0,
            decreases n - i,
        {
            words.push(0);
            i = i + 1;
        }
        FixedMemory { mode, base, words }
    }

    /// A segment owning the given words; `len_bytes` states its byte length.
    pub fn from_vec(mode: Mode, base: u32, len_bytes: usize, words: Vec<u32>) -> (r: FixedMemory)
        requires
            base % 4 == 0,
            len_bytes == 4 * words@.len(),
            base + len_bytes <= 0x1_0000_0000,
        ensures
            r.wf(),
            r.mode == mode,
            r.base == base,
            r.words@ == words@,
    {
        FixedMemory { mode, base, words }
    }

    /// A segment filled from a byte string, little endian, zero padded to a
    /// whole word.
    pub fn from_bytes(mode: Mode, base: u32, bytes: &Vec<u8>) -> (r: FixedMemory)
        requires
            base % 4 == 0,
            base + bytes@.len() + 4 <= 0x1_0000_0000,
        ensures
            r.wf(),
            r.mode == mode,
            r.base == base,
            r.words@.len() == (bytes@.len() + 3) as int / 4,
            forall|j: int| 0 <= j < r.words@.len() ==> r.words@[j] == word_from_bytes(bytes@, j),
    {
        let len = bytes.len();
        let n = (len + 3) / 4;
        let mut words: Vec<u32> = Vec::new();
        let mut i: usize = 0;
        while i < n
            invariant
                i <= n,
                n == (bytes@.len() + 3) as int / 4,
                len == bytes@.len(),
                words@.len() == i,
                forall|j: int| 0 <= j < i ==> words@[j] == word_from_bytes(bytes@, j),
            decreases n - i,
        {
            let b0: u32 = if 4 * i < len {
                bytes[4 * i] as u32
            } else {
                0
            };
            let b1: u32 = if 4 * i + 1 < len {
                bytes[4 * i + 1] as u32
            } else {
                0
            };
            let b2: u32 = if 4 * i + 2 < len {
                bytes[4 * i + 2] as u32
            } else {
                0
            };
            let b3: u32 = if 4 * i + 3 < len {
                bytes[4 * i + 3] as u32
            } else {
                0
            };
            words.push(b0 + 0x100 * b1 + 0x10000 * b2 + 0x1000000 * b3);
            i = i + 1;
        }
        FixedMemory { mode, base, words }
    }

    /// A segment copied from a word slice; `len_bytes` states its byte
    /// length.
    pub fn from_words(mode: Mode, base: u32, len_bytes: usize, src: &Vec<u32>) -> (r: FixedMemory)
        requires
            base % 4 == 0,
            len_bytes == 4 * src@.len(),
            base + len_bytes <= 0x1_0000_0000,
        ensures
            r.wf(),
            r.mode == mode,
            r.base == base,
            r.words@ == src@,
    {
        let mut words: Vec<u32> = Vec::new();
        let mut i: usize = 0;
        while i < src.len()
            invariant
                i <= src.len(),
                words@ == src@.subrange(0, i as int),
            decreases src.len() - i,
        {
            words.push(src[i]);
            i = i + 1;
        }
        proof {
            assert(words@ =~= src@);
        }
        FixedMemory { mode, base, words }
    }

    /// The words the segment holds from `start` to `end` (or its own end):
    /// empty unless `start` is an aligned address inside the segment.
    pub open spec fn spec_segment(self, start: u32, end: Option<u32>) -> Seq<u32> {
        if start % 4 == 0 && self.spec_contains(start) {
            let lo = (start as int - self.base as int) / 4;
            let hi = match end {
                None => self.words@.len() as int,
                Some(e) => if (e as int - self.base as int) / 4 < lo {
                    lo
                } else if (e as int - self.base as int) / 4 > self.words@.len() {
                    self.words@.len() as int
                } else {
                    (e as int - self.base as int) / 4
                },
            };
            self.words@.subrange(lo, hi)
        } else {
            Seq::empty()
        }
    }

    /// Copies out the words from `start` to `end` (or the segment's end).
    pub fn segment(&self, start: u32, end: Option<u32>) -> (r: Vec<u32>)
        requires
            self.wf(),
        ensures
            r@ == self.spec_segment(start, end),
    {
        let mut out: Vec<u32> = Vec::new();
        if start % 4 != 0 || !self.contains(start) {
            proof {
                assert(out@ =~= self.spec_segment(start, end));
            }
            return out;
        }
        let lo = ((start - self.base) / 4) as usize;
        let hi: usize = match end {
            None => self.words.len(),
            Some(e) => {
                let ei = if e <= self.base {
                    0usize
                } else {
                    ((e - self.base) / 4) as usize
                };
                if ei < lo {
                    lo
                } else if ei > self.words.len() {
                    self.words.len()
                } else {
                    ei
                }
            },
        };
        let mut i: usize = lo;
        while i < hi
            invariant
                lo <= i <= hi,
                hi <= self.words@.len(),
                out@ == self.words@.subrange(lo as int, i as int),
            decreases hi - i,
        {
            out.push(self.words[i]);
            i = i + 1;
        }
        proof {
            assert(out@ =~= self.spec_segment(start, end));
        }
        out
    }

    /// What a load yields: the addressed part of the containing word, or
    /// the first applicable error (alignment, bounds, permission).
    pub open spec fn spec_load(self, addr: u32, size: MemAccessSize) -> Result<u32, MemoryError> {
        if addr % size.spec_bytes() != 0 {
            Err(MemoryError::UnalignedAccess)
        } else if !self.spec_contains(addr) {
            Err(MemoryError::MemoryOutOfBounds)
        } else if !self.mode.spec_readable() {
            Err(MemoryError::MemoryPermissionDenied)
        } else {
            Ok(extract_part(self.word_at(addr), addr % 4, size))
        }
    }

    /// Loads a value of the given size from the segment.
    pub fn load(&self, addr: u32, size: MemAccessSize) -> (r: Result<(u32, LoadOp), MemoryError>)
        requires
            self.wf(),
        ensures
            match r {
                Ok((v, op)) => self.spec_load(addr, size) == Ok::<u32, MemoryError>(v) && op == (
                LoadOp { address: addr, size, value: v }),
                Err(e) => self.spec_load(addr, size) == Err::<u32, MemoryError>(e),
            },
    {
        if addr % size.bytes() != 0 {
            return Err(MemoryError::UnalignedAccess);
        }
        if !self.contains(addr) {
            return Err(MemoryError::MemoryOutOfBounds);
        }
        if !self.mode.readable() {
            return Err(MemoryError::MemoryPermissionDenied);
        }
        let idx = ((addr - self.base) / 4) as usize;
        let word = self.words[idx];
        let v = extract_part_exec(word, addr % 4, size);
        Ok((v, LoadOp { address: addr, size, value: v }))
    }

    /// Stores a value of the given size into the segment. On success the
    /// containing word is rewritten and the overwritten part reported.
    pub fn store(&mut self, addr: u32, size: MemAccessSize, value: u32) -> (r: Result<
        StoreOp,
        MemoryError,
    >)
        requires
            old(self).wf(),
        ensures
            match r {
                Ok(op) => {
                    &&& old(self).spec_contains(addr)
                    &&& addr % size.spec_bytes() == 0
                    &&& old(self).mode.spec_writable()
                    &&& final(self).mode == old(self).mode
                    &&& final(self).base == old(self).base
                    &&& final(self).words@ == old(self).words@.update(
                        (addr as int - old(self).base as int) / 4,
                        insert_part(old(self).word_at(addr), addr % 4, size, value),
                    )
                    &&& op == (StoreOp {
                        address: addr,
                        size,
                        value: truncate_value(value, size),
                        prev_value: extract_part(old(self).word_at(addr), addr % 4, size),
                    })
                },
                Err(e) => {
                    &&& *final(self) == *old(self)
                    &&& e == (if addr % size.spec_bytes() != 0 {
                        MemoryError::UnalignedAccess
                    } else if !old(self).spec_contains(addr) {
                        MemoryError::MemoryOutOfBounds
                    } else {
                        MemoryError::MemoryPermissionDenied
                    })
                    &&& (addr % size.spec_bytes() != 0 || !old(self).spec_contains(addr) || !old(
                        self,
                    ).mode.spec_writable())
                },
            },
    {
        if addr % size.bytes() != 0 {
            return Err(MemoryError::UnalignedAccess);
        }
        if !self.contains(addr) {
            return Err(MemoryError::MemoryOutOfBounds);
        }
        if !self.mode.writable() {
            return Err(MemoryError::MemoryPermissionDenied);
        }
        let idx = ((addr - self.base) / 4) as usize;
        let word = self.words[idx];
        let prev = extract_part_exec(word, addr % 4, size);
        let new_word = insert_part_exec(word, addr % 4, size, value);
        self.words.set(idx, new_word);
        let stored = match size {
            MemAccessSize::Byte => value % 0x100,
            MemAccessSize::HalfWord => value % 0x10000,
            MemAccessSize::Word => value,
        };
        Ok(StoreOp { address: addr, size, value: stored, prev_value: prev })
    }
}

} // verus!

verus! {

/// First index at or after `k` whose cell holds the given word address.
pub open spec fn find_cell_from(cells: Seq<(u32, u32)>, waddr: u32, k: int) -> Option<int>
    decreases cells.len() - k,
{
    if k < 0 || k >= cells.len() {
        None
    } else if cells[k].0 == waddr {
        Some(k)
    } else {
        find_cell_from(cells, waddr, k + 1)
    }
}

/// A sparse, growable memory of whole words with one access mode. Cells
/// hold word-aligned addresses; an address never written reads as zero.
#[derive(Debug, PartialEq, Eq)]
pub struct VariableMemory {
    pub mode: Mode,
    pub cells: Vec<(u32, u32)>,
}

impl VariableMemory {
    /// Cells hold word-aligned addresses, each at most once.
    pub open spec fn wf(self) -> bool {
        (forall|i: int, j: int|
            0 <= i < j < self.cells@.len() ==> self.cells@[i].0 != self.cells@[j].0) && (forall|
            i: int,
        |
            0 <= i < self.cells@.len() ==> #[trigger] self.cells@[i].0 % 4 == 0)
    }

    /// The word stored at a word-aligned address, zero when absent.
    pub open spec fn word_or_zero(self, waddr: u32) -> u32 {
        match find_cell_from(self.cells@, waddr, 0) {
            Some(i) => self.cells@[i].1,
            None => 0,
        }
    }

    /// An empty memory with the given mode.
    pub fn new(mode: Mode) -> (r: VariableMemory)
        ensures
            r.wf(),
            r.mode == mode,
            r.cells@.len() == 0,
    {
        VariableMemory { mode, cells: Vec::new() }
    }

    /// The position of the cell holding a word address, if present.
    fn find(&self, waddr: u32) -> (r: Option<usize>)
        ensures
            match r {
                Some(i) => 0 <= i < self.cells@.len() && find_cell_from(self.cells@, waddr, 0)
                    == Some(i as int),
                None => find_cell_from(self.cells@, waddr, 0) is None,
            },
    {
        let mut i: usize = 0;
        while i < self.cells.len()
            invariant
                i <= self.cells@.len(),
                find_cell_from(self.cells@, waddr, 0) == find_cell_from(
                    self.cells@,
                    waddr,
                    i as int,
                ),
            decreases self.cells@.len() - i,
        {
            if self.cells[i].0 == waddr {
                return Some(i);
            }
            i = i + 1;
        }
        None
    }

    /// The largest word address written so far, if any.
    pub fn max_key(&self) -> (r: Option<u32>)
        ensures
            match r {
                Some(m) => (exists|i: int|
                    0 <= i < self.cells@.len() && self.cells@[i].0 == m) && (forall|i: int|
                    0 <= i < self.cells@.len() ==> self.cells@[i].0 <= m),
                None => self.cells@.len() == 0,
            },
    {
        if self.cells.len() == 0 {
            return None;
        }
        let mut best: u32 = self.cells[0].0;
        let mut i: usize = 1;
        while i < self.cells.len()
            invariant
                1 <= i <= self.cells@.len(),
                exists|j: int| 0 <= j < i && self.cells@[j].0 == best,
                forall|j: int| 0 <= j < i ==> self.cells@[j].0 <= best,
            decreases self.cells@.len() - i,
        {
            if self.cells[i].0 > best {
                best = self.cells[i].0;
            }
            i = i + 1;
        }
        Some(best)
    }

    /// What a load yields: the addressed part of the stored word (zero when
    /// never written), or the applicable error.
    pub open spec fn spec_load(self, addr: u32, size: MemAccessSize) -> Result<u32, MemoryError> {
        if addr % size.spec_bytes() != 0 {
            Err(MemoryError::UnalignedAccess)
        } else if !self.mode.spec_readable() {
            Err(MemoryError::MemoryPermissionDenied)
        } else {
            Ok(extract_part(self.word_or_zero((addr - addr % 4) as u32), addr % 4, size))
        }
    }

    /// Loads a value of the given size.
    pub fn load(&self, addr: u32, size: MemAccessSize) -> (r: Result<(u32, LoadOp), MemoryError>)
        ensures
            match r {
                Ok((v, op)) => self.spec_load(addr, size) == Ok::<u32, MemoryError>(v) && op == (
                LoadOp { address: addr, size, value: v }),
                Err(e) => self.spec_load(addr, size) == Err::<u32, MemoryError>(e),
            },
    {
        if addr % size.bytes() != 0 {
            return Err(MemoryError::UnalignedAccess);
        }
        if !self.mode.readable() {
            return Err(MemoryError::MemoryPermissionDenied);
        }
        let off = addr % 4;
        let waddr = addr - off;
        let word = match self.find(waddr) {
            Some(i) => self.cells[i].1,
            None => 0,
        };
        let v = extract_part_exec(word, off, size);
        Ok((v, LoadOp { address: addr, size, value: v }))
    }

    /// Stores a value of the given size; the containing word is rewritten
    /// and every other word kept.
    pub fn store(&mut self, addr: u32, size: MemAccessSize, value: u32) -> (r: Result<
        StoreOp,
        MemoryError,
    >)
        requires
            old(self).wf(),
        ensures
            final(self).wf(),
            final(self).mode == old(self).mode,
            match r {
                Ok(op) => {
                    &&& addr % size.spec_bytes() == 0
                    &&& old(self).mode.spec_writable()
                    &&& final(self).word_or_zero((addr - addr % 4) as u32) == insert_part(
                        old(self).word_or_zero((addr - addr % 4) as u32),
                        addr % 4,
                        size,
                        value,
                    )
                    &&& forall|w: u32|
                        w != ((addr - addr % 4) as u32) ==> final(self).word_or_zero(w) == old(
                            self,
                        ).word_or_zero(w)
                    &&& op == (StoreOp {
                        address: addr,
                        size,
                        value: truncate_value(value, size),
                        prev_value: extract_part(
                            old(self).word_or_zero((addr - addr % 4) as u32),
                            addr % 4,
                            size,
                        ),
                    })
                },
                Err(e) => {
                    &&& *final(self) == *old(self)
                    &&& e == (if addr % size.spec_bytes() != 0 {
                        MemoryError::UnalignedAccess
                    } else {
                        MemoryError::MemoryPermissionDenied
                    })
                    &&& (addr % size.spec_bytes() != 0 || !old(self).mode.spec_writable())
                },
            },
    {
        if addr % size.bytes() != 0 {
            return Err(MemoryError::UnalignedAccess);
        }
        if !self.mode.writable() {
            return Err(MemoryError::MemoryPermissionDenied);
        }
        let off = addr % 4;
        let waddr = addr - off;
        let found = self.find(waddr);
        let word = match found {
            Some(i) => self.cells[i].1,
            None => 0,
        };
        let prev = extract_part_exec(word, off, size);
        let new_word = insert_part_exec(word, off, size, value);
        let ghost pre = self.cells@;
        match found {
            Some(i) => {
                self.cells.set(i, (waddr, new_word));
                proof {
                    lemma_find_after_set(pre, self.cells@, waddr, new_word, i as int);
                }
            },
            None => {
                self.cells.push((waddr, new_word));
                proof {
                    lemma_find_after_push(pre, waddr, new_word);
                }
            },
        }
        let stored = match size {
            MemAccessSize::Byte => value % 0x100,
            MemAccessSize::HalfWord => value % 0x10000,
            MemAccessSize::Word => value,
        };
        Ok(StoreOp { address: addr, size, value: stored, prev_value: prev })
    }
}

/// After replacing the cell at a found index, a lookup of that address finds
/// the new value and every other address reads as before.
proof fn lemma_find_after_set(
    pre: Seq<(u32, u32)>,
    post: Seq<(u32, u32)>,
    waddr: u32,
    new_word: u32,
    i: int,
)
    requires
        forall|a: int, b: int| 0 <= a < b < pre.len() ==> pre[a].0 != pre[b].0,
        0 <= i < pre.len(),
        find_cell_from(pre, waddr, 0) == Some(i),
        post == pre.update(i, (waddr, new_word)),
    ensures
        forall|a: int, b: int| 0 <= a < b < post.len() ==> post[a].0 != post[b].0,
        find_cell_from(post, waddr, 0) == Some(i),
        post[i].1 == new_word,
        forall|w: u32|
            w != waddr ==> match #[trigger] find_cell_from(post, w, 0) {
                Some(k) => find_cell_from(pre, w, 0) == Some(k) && post[k].1 == pre[k].1,
                None => find_cell_from(pre, w, 0) is None,
            },
{
    assert(pre[i].0 == waddr) by {
        lemma_find_found(pre, waddr, 0, i);
    }
    assert forall|a: int, b: int| 0 <= a < b < post.len() implies post[a].0 != post[b].0 by {
        assert(post[a].0 == pre[a].0 && post[b].0 == pre[b].0);
    }
    lemma_find_prefix_same(pre, post, waddr, 0, i);
    assert forall|w: u32| w != waddr implies match #[trigger] find_cell_from(post, w, 0) {
        Some(k) => find_cell_from(pre, w, 0) == Some(k) && post[k].1 == pre[k].1,
        None => find_cell_from(pre, w, 0) is None,
    } by {
        lemma_find_same_keys(pre, post, w, 0);
        if find_cell_from(post, w, 0) is Some {
            let k = find_cell_from(post, w, 0)->Some_0;
            lemma_find_found(post, w, 0, k);
            assert(post[k].0 == w);
            assert(k != i);
        }
    }
}

/// Where a key was found, the cell there holds it.
proof fn lemma_find_found(cells: Seq<(u32, u32)>, w: u32, k: int, i: int)
    requires
        0 <= k,
        find_cell_from(cells, w, k) == Some(i),
    ensures
        k <= i < cells.len(),
        cells[i].0 == w,
    decreases cells.len() - k,
{
    if k < cells.len() {
        if cells[k].0 == w {
        } else {
            lemma_find_found(cells, w, k + 1, i);
        }
    }
}

/// Two cell lists with the same keys in the same places find every key at
/// the same position.
proof fn lemma_find_same_keys(pre: Seq<(u32, u32)>, post: Seq<(u32, u32)>, w: u32, k: int)
    requires
        0 <= k,
        pre.len() == post.len(),
        forall|a: int| 0 <= a < pre.len() ==> pre[a].0 == post[a].0,
    ensures
        find_cell_from(pre, w, k) == find_cell_from(post, w, k),
    decreases pre.len() - k,
{
    if k < pre.len() {
        lemma_find_same_keys(pre, post, w, k + 1);
    }
}

/// Finding a key after an update at the position where it already stood.
proof fn lemma_find_prefix_same(
    pre: Seq<(u32, u32)>,
    post: Seq<(u32, u32)>,
    waddr: u32,
    k: int,
    i: int,
)
    requires
        0 <= k <= i < pre.len(),
        find_cell_from(pre, waddr, k) == Some(i),
        post.len() == pre.len(),
        forall|a: int| 0 <= a < pre.len() && a != i ==> post[a] == pre[a],
        post[i].0 == waddr,
    ensures
        find_cell_from(post, waddr, k) == Some(i),
    decreases pre.len() - k,
{
    if k == i {
    } else {
        assert(pre[k].0 != waddr) by {
            if pre[k].0 == waddr {
                assert(find_cell_from(pre, waddr, k) == Some(k));
            }
        }
        lemma_find_prefix_same(pre, post, waddr, k + 1, i);
    }
}

/// After appending a cell with a fresh key, that key is found at the end
/// and every other key reads as before.
proof fn lemma_find_after_push(pre: Seq<(u32, u32)>, waddr: u32, new_word: u32)
    requires
        forall|a: int, b: int| 0 <= a < b < pre.len() ==> pre[a].0 != pre[b].0,
        find_cell_from(pre, waddr, 0) is None,
    ensures
        forall|a: int, b: int|
            0 <= a < b < pre.push((waddr, new_word)).len() ==> pre.push((waddr, new_word))[a].0
                != pre.push((waddr, new_word))[b].0,
        find_cell_from(pre.push((waddr, new_word)), waddr, 0) == Some(pre.len() as int),
        forall|w: u32|
            w != waddr ==> match #[trigger] find_cell_from(pre.push((waddr, new_word)), w, 0) {
                Some(k) => find_cell_from(pre, w, 0) == Some(k) && pre.push(
                    (waddr, new_word),
                )[k].1 == pre[k].1,
                None => find_cell_from(pre, w, 0) is None,
            },
{
    let post = pre.push((waddr, new_word));
    lemma_find_none_all(pre, waddr, 0);
    assert forall|a: int, b: int| 0 <= a < b < post.len() implies post[a].0 != post[b].0 by {
        if b < pre.len() {
        } else {
            assert(post[b].0 == waddr && post[a].0 == pre[a].0);
        }
    }
    lemma_find_push_found(pre, waddr, new_word, 0);
    assert forall|w: u32| w != waddr implies match #[trigger] find_cell_from(post, w, 0) {
        Some(k) => find_cell_from(pre, w, 0) == Some(k) && post[k].1 == pre[k].1,
        None => find_cell_from(pre, w, 0) is None,
    } by {
        lemma_find_push_other(pre, waddr, new_word, w, 0);
        if find_cell_from(post, w, 0) is Some {
            let k = find_cell_from(post, w, 0)->Some_0;
            lemma_find_found(post, w, 0, k);
            assert(k < pre.len());
        }
    }
}

/// A key that is never found occurs in no cell.
proof fn lemma_find_none_all(cells: Seq<(u32, u32)>, w: u32, k: int)
    requires
        0 <= k,
        find_cell_from(cells, w, k) is None,
    ensures
        forall|a: int| k <= a < cells.len() ==> cells[a].0 != w,
    decreases cells.len() - k,
{
    if k < cells.len() {
        lemma_find_none_all(cells, w, k + 1);
    }
}

/// After a push of a fresh key, searching for it finds the appended cell.
proof fn lemma_find_push_found(pre: Seq<(u32, u32)>, waddr: u32, new_word: u32, k: int)
    requires
        0 <= k <= pre.len(),
        find_cell_from(pre, waddr, k) is None,
    ensures
        find_cell_from(pre.push((waddr, new_word)), waddr, k) == Some(pre.len() as int),
    decreases pre.len() - k,
{
    let post = pre.push((waddr, new_word));
    if k < pre.len() {
        lemma_find_push_found(pre, waddr, new_word, k + 1);
    } else {
        assert(post[k].0 == waddr);
    }
}

/// A push of one key leaves searches for any other key unchanged.
proof fn lemma_find_push_other(pre: Seq<(u32, u32)>, waddr: u32, new_word: u32, w: u32, k: int)
    requires
        0 <= k,
        w != waddr,
    ensures
        find_cell_from(pre.push((waddr, new_word)), w, k) == find_cell_from(pre, w, k),
    decreases pre.len() + 1 - k,
{
    if k < pre.len() + 1 {
        if k < pre.len() {
            lemma_find_push_other(pre, waddr, new_word, w, k + 1);
        } else {
            assert(pre.push((waddr, new_word))[k].0 == waddr);
        }
    }
}

} // verus!

verus! {

/// The bytes of a word sequence, little endian.
pub open spec fn bytes_of_words(ws: Seq<u32>) -> Seq<u8> {
    Seq::new(4 * ws.len(), |j: int| (extract_part(ws[j / 4], (j % 4) as u32, MemAccessSize::Byte) as u8))
}

/// Flattens words to little-endian bytes.
fn words_to_bytes(ws: &Vec<u32>) -> (r: Vec<u8>)
    ensures
        r@ == bytes_of_words(ws@),
{
    let mut out: Vec<u8> = Vec::new();
    let mut i: usize = 0;
    while i < ws.len()
        invariant
            i <= ws@.len(),
            out@.len() == 4 * i,
            forall|j: int|
                0 <= j < 4 * i ==> out@[j] == (extract_part(
                    ws@[j / 4],
                    (j % 4) as u32,
                    MemAccessSize::Byte,
                ) as u8),
        decreases ws@.len() - i,
    {
        let w = ws[i];
        out.push((w % 0x100) as u8);
        out.push(((w / 0x100) % 0x100) as u8);
        out.push(((w / 0x10000) % 0x100) as u8);
        out.push(((w / 0x1000000) % 0x100) as u8);
        i = i + 1;
    }
    proof {
        assert(out@ =~= bytes_of_words(ws@));
    }
    out
}

impl FixedMemory {
    /// Copies out the bytes from `start` to `end` (or the segment's end).
    pub fn segment_bytes(&self, start: u32, end: Option<u32>) -> (r: Vec<u8>)
        requires
            self.wf(),
        ensures
            r@ == bytes_of_words(self.spec_segment(start, end)),
    {
        let ws = self.segment(start, end);
        words_to_bytes(&ws)
    }
}

/// The largest key among the cells from index `k` on.
pub open spec fn spec_max_key_from(cells: Seq<(u32, u32)>, k: int) -> Option<u32>
    decreases cells.len() - k,
{
    if k < 0 || k >= cells.len() {
        None
    } else {
        match spec_max_key_from(cells, k + 1) {
            None => Some(cells[k].0),
            Some(m) => if cells[k].0 >= m {
                Some(cells[k].0)
            } else {
                Some(m)
            },
        }
    }
}

impl VariableMemory {
    /// The end (exclusive) of the byte range this memory's written cells
    /// cover, from a given start.
    pub open spec fn spec_cover_end(self, start: u32, end: Option<u32>) -> int {
        match end {
            Some(e) => e as int,
            None => match spec_max_key_from(self.cells@, 0) {
                Some(m) => if m + 4 > start {
                    m + 4
                } else {
                    start as int
                },
                None => start as int,
            },
        }
    }

    /// The largest word address written so far, if any.
    fn max_key_spec(&self) -> (r: Option<u32>)
        ensures
            r == spec_max_key_from(self.cells@, 0),
    {
        let mut r: Option<u32> = None;
        let mut i: usize = self.cells.len();
        while i > 0
            invariant
                i <= self.cells@.len(),
                r == spec_max_key_from(self.cells@, i as int),
            decreases i,
        {
            i = i - 1;
            let key = self.cells[i].0;
            r = match r {
                None => Some(key),
                Some(m) => if key >= m {
                    Some(key)
                } else {
                    Some(m)
                },
            };
        }
        r
    }

    /// Copies out the bytes from `start` to `end`; with no `end` given, the
    /// range runs to the last word ever written. Unwritten cells read zero.
    pub fn segment_bytes(&self, start: u32, end: Option<u32>) -> (r: Vec<u8>)
        requires
            self.wf(),
            start % 4 == 0,
            match end {
                Some(e) => e % 4 == 0 && e >= start,
                None => true,
            },
            self.spec_cover_end(start, end) < 0x1_0000_0000,
        ensures
            r@.len() == self.spec_cover_end(start, end) - start,
            forall|j: int|
                0 <= j < r@.len() ==> r@[j] == (extract_part(
                    self.word_or_zero((start + 4 * (j / 4)) as u32),
                    (j % 4) as u32,
                    MemAccessSize::Byte,
                ) as u8),
    {
        proof {
            lemma_max_key_exists(self.cells@, 0);
        }
        let hi: u32 = match end {
            Some(e) => e,
            None => match self.max_key_spec() {
                Some(m) => if m + 4 > start {
                    m + 4
                } else {
                    start
                },
                None => start,
            },
        };
        let mut out: Vec<u8> = Vec::new();
        let mut a: u32 = start;
        while a < hi
            invariant
                start <= a <= hi,
                start % 4 == 0,
                a % 4 == 0,
                hi % 4 == 0,
                hi == self.spec_cover_end(start, end),
                out@.len() == a - start,
                forall|j: int|
                    0 <= j < out@.len() ==> out@[j] == (extract_part(
                        self.word_or_zero((start + 4 * (j / 4)) as u32),
                        (j % 4) as u32,
                        MemAccessSize::Byte,
                    ) as u8),
            decreases hi - a,
        {
            let ghost prelen = out@.len() as int;
            let w = match self.find(a) {
                Some(i) => self.cells[i].1,
                None => 0,
            };
            out.push((w % 0x100) as u8);
            out.push(((w / 0x100) % 0x100) as u8);
            out.push(((w / 0x10000) % 0x100) as u8);
            out.push(((w / 0x1000000) % 0x100) as u8);
            proof {
                assert(w == self.word_or_zero(a));
                assert forall|j: int| prelen <= j < prelen + 4 implies #[trigger] out@[j] == (
                extract_part(
                    self.word_or_zero((start + 4 * (j / 4)) as u32),
                    (j % 4) as u32,
                    MemAccessSize::Byte,
                ) as u8) by {
                    assert(j / 4 == prelen / 4 && j % 4 == j - prelen) by (nonlinear_arith)
                        requires
                            prelen % 4 == 0,
                            prelen <= j < prelen + 4,
                    ;
                    assert(start + 4 * (j / 4) == a) by (nonlinear_arith)
                        requires
                            prelen == a - start,
                            prelen % 4 == 0,
                            j / 4 == prelen / 4,
                            start % 4 == 0,
                    ;
                }
            }
            a = a + 4;
        }
        out
    }
}

/// The largest key, where there is one, is the key of some cell.
proof fn lemma_max_key_exists(cells: Seq<(u32, u32)>, k: int)
    requires
        0 <= k,
    ensures
        match spec_max_key_from(cells, k) {
            Some(m) => exists|i: int| k <= i < cells.len() && cells[i].0 == m,
            None => k >= cells.len(),
        },
    decreases cells.len() - k,
{
    if k < cells.len() {
        lemma_max_key_exists(cells, k + 1);
    }
}

} // verus!

verus! {

/// Numeric tag of a mode, used in segment indices.
pub open spec fn spec_mode_tag(m: Mode) -> usize {
    match m {
        Mode::NoAccess => 0,
        Mode::WriteOnly => 1,
        Mode::ReadOnly => 2,
        Mode::ReadWrite => 3,
    }
}

/// Numeric tag of a mode, used in segment indices.
pub fn mode_tag(m: Mode) -> (r: usize)
    ensures
        r == spec_mode_tag(m),
{
    match m {
        Mode::NoAccess => 0,
        Mode::WriteOnly => 1,
        Mode::ReadOnly => 2,
        Mode::ReadWrite => 3,
    }
}

/// First fixed segment at or after `k` with the given mode.
pub open spec fn find_mode_from(segs: Seq<FixedMemory>, mode: Mode, k: int) -> Option<int>
    decreases segs.len() - k,
{
    if k < 0 || k >= segs.len() {
        None
    } else if segs[k].mode == mode {
        Some(k)
    } else {
        find_mode_from(segs, mode, k + 1)
    }
}

/// First fixed segment at or after `k` containing the address.
pub open spec fn find_fixed_from(segs: Seq<FixedMemory>, addr: u32, k: int) -> Option<int>
    decreases segs.len() - k,
{
    if k < 0 || k >= segs.len() {
        None
    } else if segs[k].spec_contains(addr) {
        Some(k)
    } else {
        find_fixed_from(segs, addr, k + 1)
    }
}

/// A found fixed segment contains the address searched for.
proof fn lemma_find_fixed_found(segs: Seq<FixedMemory>, addr: u32, k: int, i: int)
    requires
        0 <= k,
        find_fixed_from(segs, addr, k) == Some(i),
    ensures
        k <= i < segs.len(),
        segs[i].spec_contains(addr),
    decreases segs.len() - k,
{
    if k < segs.len() {
        if segs[k].spec_contains(addr) {
        } else {
            lemma_find_fixed_found(segs, addr, k + 1, i);
        }
    }
}

/// Whether two fixed segments' byte ranges intersect.
pub open spec fn segs_overlap(a: FixedMemory, b: FixedMemory) -> bool {
    !(a.base + 4 * a.words@.len() <= b.base || b.base + 4 * b.words@.len() <= a.base)
}

/// One address space composed of fixed segments, optionally backed by a
/// growable memory underneath: fixed segments take precedence, the backing
/// memory answers for every address no fixed segment holds.
#[derive(Debug, PartialEq, Eq)]
pub struct UnifiedMemory {
    pub fixed: Vec<FixedMemory>,
    pub variable: Option<VariableMemory>,
}

impl UnifiedMemory {
    /// Every part is well formed.
    pub open spec fn wf(self) -> bool {
        (forall|i: int| 0 <= i < self.fixed@.len() ==> (#[trigger] self.fixed@[i]).wf())
            && match self.variable {
            Some(v) => v.wf(),
            None => true,
        }
    }

    /// An empty address space.
    pub fn new() -> (r: UnifiedMemory)
        ensures
            r.wf(),
            r.fixed@.len() == 0,
            r.variable is None,
    {
        UnifiedMemory { fixed: Vec::new(), variable: None }
    }

    /// An address space backed everywhere by a growable memory.
    pub fn from_variable(v: VariableMemory) -> (r: UnifiedMemory)
        requires
            v.wf(),
        ensures
            r.wf(),
            r.fixed@.len() == 0,
            r.variable == Some(v),
    {
        UnifiedMemory { fixed: Vec::new(), variable: Some(v) }
    }

    /// Adds a fixed segment under the given mode; refused when it overlaps
    /// a fixed segment already present. Returns (mode tag, segment index).
    pub fn add_fixed(&mut self, mem: FixedMemory, mode: Mode) -> (r: Result<
        (usize, usize),
        MemoryError,
    >)
        requires
            old(self).wf(),
            mem.wf(),
        ensures
            final(self).wf(),
            match r {
                Ok(idx) => {
                    &&& forall|j: int|
                        0 <= j < old(self).fixed@.len() ==> !segs_overlap(
                            old(self).fixed@[j],
                            mem,
                        )
                    &&& final(self).fixed@.len() == old(self).fixed@.len() + 1
                    &&& forall|j: int|
                        0 <= j < old(self).fixed@.len() ==> final(self).fixed@[j] == old(
                            self,
                        ).fixed@[j]
                    &&& final(self).fixed@.last().mode == mode
                    &&& final(self).fixed@.last().base == mem.base
                    &&& final(self).fixed@.last().words@ == mem.words@
                    &&& final(self).variable == old(self).variable
                    &&& idx == (spec_mode_tag(mode), old(self).fixed@.len() as usize)
                },
                Err(e) => {
                    &&& *final(self) == *old(self)
                    &&& e == MemoryError::SegmentOverlap
                    &&& exists|j: int|
                        0 <= j < old(self).fixed@.len() && segs_overlap(old(self).fixed@[j], mem)
                },
            },
    {
        let mut i: usize = 0;
        while i < self.fixed.len()
            invariant
                i <= self.fixed@.len(),
                forall|j: int| 0 <= j < i ==> !segs_overlap(self.fixed@[j], mem),
                mem.wf(),
                self.wf(),
            decreases self.fixed@.len() - i,
        {
            let s = &self.fixed[i];
            let s_end: u64 = s.base as u64 + 4u64 * (s.words.len() as u64);
            let m_end: u64 = mem.base as u64 + 4u64 * (mem.words.len() as u64);
            if !(s_end <= mem.base as u64 || m_end <= s.base as u64) {
                return Err(MemoryError::SegmentOverlap);
            }
            i = i + 1;
        }
        let idx = self.fixed.len();
        let tag = mode_tag(mode);
        let seg = FixedMemory { mode, base: mem.base, words: mem.words };
        self.fixed.push(seg);
        Ok((tag, idx))
    }

    /// What a load yields: the addressed part of the word in the first
    /// containing fixed segment, else of the backing memory, or the first
    /// applicable error.
    pub open spec fn spec_load(self, addr: u32, size: MemAccessSize) -> Result<u32, MemoryError> {
        if addr % size.spec_bytes() != 0 {
            Err(MemoryError::UnalignedAccess)
        } else {
            match find_fixed_from(self.fixed@, addr, 0) {
                Some(i) => if self.fixed@[i].mode.spec_readable() {
                    Ok(extract_part(self.fixed@[i].word_at(addr), addr % 4, size))
                } else {
                    Err(MemoryError::MemoryPermissionDenied)
                },
                None => match self.variable {
                    Some(v) => if v.mode.spec_readable() {
                        Ok(extract_part(v.word_or_zero((addr - addr % 4) as u32), addr % 4, size))
                    } else {
                        Err(MemoryError::MemoryPermissionDenied)
                    },
                    None => Err(MemoryError::MemoryOutOfBounds),
                },
            }
        }
    }

    /// The position of the first fixed segment containing the address.
    pub fn find_fixed(&self, addr: u32) -> (r: Option<usize>)
        requires
            self.wf(),
        ensures
            match r {
                Some(i) => 0 <= i < self.fixed@.len() && find_fixed_from(self.fixed@, addr, 0)
                    == Some(i as int),
                None => find_fixed_from(self.fixed@, addr, 0) is None,
            },
    {
        let mut i: usize = 0;
        while i < self.fixed.len()
            invariant
                i <= self.fixed@.len(),
                self.wf(),
                find_fixed_from(self.fixed@, addr, 0) == find_fixed_from(
                    self.fixed@,
                    addr,
                    i as int,
                ),
            decreases self.fixed@.len() - i,
        {
            if self.fixed[i].contains(addr) {
                return Some(i);
            }
            i = i + 1;
        }
        None
    }

    /// Loads a value of the given size from the address space.
    pub fn load(&self, addr: u32, size: MemAccessSize) -> (r: Result<(u32, LoadOp), MemoryError>)
        requires
            self.wf(),
        ensures
            match r {
                Ok((v, op)) => self.spec_load(addr, size) == Ok::<u32, MemoryError>(v) && op == (
                LoadOp { address: addr, size, value: v }),
                Err(e) => self.spec_load(addr, size) == Err::<u32, MemoryError>(e),
            },
    {
        if addr % size.bytes() != 0 {
            return Err(MemoryError::UnalignedAccess);
        }
        match self.find_fixed(addr) {
            Some(i) => {
                proof {
                    lemma_find_fixed_found(self.fixed@, addr, 0, i as int);
                }
                let seg = &self.fixed[i];
                if !seg.mode.readable() {
                    return Err(MemoryError::MemoryPermissionDenied);
                }
                let idx = ((addr - seg.base) / 4) as usize;
                let v = extract_part_exec(seg.words[idx], addr % 4, size);
                Ok((v, LoadOp { address: addr, size, value: v }))
            },
            None => {
                match &self.variable {
                    Some(v) => {
                        if !v.mode.readable() {
                            return Err(MemoryError::MemoryPermissionDenied);
                        }
                        let off = addr % 4;
                        let word = match v.find(addr - off) {
                            Some(i) => v.cells[i].1,
                            None => 0,
                        };
                        let val = extract_part_exec(word, off, size);
                        Ok((val, LoadOp { address: addr, size, value: val }))
                    },
                    None => Err(MemoryError::MemoryOutOfBounds),
                }
            },
        }
    }

    /// The error a store at this address would fail with, if any.
    pub open spec fn spec_store_err(self, addr: u32, size: MemAccessSize) -> Option<MemoryError> {
        if addr % size.spec_bytes() != 0 {
            Some(MemoryError::UnalignedAccess)
        } else {
            match find_fixed_from(self.fixed@, addr, 0) {
                Some(i) => if self.fixed@[i].mode.spec_writable() {
                    None
                } else {
                    Some(MemoryError::MemoryPermissionDenied)
                },
                None => match self.variable {
                    Some(v) => if v.mode.spec_writable() {
                        None
                    } else {
                        Some(MemoryError::MemoryPermissionDenied)
                    },
                    None => Some(MemoryError::MemoryOutOfBounds),
                },
            }
        }
    }

    /// The word a store at this address reads before rewriting it.
    pub open spec fn spec_word_before(self, addr: u32) -> u32 {
        match find_fixed_from(self.fixed@, addr, 0) {
            Some(i) => self.fixed@[i].word_at(addr),
            None => match self.variable {
                Some(v) => v.word_or_zero((addr - addr % 4) as u32),
                None => 0,
            },
        }
    }

    /// Stores a value of the given size into the address space. On success
    /// the containing word is rewritten where the address lives and the
    /// rest of the space is kept.
    pub fn store(&mut self, addr: u32, size: MemAccessSize, value: u32) -> (r: Result<
        StoreOp,
        MemoryError,
    >)
        requires
            old(self).wf(),
        ensures
            final(self).wf(),
            match r {
                Ok(op) => {
                    &&& old(self).spec_store_err(addr, size) is None
                    &&& op == (StoreOp {
                        address: addr,
                        size,
                        value: truncate_value(value, size),
                        prev_value: extract_part(old(self).spec_word_before(addr), addr % 4, size),
                    })
                    &&& (match find_fixed_from(old(self).fixed@, addr, 0) {
                        Some(i) => {
                            &&& final(self).variable == old(self).variable
                            &&& final(self).fixed@.len() == old(self).fixed@.len()
                            &&& forall|j: int|
                                0 <= j < old(self).fixed@.len() && j != i
                                    ==> final(self).fixed@[j] == old(self).fixed@[j]
                            &&& final(self).fixed@[i].mode == old(self).fixed@[i].mode
                            &&& final(self).fixed@[i].base == old(self).fixed@[i].base
                            &&& final(self).fixed@[i].words@ == old(self).fixed@[i].words@.update(
                                (addr as int - old(self).fixed@[i].base as int) / 4,
                                insert_part(old(self).fixed@[i].word_at(addr), addr % 4, size, value),
                            )
                        },
                        None => true,
                    })
                    &&& (find_fixed_from(old(self).fixed@, addr, 0) is None ==> {
                        &&& final(self).fixed@ == old(self).fixed@
                        &&& final(self).variable is Some
                        &&& old(self).variable is Some
                        &&& final(self).variable->0.mode == old(self).variable->0.mode
                        &&& final(self).variable->0.word_or_zero((addr - addr % 4) as u32)
                            == insert_part(
                            old(self).variable->0.word_or_zero((addr - addr % 4) as u32),
                            addr % 4,
                            size,
                            value,
                        )
                        &&& forall|w: u32|
                            w != ((addr - addr % 4) as u32)
                                ==> final(self).variable->0.word_or_zero(w) == old(self).variable->0.word_or_zero(w)
                    })
                },
                Err(e) => {
                    &&& *final(self) == *old(self)
                    &&& old(self).spec_store_err(addr, size) == Some(e)
                },
            },
    {
        if addr % size.bytes() != 0 {
            return Err(MemoryError::UnalignedAccess);
        }
        match self.find_fixed(addr) {
            Some(i) => {
                proof {
                    lemma_find_fixed_found(self.fixed@, addr, 0, i as int);
                }
                let ghost pre = self.fixed@;
                let seg_mode = self.fixed[i].mode;
                if !seg_mode.writable() {
                    return Err(MemoryError::MemoryPermissionDenied);
                }
                let base = self.fixed[i].base;
                let idx = ((addr - base) / 4) as usize;
                let word = self.fixed[i].words[idx];
                let prev = extract_part_exec(word, addr % 4, size);
                let new_word = insert_part_exec(word, addr % 4, size, value);
                let seg = &mut self.fixed[i];
                seg.words.set(idx, new_word);
                let stored = match size {
                    MemAccessSize::Byte => value % 0x100,
                    MemAccessSize::HalfWord => value % 0x10000,
                    MemAccessSize::Word => value,
                };
                Ok(StoreOp { address: addr, size, value: stored, prev_value: prev })
            },
            None => {
                match &mut self.variable {
                    Some(v) => {
                        let op = v.store(addr, size, value)?;
                        Ok(op)
                    },
                    None => Err(MemoryError::MemoryOutOfBounds),
                }
            },
        }
    }
}

} // verus!

verus! {

impl UnifiedMemory {
    /// Whether a segment index names a fixed segment of its tagged mode.
    pub open spec fn spec_index_valid(self, idx: (usize, usize)) -> bool {
        idx.1 < self.fixed@.len() && spec_mode_tag(self.fixed@[idx.1 as int].mode) == idx.0
    }

    /// Copies out the words of the indexed segment from `start` to `end`.
    pub fn segment(&self, idx: (usize, usize), start: u32, end: Option<u32>) -> (r: Result<
        Vec<u32>,
        MemoryError,
    >)
        requires
            self.wf(),
        ensures
            match r {
                Ok(ws) => self.spec_index_valid(idx) && ws@ == self.fixed@[idx.1 as int].spec_segment(
                    start,
                    end,
                ),
                Err(e) => !self.spec_index_valid(idx) && e == MemoryError::InvalidSegment,
            },
    {
        if idx.1 >= self.fixed.len() {
            return Err(MemoryError::InvalidSegment);
        }
        let seg = &self.fixed[idx.1];
        if mode_tag(seg.mode) != idx.0 {
            return Err(MemoryError::InvalidSegment);
        }
        Ok(seg.segment(start, end))
    }

    /// Copies out the bytes of the indexed segment from `start` to `end`.
    pub fn segment_bytes(&self, idx: (usize, usize), start: u32, end: Option<u32>) -> (r: Result<
        Vec<u8>,
        MemoryError,
    >)
        requires
            self.wf(),
        ensures
            match r {
                Ok(bs) => self.spec_index_valid(idx) && bs@ == bytes_of_words(
                    self.fixed@[idx.1 as int].spec_segment(start, end),
                ),
                Err(e) => !self.spec_index_valid(idx) && e == MemoryError::InvalidSegment,
            },
    {
        let ws = self.segment(idx, start, end)?;
        Ok(words_to_bytes(&ws))
    }

    /// The index of the first fixed segment with the given mode.
    pub fn first_index_with_mode(&self, mode: Mode) -> (r: Option<(usize, usize)>)
        requires
            self.wf(),
        ensures
            match r {
                Some(idx) => self.spec_index_valid(idx) && self.fixed@[idx.1 as int].mode == mode
                    && idx.0 == spec_mode_tag(mode) && find_mode_from(self.fixed@, mode, 0)
                    == Some(idx.1 as int),
                None => find_mode_from(self.fixed@, mode, 0) is None,
            },
    {
        let mut i: usize = 0;
        while i < self.fixed.len()
            invariant
                i <= self.fixed@.len(),
                find_mode_from(self.fixed@, mode, 0) == find_mode_from(
                    self.fixed@,
                    mode,
                    i as int,
                ),
            decreases self.fixed@.len() - i,
        {
            if self.fixed[i].mode == mode {
                return Some((mode_tag(mode), i));
            }
            i = i + 1;
        }
        None
    }
}

} // verus!
