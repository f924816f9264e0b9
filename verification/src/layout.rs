//! The unified address-space layout of the second pass, and the statistics
//! gathered during the first pass that shape it: the high-water mark of heap
//! accesses and the low-water mark of the stack pointer, both rounded to
//! word alignment.

use vstd::prelude::*;

use crate::memory::{LoadOp, StoreOp};

verus! {

/// Top of the stack region: the initial stack pointer of a fresh program.
pub const MEMORY_TOP: u32 = 0x8040_0000;

/// `x` rounded up to the next multiple of the word size.
pub open spec fn spec_word_align(x: u32) -> u32 {
    (((x + 3) / 4) * 4) as u32
}

/// `x` rounded up to the next multiple of the word size.
pub fn word_align(x: u32) -> (r: u32)
    requires
        x <= 0xFFFF_FFFC,
    ensures
        r == spec_word_align(x),
        r % 4 == 0,
        x <= r < x + 4,
{
    ((x + 3) / 4) * 4
}

/// Where each region of the one linear address space of the second pass
/// begins and ends. Regions are word aligned and stand in a fixed order:
/// program, public input, exit code and public output, heap, stack,
/// associated data.
#[derive(Clone, Copy, Debug, PartialEq, Eq)]
pub struct LinearMemoryLayout {
    pub program: u32,
    pub input_start: u32,
    pub input_end: u32,
    pub exit: u32,
    pub output_end: u32,
    pub heap_begin: u32,
    pub heap_finish: u32,
    pub stack_low: u32,
    pub stack_high: u32,
    pub ad_begin: u32,
    pub ad_finish: u32,
}

impl LinearMemoryLayout {
    /// Regions word aligned, ordered and within the address space.
    pub open spec fn wf(self) -> bool {
        &&& self.program % 4 == 0
        &&& self.input_start % 4 == 0
        &&& self.input_end % 4 == 0
        &&& self.exit % 4 == 0
        &&& self.output_end % 4 == 0
        &&& self.heap_begin % 4 == 0
        &&& self.heap_finish % 4 == 0
        &&& self.stack_low % 4 == 0
        &&& self.stack_high % 4 == 0
        &&& self.ad_begin % 4 == 0
        &&& self.ad_finish % 4 == 0
        &&& 0 < self.program
        &&& self.program <= self.input_start
        &&& self.input_start <= self.input_end
        &&& self.input_end <= self.exit
        &&& self.exit < self.output_end
        &&& self.output_end <= self.heap_begin
        &&& self.heap_begin <= self.heap_finish
        &&& self.heap_finish <= self.stack_low
        &&& self.stack_low <= self.stack_high
        &&& self.stack_high <= self.ad_begin
        &&& self.ad_begin <= self.ad_finish
    }

    /// Start of the program image.
    pub fn program_start(&self) -> (r: u32)
        ensures
            r == self.program,
    {
        self.program
    }

    /// Start of the public input region (its first word is the length).
    pub fn public_input_start(&self) -> (r: u32)
        ensures
            r == self.input_start,
    {
        self.input_start
    }

    /// End of the public input region.
    pub fn public_input_end(&self) -> (r: u32)
        ensures
            r == self.input_end,
    {
        self.input_end
    }

    /// The exit code word: the first word of the public output region.
    pub fn exit_code(&self) -> (r: u32)
        ensures
            r == self.exit,
    {
        self.exit
    }

    /// End of the public output region.
    pub fn public_output_end(&self) -> (r: u32)
        ensures
            r == self.output_end,
    {
        self.output_end
    }

    /// Start of the heap region.
    pub fn heap_start(&self) -> (r: u32)
        ensures
            r == self.heap_begin,
    {
        self.heap_begin
    }

    /// End of the heap region.
    pub fn heap_end(&self) -> (r: u32)
        ensures
            r == self.heap_finish,
    {
        self.heap_finish
    }

    /// Bottom of the stack region.
    pub fn stack_bottom(&self) -> (r: u32)
        ensures
            r == self.stack_low,
    {
        self.stack_low
    }

    /// Top of the stack region.
    pub fn stack_top(&self) -> (r: u32)
        ensures
            r == self.stack_high,
    {
        self.stack_high
    }

    /// Start of the associated data region.
    pub fn ad_start(&self) -> (r: u32)
        ensures
            r == self.ad_begin,
    {
        self.ad_begin
    }

    /// End of the associated data region.
    pub fn ad_end(&self) -> (r: u32)
        ensures
            r == self.ad_finish,
    {
        self.ad_finish
    }
}

impl Default for LinearMemoryLayout {
    /// A small fixed layout for direct testing: room for a program, an
    /// empty public input (its length word only), the exit code word, and
    /// modest heap and stack regions.
    fn default() -> (r: LinearMemoryLayout)
        ensures
            r.wf(),
            r == (LinearMemoryLayout {
                program: 0x1000,
                input_start: 0x100000,
                input_end: 0x100004,
                exit: 0x100004,
                output_end: 0x100008,
                heap_begin: 0x200000,
                heap_finish: 0x240000,
                stack_low: 0x300000,
                stack_high: 0x340000,
                ad_begin: 0x340000,
                ad_finish: 0x340000,
            }),
    {
        LinearMemoryLayout {
            program: 0x1000,
            input_start: 0x100000,
            input_end: 0x100004,
            exit: 0x100004,
            output_end: 0x100008,
            heap_begin: 0x200000,
            heap_finish: 0x240000,
            stack_low: 0x300000,
            stack_high: 0x340000,
            ad_begin: 0x340000,
            ad_finish: 0x340000,
        }
    }
}

/// The largest end address of the given operations that lie below the
/// stack pointer, starting from a floor.
pub open spec fn spec_heap_mark(addrs: Seq<(u32, u32)>, sp: u32, from: u32, k: int) -> int
    decreases addrs.len() - k,
{
    if k < 0 || k >= addrs.len() {
        from as int
    } else {
        let rest = spec_heap_mark(addrs, sp, from, k + 1);
        let e = if addrs[k].0 + addrs[k].1 > 0xFFFF_FFFF {
            0xFFFF_FFFF
        } else {
            addrs[k].0 + addrs[k].1
        };
        if addrs[k].0 < sp && e > rest {
            e
        } else {
            rest
        }
    }
}

/// The smallest address of the given operations at or above the stack
/// pointer, and of the stack pointer itself, starting from a ceiling.
pub open spec fn spec_stack_mark(addrs: Seq<(u32, u32)>, sp: u32, from: u32, k: int) -> int
    decreases addrs.len() - k,
{
    if k < 0 || k >= addrs.len() {
        if sp < from {
            sp as int
        } else {
            from as int
        }
    } else {
        let rest = spec_stack_mark(addrs, sp, from, k + 1);
        if addrs[k].0 >= sp && addrs[k].0 < rest {
            addrs[k].0 as int
        } else {
            rest
        }
    }
}

/// First-pass memory statistics: the highest heap byte touched and the
/// lowest stack byte touched, used to lay out the second pass's memory.
#[derive(Clone, Copy, Debug, PartialEq, Eq)]
pub struct MemoryStats {
    pub max_heap_access: u32,
    pub min_stack_access: u32,
}

impl MemoryStats {
    /// Fresh statistics: the heap mark starts at the end of static data,
    /// the stack mark at the top of memory.
    pub fn new(data_end: u32, memory_top: u32) -> (r: MemoryStats)
        ensures
            r == (MemoryStats { max_heap_access: data_end, min_stack_access: memory_top }),
    {
        MemoryStats { max_heap_access: data_end, min_stack_access: memory_top }
    }

    /// Folds one instruction's accesses into the marks: an access below the
    /// stack pointer raises the heap mark to its end, one at or above it
    /// lowers the stack mark to its address; the stack mark also follows
    /// the stack pointer itself.
    pub fn update(&mut self, load_ops: &Vec<LoadOp>, store_ops: &Vec<StoreOp>, sp: u32)
        ensures
            final(self).max_heap_access as int == spec_heap_mark(
                op_spans(load_ops@, store_ops@),
                sp,
                old(self).max_heap_access,
                0,
            ),
            final(self).min_stack_access as int == spec_stack_mark(
                op_spans(load_ops@, store_ops@),
                sp,
                old(self).min_stack_access,
                0,
            ),
    {
        let spans = collect_spans(load_ops, store_ops);
        let ghost all = op_spans(load_ops@, store_ops@);
        let mut heap: u32 = self.max_heap_access;
        let mut stack: u32 = if sp < self.min_stack_access {
            sp
        } else {
            self.min_stack_access
        };
        let mut i: usize = spans.len();
        proof {
            assert(spans@.subrange(0, spans@.len() as int) =~= all);
        }
        while i > 0
            invariant
                i <= spans@.len(),
                spans@ == all,
                heap as int == spec_heap_mark(all, sp, old(self).max_heap_access, i as int),
                stack as int == spec_stack_mark(all, sp, old(self).min_stack_access, i as int),
            decreases i,
        {
            i = i - 1;
            let (a, len) = spans[i];
            if a < sp {
                let e64: u64 = a as u64 + len as u64;
                let e: u32 = if e64 > 0xFFFF_FFFF {
                    0xFFFF_FFFFu32
                } else {
                    e64 as u32
                };
                if e > heap {
                    heap = e;
                }
            } else {
                if a < stack {
                    stack = a;
                }
            }
        }
        self.max_heap_access = heap;
        self.min_stack_access = stack;
    }
}

/// The (address, width) spans of the given operations, loads first.
pub open spec fn op_spans(loads: Seq<LoadOp>, stores: Seq<StoreOp>) -> Seq<(u32, u32)> {
    loads.map_values(|o: LoadOp| (o.address, o.size.spec_bytes())) + stores.map_values(
        |o: StoreOp| (o.address, o.size.spec_bytes()),
    )
}

/// Collects the (address, width) spans of the given operations.
fn collect_spans(load_ops: &Vec<LoadOp>, store_ops: &Vec<StoreOp>) -> (r: Vec<(u32, u32)>)
    ensures
        r@ == op_spans(load_ops@, store_ops@),
{
    let mut out: Vec<(u32, u32)> = Vec::new();
    let mut i: usize = 0;
    while i < load_ops.len()
        invariant
            i <= load_ops@.len(),
            out@ == load_ops@.subrange(0, i as int).map_values(
                |o: LoadOp| (o.address, o.size.spec_bytes()),
            ),
        decreases load_ops@.len() - i,
    {
        let ghost pre = out@;
        out.push((load_ops[i].address, load_ops[i].size.bytes()));
        i = i + 1;
        proof {
            assert(load_ops@.subrange(0, i as int) =~= load_ops@.subrange(0, i as int - 1).push(
                load_ops@[i as int - 1],
            ));
            assert(load_ops@.subrange(0, i as int).map_values(
                |o: LoadOp| (o.address, o.size.spec_bytes()),
            ) =~= pre.push((load_ops@[i as int - 1].address, load_ops@[i as int - 1].size.spec_bytes())));
        }
    }
    let mut j: usize = 0;
    while j < store_ops.len()
        invariant
            j <= store_ops@.len(),
            out@ == load_ops@.map_values(|o: LoadOp| (o.address, o.size.spec_bytes()))
                + store_ops@.subrange(0, j as int).map_values(
                |o: StoreOp| (o.address, o.size.spec_bytes()),
            ),
        decreases store_ops@.len() - j,
    {
        let ghost pre = out@;
        out.push((store_ops[j].address, store_ops[j].size.bytes()));
        j = j + 1;
        proof {
            assert(store_ops@.subrange(0, j as int) =~= store_ops@.subrange(0, j as int - 1).push(
                store_ops@[j as int - 1],
            ));
            assert(store_ops@.subrange(0, j as int).map_values(
                |o: StoreOp| (o.address, o.size.spec_bytes()),
            ) =~= store_ops@.subrange(0, j as int - 1).map_values(
                |o: StoreOp| (o.address, o.size.spec_bytes()),
            ).push((store_ops@[j as int - 1].address, store_ops@[j as int - 1].size.spec_bytes())));
            assert(pre.push((store_ops@[j as int - 1].address, store_ops@[j as int - 1].size.spec_bytes()))
                =~= load_ops@.map_values(|o: LoadOp| (o.address, o.size.spec_bytes()))
                + store_ops@.subrange(0, j as int).map_values(
                |o: StoreOp| (o.address, o.size.spec_bytes()),
            ));
        }
    }
    proof {
        assert(load_ops@.subrange(0, load_ops@.len() as int) =~= load_ops@);
        if store_ops@.len() == 0 {
            assert(out@ =~= op_spans(load_ops@, store_ops@));
        }
    }
    out
}

} // verus!

verus! {

/// `x` rounded up to the next multiple of the word size, over integers.
pub open spec fn align4(x: int) -> int {
    ((x + 3) / 4) * 4
}

/// The larger of two integers.
pub open spec fn int_max(a: int, b: int) -> int {
    if a >= b {
        a
    } else {
        b
    }
}

/// Where the optimized layout's last region would end.
pub open spec fn spec_layout_end(
    stats: MemoryStats,
    program_size: u32,
    ad_size: u32,
    input_size: u32,
    output_size: u32,
) -> int {
    let input_start = align4(0x1000 + program_size as int);
    let input_end = input_start + align4(input_size as int + 4);
    let output_end = input_end + 4 + align4(output_size as int);
    let heap_finish = int_max(align4(stats.max_heap_access as int), output_end);
    let stack_low = int_max(
        stats.min_stack_access - stats.min_stack_access % 4,
        heap_finish,
    );
    let stack_high = int_max(stack_low, MEMORY_TOP as int);
    stack_high + align4(ad_size as int)
}

impl MemoryStats {
    /// Lays out the second pass's address space from the first pass's
    /// statistics: program, public input, exit code and output, a heap
    /// reaching the observed high-water mark, a stack reaching down to the
    /// observed low-water mark, then associated data. Yields nothing when
    /// the regions do not fit in the 32-bit address space.
    #[verifier::rlimit(100)]
    #[verifier::spinoff_prover]
    pub fn create_optimized_layout(
        &self,
        program_size: u32,
        ad_size: u32,
        input_size: u32,
        output_size: u32,
    ) -> (r: Option<LinearMemoryLayout>)
        ensures
            match r {
                Some(l) => {
                    &&& spec_layout_end(*self, program_size, ad_size, input_size, output_size)
                        < 0x1_0000_0000
                    &&& l.wf()
                    &&& l.program == 0x1000
                    &&& l.input_start == align4(0x1000 + program_size as int)
                    &&& l.input_end == l.input_start + align4(input_size as int + 4)
                    &&& l.exit == l.input_end
                    &&& l.output_end == l.exit + 4 + align4(output_size as int)
                    &&& l.heap_begin == l.output_end
                    &&& l.heap_finish == int_max(align4(self.max_heap_access as int), l.heap_begin as int)
                    &&& l.stack_low == int_max(
                        self.min_stack_access - self.min_stack_access % 4,
                        l.heap_finish as int,
                    )
                    &&& l.stack_high == int_max(l.stack_low as int, MEMORY_TOP as int)
                    &&& l.ad_begin == l.stack_high
                    &&& l.ad_finish == l.ad_begin + align4(ad_size as int)
                },
                None => spec_layout_end(*self, program_size, ad_size, input_size, output_size)
                    >= 0x1_0000_0000,
            },
    {
        let program: u64 = 0x1000;
        let input_start: u64 = ((program + program_size as u64 + 3) / 4) * 4;
        let input_end: u64 = input_start + ((input_size as u64 + 4 + 3) / 4) * 4;
        let exit: u64 = input_end;
        let output_end: u64 = exit + 4 + ((output_size as u64 + 3) / 4) * 4;
        let heap_begin: u64 = output_end;
        let aligned_heap: u64 = ((self.max_heap_access as u64 + 3) / 4) * 4;
        let heap_finish: u64 = if aligned_heap >= heap_begin {
            aligned_heap
        } else {
            heap_begin
        };
        let stack_floor: u64 = self.min_stack_access as u64 - (self.min_stack_access as u64) % 4;
        let stack_low: u64 = if stack_floor >= heap_finish {
            stack_floor
        } else {
            heap_finish
        };
        let stack_high: u64 = if stack_low >= MEMORY_TOP as u64 {
            stack_low
        } else {
            MEMORY_TOP as u64
        };
        let ad_begin: u64 = stack_high;
        let ad_finish: u64 = ad_begin + ((ad_size as u64 + 3) / 4) * 4;
        if ad_finish > 0x1_0000_0000u64 {
            return None;
        }
        if ad_finish == 0x1_0000_0000u64 {
            return None;
        }
        Some(
            LinearMemoryLayout {
                program: program as u32,
                input_start: input_start as u32,
                input_end: input_end as u32,
                exit: exit as u32,
                output_end: output_end as u32,
                heap_begin: heap_begin as u32,
                heap_finish: heap_finish as u32,
                stack_low: stack_low as u32,
                stack_high: stack_high as u32,
                ad_begin: ad_begin as u32,
                ad_finish: ad_finish as u32,
            },
        )
    }
}

} // verus!

verus! {

/// The optimized layout as a value, defined when its end stays within the
/// 32-bit address space.
pub open spec fn spec_optimized_layout(
    stats: MemoryStats,
    program_size: u32,
    ad_size: u32,
    input_size: u32,
    output_size: u32,
) -> LinearMemoryLayout {
    let input_start = align4(0x1000 + program_size as int);
    let input_end = input_start + align4(input_size as int + 4);
    let output_end = input_end + 4 + align4(output_size as int);
    let heap_finish = int_max(align4(stats.max_heap_access as int), output_end);
    let stack_low = int_max(stats.min_stack_access - stats.min_stack_access % 4, heap_finish);
    let stack_high = int_max(stack_low, MEMORY_TOP as int);
    LinearMemoryLayout {
        program: 0x1000,
        input_start: input_start as u32,
        input_end: input_end as u32,
        exit: input_end as u32,
        output_end: output_end as u32,
        heap_begin: output_end as u32,
        heap_finish: heap_finish as u32,
        stack_low: stack_low as u32,
        stack_high: stack_high as u32,
        ad_begin: stack_high as u32,
        ad_finish: (stack_high + align4(ad_size as int)) as u32,
    }
}

/// The layout the optimizer yields is exactly the named one.
pub proof fn lemma_optimized_layout_fields(
    stats: MemoryStats,
    program_size: u32,
    ad_size: u32,
    input_size: u32,
    output_size: u32,
    l: LinearMemoryLayout,
)
    requires
        spec_layout_end(stats, program_size, ad_size, input_size, output_size) < 0x1_0000_0000,
        l.wf(),
        l.program == 0x1000,
        l.input_start == align4(0x1000 + program_size as int),
        l.input_end == l.input_start + align4(input_size as int + 4),
        l.exit == l.input_end,
        l.output_end == l.exit + 4 + align4(output_size as int),
        l.heap_begin == l.output_end,
        l.heap_finish == int_max(align4(stats.max_heap_access as int), l.heap_begin as int),
        l.stack_low == int_max(
            stats.min_stack_access - stats.min_stack_access % 4,
            l.heap_finish as int,
        ),
        l.stack_high == int_max(l.stack_low as int, MEMORY_TOP as int),
        l.ad_begin == l.stack_high,
        l.ad_finish == l.ad_begin + align4(ad_size as int),
    ensures
        l == spec_optimized_layout(stats, program_size, ad_size, input_size, output_size),
{
}

} // verus!
