//! The kernel heap: a bump allocator. It only frees memory when the whole
//! heap is free, or when the most recent allocation is freed.
//!
//! The allocator keeps the bookkeeping; mapping the pages an allocation
//! lands on is done by the kernel's paging layer.
use vstd::prelude::*;
use super::{KERNEL_START_ADDR, PAGE_SIZE};

verus! {

/// `align` is a power of two.
pub open spec fn is_pow2(align: u64) -> bool {
    align != 0 && align & ((align - 1) as u64) == 0
}

/// An allocation the heap handed out, and the pages it lies on (which must
/// be mapped before it is used).
#[derive(Clone, Copy, Debug, PartialEq, Eq, Structural)]
pub struct HeapAllocation {
    /// The allocation's first byte.
    pub start: u64,
    /// One past its last byte.
    pub end: u64,
    /// The start of the first page it touches.
    pub first_page: u64,
    /// The start of the last page it touches.
    pub last_page: u64,
}

/// The bump allocator's state, as plain values.
pub struct HeapView {
    pub heap_start: int,
    pub heap_end: int,
    pub allocations: int,
    pub last_alloc: int,
}

/// `x` rounded up to a power of two `align`, the way the allocator masks it.
pub open spec fn align_up(x: u64, align: u64) -> u64 {
    ((x + align - 1) as u64) & !((align - 1) as u64)
}

/// `x` rounded down to a page boundary.
pub open spec fn page_of(x: int) -> int {
    x - x % (PAGE_SIZE as int)
}

/// An allocation of `size` bytes aligned to `align`: it starts at the heap's
/// end rounded up to the alignment, the end moves past it, and it becomes
/// the most recent allocation.
pub open spec fn alloc_step(v: HeapView, size: u64, align: u64) -> (HeapView, HeapAllocation) {
    let start = align_up(v.heap_end as u64, align);
    let end = start + size;
    (
        HeapView { heap_end: end, allocations: v.allocations + 1, last_alloc: start as int, ..v },
        HeapAllocation {
            start,
            end: end as u64,
            first_page: page_of(start as int) as u64,
            last_page: page_of(end - 1) as u64,
        },
    )
}

/// Freeing the allocation at `ptr`: once nothing is allocated the heap is
/// empty again; freeing the most recent allocation moves the end back to
/// its start; any other free only counts.
pub open spec fn dealloc_step(v: HeapView, ptr: u64) -> HeapView {
    HeapView {
        allocations: v.allocations - 1,
        heap_end: if v.allocations == 1 {
            v.heap_start
        } else if v.last_alloc == ptr {
            v.last_alloc
        } else {
            v.heap_end
        },
        ..v
    }
}

/// The heap lies in the kernel half of the address space, its end is not
/// below its start, and while anything is allocated the most recent
/// allocation lies between them.
pub open spec fn heap_wf(v: HeapView) -> bool {
    &&& KERNEL_START_ADDR <= v.heap_start <= v.heap_end <= u64::MAX
    &&& v.allocations > 0 ==> v.heap_start <= v.last_alloc <= v.heap_end
    &&& 0 <= v.allocations <= u64::MAX
}

/// The bump allocator's state.
pub struct AllocatorInner {
    heap_start: u64,
    heap_end: u64,
    allocations: u64,
    last_alloc: u64,
}

impl View for AllocatorInner {
    type V = HeapView;

    closed spec fn view(&self) -> HeapView {
        HeapView {
            heap_start: self.heap_start as int,
            heap_end: self.heap_end as int,
            allocations: self.allocations as int,
            last_alloc: self.last_alloc as int,
        }
    }
}

/// Rounding `x` up to a power of two `a` with a mask gives the next multiple
/// of `a` at or above `x`.
pub proof fn lemma_align_up(x: u64, a: u64)
    requires
        is_pow2(a),
        x + a - 1 <= u64::MAX,
    ensures
        align_up(x, a) & ((a - 1) as u64) == 0,
        x <= align_up(x, a) <= x + a - 1,
{
    let m = (a - 1) as u64;
    let y = (x + m) as u64;
    assert((y & !m) & m == 0 && y & !m == y - (y & m) && y & m <= m) by (bit_vector);
}

impl AllocatorInner {
    /// The allocator's invariant holds.
    pub open spec fn wf(&self) -> bool {
        heap_wf(self@)
    }

    /// An empty heap starting at `heap_start` (in the kernel half).
    pub fn new(heap_start: u64) -> (r: AllocatorInner)
        requires
            KERNEL_START_ADDR <= heap_start,
        ensures
            r.wf(),
            r@ == (HeapView {
                heap_start: heap_start as int,
                heap_end: heap_start as int,
                allocations: 0,
                last_alloc: heap_start as int,
            }),
    {
        AllocatorInner {
            heap_start,
            heap_end: heap_start,
            allocations: 0,
            // Not used before the first allocation sets it
            last_alloc: heap_start,
        }
    }

    /// Allocates `size` bytes aligned to `align` at the end of the heap, and
    /// returns them with the pages they lie on.
    pub fn allocate(&mut self, size: u64, align: u64) -> (r: HeapAllocation)
        requires
            old(self).wf(),
            is_pow2(align),
            size > 0,
            old(self)@.heap_end + align - 1 + size <= u64::MAX,
            old(self)@.allocations < u64::MAX,
        ensures
            final(self).wf(),
            (final(self)@, r) == alloc_step(old(self)@, size, align),
            r.start & ((align - 1) as u64) == 0,
            old(self)@.heap_end <= r.start <= old(self)@.heap_end + align - 1,
    {
        proof {
            lemma_align_up(self.heap_end, align);
        }
        // Align the end of the heap up to what is needed
        let alloc_start = (self.heap_end + (align - 1)) & !(align - 1);
        assert(alloc_start == align_up(self.heap_end, align));
        let alloc_end = alloc_start + size;
        let first_page = alloc_start - alloc_start % PAGE_SIZE;
        let last_byte = alloc_end - 1;
        let last_page = last_byte - last_byte % PAGE_SIZE;
        self.heap_end = alloc_end;
        self.allocations = self.allocations + 1;
        self.last_alloc = alloc_start;
        HeapAllocation { start: alloc_start, end: alloc_end, first_page, last_page }
    }

    /// Frees the allocation at `ptr` (something must be allocated).
    pub fn dealloc(&mut self, ptr: u64)
        requires
            old(self).wf(),
            old(self)@.allocations > 0,
        ensures
            final(self).wf(),
            final(self)@ == dealloc_step(old(self)@, ptr),
    {
        self.allocations = self.allocations - 1;
        if self.allocations == 0 {
            self.heap_end = self.heap_start;
        } else if self.last_alloc == ptr {
            self.heap_end = self.last_alloc;
        }
    }

    /// Where the heap currently ends.
    pub fn heap_end(&self) -> (r: u64)
        ensures
            r == self@.heap_end,
    {
        self.heap_end
    }

    /// How many allocations are live.
    pub fn allocations(&self) -> (r: u64)
        ensures
            r == self@.allocations,
    {
        self.allocations
    }

    /// The current size of the heap in bytes.
    pub fn size(&self) -> (r: u64)
        requires
            self.wf(),
        ensures
            r == self@.heap_end - self@.heap_start,
    {
        self.heap_end - self.heap_start
    }
}

/// Freeing an allocation right after making it moves the heap's end back to
/// the allocation's start (the alignment padding before it stays used), or
/// empties the heap when nothing else was allocated.
pub proof fn lemma_free_latest(v: HeapView, size: u64, align: u64)
    requires
        heap_wf(v),
    ensures
        ({
            let (after, a) = alloc_step(v, size, align);
            let back = dealloc_step(after, a.start);
            &&& back.allocations == v.allocations
            &&& back.heap_end == if v.allocations == 0 {
                v.heap_start
            } else {
                a.start as int
            }
        }),
{
}

} // verus!
