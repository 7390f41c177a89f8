//! Stack allocation for kernel and user threads.
use vstd::prelude::*;
use crate::slot_bits::{SlotBits, bitvec_bits, bitvec_max_len, bitvec_new, bitvec_len, bitvec_get, bitvec_push, bitvec_set};
use super::{PAGE_SIZE, KERNEL_START_ADDR};

verus! {

/// The first index at or after `from` whose stack is free, or the number of
/// stacks if none is.
pub open spec fn first_free_from(bits: Seq<bool>, from: int) -> int
    decreases bits.len() - from,
{
    if from >= bits.len() {
        bits.len() as int
    } else if !bits[from] {
        from
    } else {
        first_free_from(bits, from + 1)
    }
}

/// Where the first free index lies.
proof fn lemma_first_free(bits: Seq<bool>, from: int)
    requires
        0 <= from,
    ensures
        ({
            let i = first_free_from(bits, from);
            &&& from <= i || i == bits.len()
            &&& i <= bits.len()
            &&& i < bits.len() ==> !bits[i]
            &&& forall|j: int| from <= j < i ==> bits[j]
        }),
    decreases bits.len() - from,
{
    if from < bits.len() && bits[from] {
        lemma_first_free(bits, from + 1);
    }
}

/// An individual stack on a kthread
#[derive(Debug, Clone, Copy, PartialEq, Eq, Structural)]
pub struct KThreadStack {
    /// The top of the stack
    top: u64,
    /// The index of the stack (for the allocator)
    index: usize,
}

impl KThreadStack {
    pub closed spec fn spec_top(&self) -> u64 {
        self.top
    }

    pub closed spec fn spec_index(&self) -> usize {
        self.index
    }

    /// The stack with the given top address and allocator index.
    pub fn new(top: u64, index: usize) -> (s: Self)
        ensures
            s.spec_top() == top,
            s.spec_index() == index,
    {
        KThreadStack { top, index }
    }

    /// Returns top of the stack
    pub fn top(&self) -> (r: u64)
        ensures
            r == self.spec_top(),
    {
        self.top
    }

    /// The index of the stack in its allocator.
    pub fn index(&self) -> (r: usize)
        ensures
            r == self.spec_index(),
    {
        self.index
    }
}

/// The addresses of a stack slot the allocator has reserved.
#[derive(Debug, Clone, Copy, PartialEq, Eq, Structural)]
pub struct StackSlot {
    /// The slot's index in the allocator.
    pub index: usize,
    /// The top of the stack (exclusive end; the stack grows down from here).
    pub top: u64,
    /// The guard page below the stack, left unmapped.
    pub guard: u64,
    /// The lowest usable address of the stack (the page above the guard).
    pub bottom: u64,
}

/// Allocates kernel stacks.
pub struct StackAllocator {
    /// The address to start from. The top of the first stack will be here
    root: u64,
    /// The size of each stack in pages, excluding the guard page
    stack_size: usize,
    /// Tracks whether the stack at index n exists or not. Stack 0 starts at
    /// the root, stack 1 starts at `root - (PAGE_SIZE * (stack_size + 1))`, etc
    stacks: SlotBits,
    /// Next index to allocate
    next_index: usize,
}

impl StackAllocator {
    pub closed spec fn spec_root(&self) -> u64 {
        self.root
    }

    pub closed spec fn spec_stack_size(&self) -> usize {
        self.stack_size
    }

    /// Which stack slots are in use.
    pub closed spec fn used(&self) -> Seq<bool> {
        bitvec_bits(self.stacks)
    }

    pub closed spec fn spec_next_index(&self) -> usize {
        self.next_index
    }

    /// The bytes a stack takes, guard page included.
    pub open spec fn spec_total_bytes(&self) -> int {
        (self.spec_stack_size() + 1) * PAGE_SIZE
    }

    /// The top address of the stack in slot `index`.
    pub open spec fn spec_top_addr(&self, index: int) -> int {
        self.spec_root() - index * self.spec_total_bytes()
    }

    /// The slot the next reservation takes.
    pub open spec fn spec_next_slot(&self) -> int {
        first_free_from(self.used(), self.spec_next_index() as int)
    }

    /// Whether the next reservation's addresses (those of the slot
    /// [`Self::spec_next_slot`]) stay page aligned and within the kernel half
    /// of the address space, and the slot within the bit-vector's length
    /// limit.
    pub open spec fn can_alloc_stack(&self) -> bool {
        &&& self.spec_root() % PAGE_SIZE == 0
        &&& self.spec_next_slot() + 1 <= bitvec_max_len()
        &&& self.spec_root() - (self.spec_next_slot() + 1) * self.spec_total_bytes() >= KERNEL_START_ADDR
    }

    /// Finds the slot the next reservation takes: the first free slot at or
    /// after the cursor, or a new slot past the last one.
    fn next_slot(&self) -> (r: usize)
        ensures
            r == self.spec_next_slot(),
            r <= self.used().len(),
    {
        let len = bitvec_len(&self.stacks);
        let mut i = self.next_index;
        proof {
            lemma_first_free(self.used(), self.next_index as int);
        }
        // If we dont find any usable stacks, add a new one at the end
        while i < len && bitvec_get(&self.stacks, i)
            invariant
                len == self.used().len(),
                self.next_index <= i || i == len || (self.next_index > len && i == self.next_index),
                first_free_from(self.used(), i as int) == first_free_from(
                    self.used(),
                    self.next_index as int,
                ),
            decreases len - i,
        {
            i = i + 1;
        }
        if i < len {
            i
        } else {
            len
        }
    }

    /// Creates a new `StackAllocator`
    pub fn new(root: u64, stack_size: usize) -> (a: StackAllocator)
        ensures
            a.spec_root() == root,
            a.spec_stack_size() == stack_size,
            a.used() == Seq::<bool>::empty(),
            a.spec_next_index() == 0,
    {
        StackAllocator { root, stack_size, stacks: bitvec_new(), next_index: 0 }
    }

    /// Whether another stack can be allocated (see [`Self::can_alloc_stack`]).
    pub fn has_room(&self) -> (r: bool)
        ensures
            r == self.can_alloc_stack(),
    {
        let slot = self.next_slot() as u64;
        if self.root % PAGE_SIZE != 0 || slot as u128 + 1 > (usize::MAX / 8) as u128 {
            return false;
        }
        let total = match (self.stack_size as u64).checked_add(1) {
            Some(n) => n.checked_mul(PAGE_SIZE),
            None => None,
        };
        let span = match total {
            Some(t) => (slot + 1).checked_mul(t),
            None => None,
        };
        match span {
            Some(sp) => {
                assert(sp == (self.spec_next_slot() + 1) * self.spec_total_bytes());
                sp <= self.root && self.root - sp >= KERNEL_START_ADDR
            },
            None => {
                proof {
                    lemma_span_exceeds(slot as int + 1, self.stack_size as int);
                }
                false
            },
        }
    }

    /// Whether the stack in slot `index` can be freed: the slot exists, is in
    /// use, and its addresses lie above address zero.
    pub fn can_free_stack(&self, index: usize) -> (r: bool)
        ensures
            r == (index < self.used().len() && self.used()[index as int] && (index + 1)
                * self.spec_total_bytes() <= self.spec_root()),
    {
        let len = bitvec_len(&self.stacks);
        if index >= len || !bitvec_get(&self.stacks, index) {
            return false;
        }
        let total = match (self.stack_size as u64).checked_add(1) {
            Some(n) => n.checked_mul(PAGE_SIZE),
            None => None,
        };
        let span = match total {
            Some(t) => (index as u64 + 1).checked_mul(t),
            None => None,
        };
        match span {
            Some(sp) => sp <= self.root,
            None => {
                proof {
                    lemma_span_exceeds(index as int + 1, self.stack_size as int);
                }
                false
            },
        }
    }

    /// Returns the total number of bytes used by a single stack, including the
    /// guard page
    fn total_bytes_per_stack(&self) -> (r: u64)
        requires
            self.spec_total_bytes() <= u64::MAX,
        ensures
            r == self.spec_total_bytes(),
    {
        (self.stack_size as u64 + 1) * PAGE_SIZE
    }

    fn top_addr(&self, index: usize) -> (r: u64)
        requires
            index * self.spec_total_bytes() <= self.spec_root(),
            self.spec_total_bytes() <= u64::MAX,
        ensures
            r == self.spec_top_addr(index as int),
    {
        let total = self.total_bytes_per_stack();
        self.root - (index as u64) * total
    }

    /// Reserves the first free stack slot at or after the allocation cursor
    /// (or a new slot past the last one), marks it used and moves the
    /// cursor past it. Mapping the slot's pages is left to the caller.
    pub fn alloc_stack(&mut self) -> (slot: StackSlot)
        requires
            old(self).can_alloc_stack(),
        ensures
            slot.index == old(self).spec_next_slot(),
            slot.top == old(self).spec_top_addr(slot.index as int),
            slot.guard == slot.top - old(self).spec_total_bytes(),
            slot.bottom == slot.guard + PAGE_SIZE,
            slot.top % PAGE_SIZE == 0 && slot.guard % PAGE_SIZE == 0,
            slot.guard >= KERNEL_START_ADDR,
            final(self).used() == if slot.index < old(self).used().len() {
                old(self).used().update(slot.index as int, true)
            } else {
                old(self).used().push(true)
            },
            final(self).spec_next_index() == slot.index + 1,
            final(self).spec_root() == old(self).spec_root(),
            final(self).spec_stack_size() == old(self).spec_stack_size(),
    {
        let len = bitvec_len(&self.stacks);
        let index = self.next_slot();
        let ghost total = self.spec_total_bytes();
        assert(index <= len);
        proof {
            lemma_factor_le(index + 1, total, self.root as int);
            lemma_stack_addr_aligned(self.root as int, index as int, self.stack_size as int);
            lemma_stack_addr_aligned(self.root as int, index as int + 1, self.stack_size as int);
            assert((index + 1) * total == index * total + total) by (nonlinear_arith);
        }
        let top_addr = self.top_addr(index);
        let total_bytes = self.total_bytes_per_stack();
        let guard_page_addr = top_addr - total_bytes;
        let bottom_addr = guard_page_addr + PAGE_SIZE;
        if index == len {
            bitvec_push(&mut self.stacks, true);
        } else {
            bitvec_set(&mut self.stacks, index, true);
        }
        self.next_index = index + 1;
        StackSlot { index, top: top_addr, guard: guard_page_addr, bottom: bottom_addr }
    }

    /// Releases a used stack slot, moving the allocation cursor back to it
    /// if it lies before the cursor. Returns the lowest and the top address
    /// of the stack's usable pages, for the caller to unmap.
    pub fn free_stack(&mut self, index: usize) -> (r: (u64, u64))
        requires
            index < old(self).used().len(),
            old(self).used()[index as int],
            (index + 1) * old(self).spec_total_bytes() <= old(self).spec_root(),
        ensures
            r.1 == old(self).spec_top_addr(index as int),
            r.0 == r.1 - old(self).spec_total_bytes() + PAGE_SIZE,
            final(self).used() == old(self).used().update(index as int, false),
            final(self).spec_next_index() == if index < old(self).spec_next_index() {
                index
            } else {
                old(self).spec_next_index()
            },
            final(self).spec_root() == old(self).spec_root(),
            final(self).spec_stack_size() == old(self).spec_stack_size(),
    {
        let ghost total = self.spec_total_bytes();
        proof {
            lemma_factor_le(index as int + 1, total, self.root as int);
            lemma_mul_mono(index as int, index as int + 1, total);
            assert((index + 1) * total == index * total + total) by (nonlinear_arith);
        }
        let top_addr = self.top_addr(index);
        let total_bytes = self.total_bytes_per_stack();
        let bottom_addr = top_addr - total_bytes + PAGE_SIZE;
        bitvec_set(&mut self.stacks, index, false);
        if index < self.next_index {
            self.next_index = index;
        }
        (bottom_addr, top_addr)
    }
}

/// A factor of at least one bounds the other factor.
proof fn lemma_factor_le(x: int, t: int, m: int)
    by (nonlinear_arith)
    requires
        x >= 1,
        t >= 0,
        x * t <= m,
    ensures
        t <= m,
{
}

/// Products grow with their first factor.
proof fn lemma_mul_mono(a: int, b: int, t: int)
    by (nonlinear_arith)
    requires
        0 <= a <= b,
        t >= 0,
    ensures
        a * t <= b * t,
{
}

/// Taking whole stacks off a page-aligned address keeps it page aligned.
proof fn lemma_stack_addr_aligned(root: int, index: int, stack_size: int)
    requires
        root % 4096 == 0,
        index >= 0,
        stack_size >= 0,
    ensures
        (root - index * ((stack_size + 1) * 4096)) % 4096 == 0,
{
    let k = index * (stack_size + 1);
    assert(index * ((stack_size + 1) * 4096) == k * 4096) by (nonlinear_arith)
        requires
            k == index * (stack_size + 1),
    ;
    assert((root - k * 4096) % 4096 == 0) by (nonlinear_arith)
        requires
            root % 4096 == 0,
    ;
}

/// When the bytes of `count` stacks do not fit a `u64`, they exceed any
/// root address.
proof fn lemma_span_exceeds(count: int, stack_size: int)
    requires
        count >= 1,
        stack_size >= 0,
        (stack_size + 1) * 4096 > u64::MAX || count * ((stack_size + 1) * 4096) > u64::MAX,
    ensures
        count * ((stack_size + 1) * 4096) > u64::MAX,
{
    assert(count * ((stack_size + 1) * 4096) >= (stack_size + 1) * 4096) by (nonlinear_arith)
        requires
            count >= 1,
            stack_size >= 0,
    ;
}

/// Releasing a stack slot before the allocation cursor makes it the next
/// slot reserved.
pub proof fn lemma_free_then_alloc_stack(used: Seq<bool>, next: int, index: int)
    requires
        0 <= index < used.len(),
        0 <= next,
        used[index],
    ensures
        first_free_from(used.update(index, false), if index < next { index } else { next })
            == if index < next { index } else { first_free_from(used.update(index, false), next) },
{
    let u = used.update(index, false);
    if index < next {
        assert(!u[index]);
    }
}

} // verus!
