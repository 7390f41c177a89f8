//! Physical page (frame) allocation.
//!
//! Frames are named by their physical start address; a frame's index is that
//! address divided by the page size. The page-table side of paging (mapping
//! pages, reading CR3) is done by the kernel's hardware layer; this module
//! keeps the bookkeeping: which frames the firmware reports as usable, and the
//! per-frame reference counts of the page allocator.
use vstd::prelude::*;
use super::PAGE_SIZE;

verus! {

/// One past the largest physical address: x86_64 physical addresses have 52
/// bits.
pub const PHYS_ADDR_LIMIT: u64 = 0x10_0000_0000_0000;

/// What a region of physical memory is used for, as the bootloader reports
/// it.
#[derive(Clone, Copy, Debug, PartialEq, Eq, Structural)]
pub enum MemoryRegionKind {
    /// Unused conventional memory, free for the kernel.
    Usable,
    /// Memory the bootloader set up (page tables, boot info).
    Bootloader,
    /// A region the UEFI firmware reported, with its memory type tag.
    UnknownUefi(u32),
    /// A region the BIOS reported, with its E820 memory type.
    UnknownBios(u32),
}

impl MemoryRegionKind {
    /// Whether the region is free for the kernel to use.
    pub fn is_usable(&self) -> (r: bool)
        ensures
            r == (*self == MemoryRegionKind::Usable),
    {
        match self {
            MemoryRegionKind::Usable => true,
            _ => false,
        }
    }
}

/// A region of physical memory: `start` inclusive, `end` exclusive.
#[derive(Clone, Copy, Debug, PartialEq, Eq, Structural)]
pub struct MemoryRegion {
    pub start: u64,
    pub end: u64,
    pub kind: MemoryRegionKind,
}

/// The frames `first..=last`, by start address (empty when `first > last`).
#[derive(Clone, Copy, Debug, PartialEq, Eq, Structural)]
pub struct FrameRangeInclusive {
    pub first: u64,
    pub last: u64,
}

/// The frames `start..end`, by start address (`end` excluded).
#[derive(Clone, Copy, Debug, PartialEq, Eq, Structural)]
pub struct FrameRange {
    pub start: u64,
    pub end: u64,
}

/// `x` rounded up to a page boundary.
pub open spec fn align_up(x: int) -> int {
    if x % (PAGE_SIZE as int) == 0 {
        x
    } else {
        x - x % (PAGE_SIZE as int) + PAGE_SIZE
    }
}

/// `x` rounded down to a page boundary.
pub open spec fn align_down(x: int) -> int {
    x - x % (PAGE_SIZE as int)
}

/// A region the frame walk accepts: ordered, inside physical address space,
/// and not a non-empty sliver of the first page (whose last frame would lie
/// below address zero).
pub open spec fn region_valid(r: MemoryRegion) -> bool {
    &&& r.start <= r.end < PHYS_ADDR_LIMIT
    &&& r.end < PAGE_SIZE ==> r.start == 0
}

/// The frames lying wholly inside a region, or `None` when its rounded ends
/// meet.
pub open spec fn region_frames(r: MemoryRegion) -> Option<FrameRangeInclusive> {
    let s = align_up(r.start as int);
    let e = align_down(r.end as int);
    if s == e {
        None
    } else {
        Some(FrameRangeInclusive { first: s as u64, last: (e - PAGE_SIZE) as u64 })
    }
}

/// How many frames an inclusive range holds.
pub open spec fn range_len(r: FrameRangeInclusive) -> nat {
    if r.first <= r.last {
        ((r.last - r.first) / (PAGE_SIZE as int) + 1) as nat
    } else {
        0
    }
}

/// The frames of an inclusive range, in order.
pub open spec fn range_frames(r: FrameRangeInclusive) -> Seq<u64> {
    Seq::new(range_len(r), |i: int| (r.first + i * PAGE_SIZE) as u64)
}

/// The frames one region contributes to the usable set.
pub open spec fn usable_in(r: MemoryRegion) -> Seq<u64> {
    if r.kind == MemoryRegionKind::Usable {
        match region_frames(r) {
            Some(fr) => range_frames(fr),
            None => Seq::empty(),
        }
    } else {
        Seq::empty()
    }
}

/// All usable frames of a region list, region by region.
pub open spec fn usable_frames(regions: Seq<MemoryRegion>) -> Seq<u64>
    decreases regions.len(),
{
    if regions.len() == 0 {
        Seq::empty()
    } else {
        usable_frames(regions.drop_last()) + usable_in(regions.last())
    }
}

/// Every region of the list is valid.
pub open spec fn regions_valid(regions: Seq<MemoryRegion>) -> bool {
    forall|i: int| 0 <= i < regions.len() ==> region_valid(#[trigger] regions[i])
}

/// The usable frames of two lists laid end to end are those of the first,
/// then those of the second.
pub proof fn lemma_usable_concat(a: Seq<MemoryRegion>, b: Seq<MemoryRegion>)
    ensures
        usable_frames(a + b) == usable_frames(a) + usable_frames(b),
    decreases b.len(),
{
    if b.len() == 0 {
        assert(a + b =~= a);
        assert(usable_frames(a) + usable_frames(b) =~= usable_frames(a));
    } else {
        assert((a + b).drop_last() =~= a + b.drop_last());
        assert((a + b).last() == b.last());
        lemma_usable_concat(a, b.drop_last());
        assert(usable_frames(a) + (usable_frames(b.drop_last()) + usable_in(b.last()))
            =~= (usable_frames(a) + usable_frames(b.drop_last())) + usable_in(b.last()));
    }
}

/// Returns all frames that are fully contained within the given region, or
/// `None` when its start rounded up meets its end rounded down.
pub fn get_frames_from_region(region: &MemoryRegion) -> (r: Option<FrameRangeInclusive>)
    requires
        region_valid(*region),
    ensures
        r == region_frames(*region),
{
    let mut start = region.start;
    let mut end = region.end;

    let start_mod = start % PAGE_SIZE;
    if start_mod != 0 {
        start = start + (PAGE_SIZE - start_mod);
    }
    let end_mod = end % PAGE_SIZE;
    if end_mod != 0 {
        end = end - end_mod;
    }
    if start == end {
        return None;
    }
    Some(FrameRangeInclusive { first: start, last: end - PAGE_SIZE })
}

/// Frames in a range of page-aligned frames, as a count.
fn frame_count(fr: &FrameRangeInclusive) -> (n: u64)
    requires
        fr.last < PHYS_ADDR_LIMIT,
    ensures
        n == range_len(*fr),
        n <= PHYS_ADDR_LIMIT,
{
    if fr.first <= fr.last {
        (fr.last - fr.first) / PAGE_SIZE + 1
    } else {
        0
    }
}

/// The `n`-th usable frame of the region list, if there are that many.
pub fn nth_usable_frame(regions: &Vec<MemoryRegion>, n: u64) -> (r: Option<u64>)
    requires
        regions_valid(regions@),
    ensures
        r == (if n < usable_frames(regions@).len() {
            Some(usable_frames(regions@)[n as int])
        } else {
            None::<u64>
        }),
{
    let mut remaining = n;
    let mut idx: usize = 0;
    while idx < regions.len()
        invariant
            idx <= regions.len(),
            regions_valid(regions@),
            usable_frames(regions@.take(idx as int)).len() <= n,
            remaining == n - usable_frames(regions@.take(idx as int)).len(),
        decreases regions.len() - idx,
    {
        let ghost before = regions@.take(idx as int);
        proof {
            assert(regions@.take(idx + 1).drop_last() =~= before);
            assert(regions@.take(idx + 1).last() == regions@[idx as int]);
            assert(region_valid(regions@[idx as int]));
        }
        let region = &regions[idx];
        if region.kind == MemoryRegionKind::Usable {
            if let Some(fr) = get_frames_from_region(region) {
                let c = frame_count(&fr);
                if remaining < c {
                    let off = remaining;
                    proof {
                        assert(off * PAGE_SIZE <= fr.last - fr.first) by (nonlinear_arith)
                            requires
                                off < c,
                                c == (fr.last - fr.first) / (PAGE_SIZE as int) + 1,
                                fr.first <= fr.last,
                        ;
                        let all = regions@;
                        assert(all =~= regions@.take(idx + 1) + all.skip(idx + 1));
                        lemma_usable_concat(regions@.take(idx + 1), all.skip(idx + 1));
                        assert(usable_frames(regions@.take(idx + 1)) == usable_frames(before)
                            + range_frames(fr));
                        let k = n as int;
                        assert(usable_frames(all)[k] == range_frames(fr)[off as int]);
                    }
                    return Some(fr.first + off * PAGE_SIZE);
                }
                remaining = remaining - c;
            }
        }
        idx = idx + 1;
    }
    proof {
        assert(regions@.take(regions@.len() as int) =~= regions@);
    }
    None
}

/// Hands out the usable frames one after another, before the page allocator
/// exists: it only counts how many it has handed out.
pub struct BasicAllocator {
    pub regions: Vec<MemoryRegion>,
    pub alloced: usize,
}

impl BasicAllocator {
    /// The allocator's regions are valid, it has handed out no more frames
    /// than there are, and the count of usable frames fits its counter.
    pub open spec fn wf(&self) -> bool {
        &&& regions_valid(self.regions@)
        &&& self.alloced <= usable_frames(self.regions@).len()
        &&& usable_frames(self.regions@).len() <= usize::MAX
    }

    /// The usable frames not handed out yet, in order.
    pub open spec fn remaining(&self) -> Seq<u64> {
        usable_frames(self.regions@).skip(self.alloced as int)
    }

    /// Creates an allocator that has handed out nothing.
    pub fn new(regions: Vec<MemoryRegion>) -> (r: BasicAllocator)
        requires
            regions_valid(regions@),
            usable_frames(regions@).len() <= usize::MAX,
        ensures
            r.wf(),
            r.regions@ == regions@,
            r.alloced == 0,
    {
        BasicAllocator { regions, alloced: 0 }
    }

    /// Hands out the next usable frame, or `None` once all are gone.
    pub fn allocate_frame(&mut self) -> (r: Option<u64>)
        requires
            old(self).wf(),
        ensures
            final(self).wf(),
            final(self).regions@ == old(self).regions@,
            match r {
                Some(f) => {
                    &&& old(self).alloced < usable_frames(old(self).regions@).len()
                    &&& f == usable_frames(old(self).regions@)[old(self).alloced as int]
                    &&& final(self).alloced == old(self).alloced + 1
                },
                None => {
                    &&& old(self).alloced == usable_frames(old(self).regions@).len()
                    &&& final(self).alloced == old(self).alloced
                },
            },
    {
        match nth_usable_frame(&self.regions, self.alloced as u64) {
            Some(f) => {
                self.alloced = self.alloced + 1;
                Some(f)
            },
            None => None,
        }
    }
}


/// The type of a physical frame's reference count.
pub type PageRefCount = u8;

/// The free frames of a reference-count table.
pub open spec fn count_free(counts: Seq<u8>) -> nat
    decreases counts.len(),
{
    if counts.len() == 0 {
        0
    } else {
        count_free(counts.drop_last()) + if counts.last() == 0 {
            1nat
        } else {
            0nat
        }
    }
}

/// Overwriting one count changes the number of free frames by what was and
/// what is now written there.
pub proof fn lemma_count_free_update(counts: Seq<u8>, i: int, v: u8)
    requires
        0 <= i < counts.len(),
    ensures
        count_free(counts.update(i, v)) + (if counts[i] == 0 { 1int } else { 0int })
            == count_free(counts) + (if v == 0 { 1int } else { 0int }),
    decreases counts.len(),
{
    let u = counts.update(i, v);
    if i == counts.len() - 1 {
        assert(u.drop_last() =~= counts.drop_last());
    } else {
        assert(u.drop_last() =~= counts.drop_last().update(i, v));
        lemma_count_free_update(counts.drop_last(), i, v);
    }
}

/// No more frames are free than there are frames.
pub proof fn lemma_count_free_bound(counts: Seq<u8>)
    ensures
        count_free(counts) <= counts.len(),
    decreases counts.len(),
{
    if counts.len() > 0 {
        lemma_count_free_bound(counts.drop_last());
    }
}

/// The reference counts a fresh page allocator starts with, over `n` frames,
/// given the usable frames still unclaimed: walking the frames in order with
/// a cursor into that list, a frame equal to the cursor's frame is free (and
/// the cursor moves on), any other is taken. The second component is the
/// cursor's final position.
pub open spec fn mark_usable(n: nat, frames: Seq<u64>) -> (Seq<u8>, nat)
    decreases n,
{
    if n == 0 {
        (Seq::empty(), 0)
    } else {
        let (c, j) = mark_usable((n - 1) as nat, frames);
        if j < frames.len() && frames[j as int] == (n - 1) * PAGE_SIZE {
            (c.push(0u8), j + 1)
        } else {
            (c.push(1u8), j)
        }
    }
}

/// The frames are page-aligned and in strictly increasing order.
pub open spec fn frames_sorted(frames: Seq<u64>) -> bool {
    &&& forall|a: int, b: int| 0 <= a < b < frames.len() ==> frames[a] < frames[b]
    &&& forall|a: int| 0 <= a < frames.len() ==> #[trigger] frames[a] % PAGE_SIZE == 0
}

proof fn lemma_mark_usable_inner(n: nat, frames: Seq<u64>)
    requires
        frames_sorted(frames),
    ensures
        mark_usable(n, frames).0.len() == n,
        mark_usable(n, frames).1 <= frames.len(),
        forall|k: int| 0 <= k < mark_usable(n, frames).1 ==> frames[k] < n * PAGE_SIZE,
        mark_usable(n, frames).1 < frames.len() ==> frames[mark_usable(n, frames).1 as int]
            >= n * PAGE_SIZE,
        forall|i: int|
            0 <= i < n ==> (#[trigger] mark_usable(n, frames).0[i] == 0 <==> exists|k: int|
                0 <= k < mark_usable(n, frames).1 && frames[k] == i * PAGE_SIZE),
    decreases n,
{
    if n > 0 {
        let m = (n - 1) as nat;
        lemma_mark_usable_inner(m, frames);
        let (c, j) = mark_usable(m, frames);
        let f = m * PAGE_SIZE;
        if j < frames.len() && frames[j as int] == f {
            if j + 1 < frames.len() {
                let x = frames[(j + 1) as int];
                assert(x > frames[j as int]);
                assert(x % PAGE_SIZE == 0);
                assert(x >= n * PAGE_SIZE);
            }
            assert forall|i: int| 0 <= i < n implies (#[trigger] mark_usable(n, frames).0[i] == 0
                <==> exists|k: int| 0 <= k < j + 1 && frames[k] == i * PAGE_SIZE) by {
                if i < m {
                    assert(mark_usable(n, frames).0[i] == c[i]);
                    if exists|k: int| 0 <= k < j + 1 && frames[k] == i * PAGE_SIZE {
                        let k = choose|k: int| 0 <= k < j + 1 && frames[k] == i * PAGE_SIZE;
                        assert(k != j);
                    }
                } else {
                    assert(frames[j as int] == i * PAGE_SIZE);
                }
            }
        } else {
            if j < frames.len() {
                let x = frames[j as int];
                assert(x % PAGE_SIZE == 0);
                assert(x >= n * PAGE_SIZE);
            }
            assert forall|i: int| 0 <= i < n implies (#[trigger] mark_usable(n, frames).0[i] == 0
                <==> exists|k: int| 0 <= k < j && frames[k] == i * PAGE_SIZE) by {
                if i < m {
                    assert(mark_usable(n, frames).0[i] == c[i]);
                } else {
                    if exists|k: int| 0 <= k < j && frames[k] == i * PAGE_SIZE {
                        let k = choose|k: int| 0 <= k < j && frames[k] == i * PAGE_SIZE;
                        assert(frames[k] < m * PAGE_SIZE);
                    }
                }
            }
        }
    }
}

/// A fresh allocator built over sorted, page-aligned usable frames marks a
/// frame free exactly when it is one of those frames.
pub proof fn lemma_mark_usable(n: nat, frames: Seq<u64>)
    requires
        frames_sorted(frames),
    ensures
        mark_usable(n, frames).0.len() == n,
        forall|i: int|
            0 <= i < n ==> (#[trigger] mark_usable(n, frames).0[i] == 0 <==> exists|k: int|
                0 <= k < frames.len() && frames[k] == i * PAGE_SIZE),
{
    lemma_mark_usable_inner(n, frames);
    let (c, j) = mark_usable(n, frames);
    assert forall|i: int| 0 <= i < n implies (#[trigger] c[i] == 0 <==> exists|k: int|
        0 <= k < frames.len() && frames[k] == i * PAGE_SIZE) by {
        if exists|k: int| 0 <= k < frames.len() && frames[k] == i * PAGE_SIZE {
            let k = choose|k: int| 0 <= k < frames.len() && frames[k] == i * PAGE_SIZE;
            if k > j {
                assert(frames[j as int] < frames[k]);
            }
        }
    }
}

/// A page count times the page size, as a plain multiple.
proof fn lemma_page_bytes(x: int)
    ensures
        PAGE_SIZE * x == 4096 * x,
        x * PAGE_SIZE == 4096 * x,
{
}

/// The bookkeeping of the page allocator, as plain values.
pub struct PageAllocatorView {
    /// One reference count per frame, by frame index.
    pub counts: Seq<u8>,
    /// Where the next single-frame search starts.
    pub next_alloc: int,
    /// The bytes of the free frames.
    pub avail: int,
}

/// The first free frame at or after index `from`.
pub open spec fn first_free_from(counts: Seq<u8>, from: int) -> Option<int>
    decreases counts.len() - from,
{
    if from < 0 || from >= counts.len() {
        None
    } else if counts[from] == 0 {
        Some(from)
    } else {
        first_free_from(counts, from + 1)
    }
}

/// The frames `start..start + n` are all free.
pub open spec fn window_free(counts: Seq<u8>, start: int, n: int) -> bool {
    forall|k: int| start <= k < start + n ==> #[trigger] counts[k] == 0
}

/// The first `n` consecutive free frames at or after index `from`.
pub open spec fn first_free_window(counts: Seq<u8>, n: int, from: int) -> Option<int>
    decreases counts.len() - from,
{
    if from < 0 || from + n > counts.len() {
        None
    } else if window_free(counts, from, n) {
        Some(from)
    } else {
        first_free_window(counts, n, from + 1)
    }
}

/// The counts with frames `start..start + n` taken.
pub open spec fn take_range(counts: Seq<u8>, start: int, n: int) -> Seq<u8> {
    Seq::new(counts.len(), |k: int| if start <= k < start + n { 1u8 } else { counts[k] })
}

/// The allocator's invariant: every count is 0 or 1, the frame addresses
/// (one past the last included) are valid physical addresses, twice the
/// managed bytes fit a `usize`, and the available bytes are exactly the
/// bytes of the free frames.
pub open spec fn allocator_wf(v: PageAllocatorView) -> bool {
    &&& v.counts.len() * PAGE_SIZE < PHYS_ADDR_LIMIT
    &&& 2 * v.counts.len() * PAGE_SIZE <= usize::MAX
    &&& forall|i: int| 0 <= i < v.counts.len() ==> #[trigger] v.counts[i] <= 1
    &&& 0 <= v.next_alloc <= usize::MAX
    &&& v.avail == PAGE_SIZE * count_free(v.counts)
}

/// Allocating one frame: the first free frame from `next_alloc` on is taken,
/// the search restarts after it, and a page's worth of bytes is no longer
/// available. With none free, nothing changes.
pub open spec fn alloc_step(v: PageAllocatorView) -> (PageAllocatorView, Option<u64>) {
    match first_free_from(v.counts, v.next_alloc) {
        Some(i) => (
            PageAllocatorView {
                counts: v.counts.update(i, 1u8),
                next_alloc: i + 1,
                avail: v.avail - PAGE_SIZE,
            },
            Some((i * PAGE_SIZE) as u64),
        ),
        None => (v, None),
    }
}

/// Freeing the frame at `frame`: its count drops by one, and once it reaches
/// zero a page's worth of bytes is available again.
pub open spec fn dealloc_step(v: PageAllocatorView, frame: u64) -> PageAllocatorView {
    let i = (frame / PAGE_SIZE) as int;
    let c = (v.counts[i] - 1) as u8;
    PageAllocatorView {
        counts: v.counts.update(i, c),
        next_alloc: v.next_alloc,
        avail: if c == 0 { v.avail + PAGE_SIZE } else { v.avail },
    }
}

/// Allocating `n` contiguous frames: the first window of `n` free frames
/// (searched from frame 0) is taken, the single-frame search restarts after
/// it, and its bytes are no longer available. With no such window, nothing
/// changes.
pub open spec fn range_step(v: PageAllocatorView, n: int) -> (PageAllocatorView, Option<FrameRange>) {
    match first_free_window(v.counts, n, 0) {
        Some(s) => (
            PageAllocatorView {
                counts: take_range(v.counts, s, n),
                next_alloc: s + n,
                avail: v.avail - PAGE_SIZE * n,
            },
            Some(FrameRange { start: (s * PAGE_SIZE) as u64, end: ((s + n) * PAGE_SIZE) as u64 }),
        ),
        None => (v, None),
    }
}

/// Statistics on physical memory.
#[derive(Clone, Copy, Debug)]
pub struct PhysMemoryStats {
    /// The bytes of all managed frames (less than the machine's memory where
    /// firmware reserves some).
    pub total_bytes: usize,
    /// The bytes of the frames that are free to allocate.
    pub avail_bytes: usize,
}

/// Allocates physical frames, keeping one reference count per frame.
pub struct PageAllocator {
    frame_refcounts: Vec<PageRefCount>,
    next_alloc: usize,
    avail_bytes: usize,
}

impl View for PageAllocator {
    type V = PageAllocatorView;

    closed spec fn view(&self) -> PageAllocatorView {
        PageAllocatorView {
            counts: self.frame_refcounts@,
            next_alloc: self.next_alloc as int,
            avail: self.avail_bytes as int,
        }
    }
}

impl PageAllocator {
    /// The allocator's invariant holds.
    pub open spec fn wf(&self) -> bool {
        allocator_wf(self@)
    }

    /// Provides statistics on physical memory usage.
    pub fn get_stats(&self) -> (r: PhysMemoryStats)
        requires
            self.wf(),
        ensures
            r.total_bytes == self@.counts.len() * PAGE_SIZE,
            r.avail_bytes == self@.avail,
            r.avail_bytes == PAGE_SIZE * count_free(self@.counts),
    {
        PhysMemoryStats {
            total_bytes: self.frame_refcounts.len() * (PAGE_SIZE as usize),
            avail_bytes: self.avail_bytes,
        }
    }

    /// Creates the allocator over `n_frames` frames, once the usable frames
    /// that `basic` already handed out (to map the count table itself) are
    /// spoken for: a frame is free when it is the next of `basic`'s remaining
    /// usable frames, and taken otherwise. The free frames' bytes are
    /// available.
    pub fn new(n_frames: usize, basic: &BasicAllocator) -> (r: PageAllocator)
        requires
            basic.wf(),
            n_frames * PAGE_SIZE < PHYS_ADDR_LIMIT,
            2 * n_frames * PAGE_SIZE <= usize::MAX,
        ensures
            r.wf(),
            r@.counts == mark_usable(n_frames as nat, basic.remaining()).0,
            r@.next_alloc == 0,
            r@.avail == PAGE_SIZE * count_free(r@.counts),
    {
        let ghost frames = basic.remaining();
        let mut counts: Vec<PageRefCount> = Vec::new();
        let mut cursor: u64 = basic.alloced as u64;
        let mut free: usize = 0;
        let mut i: usize = 0;
        while i < n_frames
            invariant
                free == count_free(counts@),
                counts@.len() == i,
                basic.wf(),
                frames == basic.remaining(),
                i <= n_frames,
                n_frames * PAGE_SIZE < PHYS_ADDR_LIMIT,
                counts@ == mark_usable(i as nat, frames).0,
                cursor == basic.alloced + mark_usable(i as nat, frames).1,
                mark_usable(i as nat, frames).1 <= i,
            decreases n_frames - i,
        {
            let frame = i as u64 * PAGE_SIZE;
            let ghost j = mark_usable(i as nat, frames).1;
            let next = nth_usable_frame(&basic.regions, cursor);
            let is_next = match next {
                Some(f) => f == frame,
                None => false,
            };
            proof {
                assert(j < frames.len() <==> cursor < usable_frames(basic.regions@).len());
                if j < frames.len() {
                    assert(frames[j as int] == usable_frames(basic.regions@)[cursor as int]);
                }
            }
            let ghost before = counts@;
            proof {
                lemma_count_free_bound(before);
            }
            if is_next {
                counts.push(0);
                cursor = cursor + 1;
                free = free + 1;
            } else {
                counts.push(1);
            }
            proof {
                assert(counts@.drop_last() =~= before);
            }
            i = i + 1;
        }
        let ghost c = counts@;
        proof {
            assert forall|k: int| 0 <= k < c.len() implies #[trigger] c[k] <= 1 by {
                lemma_mark_usable_values(n_frames as nat, frames, k);
            }
            lemma_count_free_bound(c);
            lemma_mark_usable_len(n_frames as nat, frames);
            lemma_page_bytes(count_free(c) as int);
            lemma_page_bytes(n_frames as int);
            lemma_page_bytes(n_frames + count_free(c));
        }
        PageAllocator {
            frame_refcounts: counts,
            next_alloc: 0,
            avail_bytes: free * (PAGE_SIZE as usize),
        }
    }

    /// Allocates the first free frame at or after the search position, and
    /// returns its start address.
    pub fn allocate_frame(&mut self) -> (r: Option<u64>)
        requires
            old(self).wf(),
        ensures
            final(self).wf(),
            (final(self)@, r) == alloc_step(old(self)@),
    {
        let ghost v0 = self@;
        let len = self.frame_refcounts.len();
        let mut i = self.next_alloc;
        while i < len
            invariant
                self@ == v0,
                v0 == old(self)@,
                allocator_wf(v0),
                len == v0.counts.len(),
                first_free_from(v0.counts, v0.next_alloc) == first_free_from(v0.counts, i as int),
            decreases len - i,
        {
            if self.frame_refcounts[i] == 0 {
                proof {
                    lemma_count_free_update(v0.counts, i as int, 1u8);
                    lemma_page_bytes(count_free(v0.counts) as int);
                    lemma_page_bytes(count_free(v0.counts.update(i as int, 1u8)) as int);
                    lemma_page_bytes(len as int);
                    lemma_page_bytes(len + count_free(v0.counts));
                    lemma_page_bytes(len + count_free(v0.counts.update(i as int, 1u8)));
                    lemma_page_bytes(i as int);
                }
                self.next_alloc = i + 1;
                self.frame_refcounts.set(i, 1);
                self.avail_bytes = self.avail_bytes - PAGE_SIZE as usize;
                let addr = i as u64 * PAGE_SIZE;
                proof {
                    assert(first_free_from(v0.counts, i as int) == Some(i as int));
                    assert(self@.counts =~= v0.counts.update(i as int, 1u8));
                    assert(self@ == alloc_step(v0).0);
                    assert(Some(addr) == alloc_step(v0).1);
                }
                return Some(addr);
            }
            i = i + 1;
        }
        None
    }

    /// Frees the frame starting at `frame` (whose count must not be zero).
    pub fn deallocate_frame(&mut self, frame: u64)
        requires
            old(self).wf(),
            frame % PAGE_SIZE == 0,
            frame / PAGE_SIZE < old(self)@.counts.len(),
            old(self)@.counts[(frame / PAGE_SIZE) as int] != 0,
        ensures
            final(self).wf(),
            final(self)@ == dealloc_step(old(self)@, frame),
    {
        let ghost v0 = self@;
        let i = (frame / PAGE_SIZE) as usize;
        let c = self.frame_refcounts[i] - 1;
        proof {
            lemma_count_free_update(v0.counts, i as int, c);
            lemma_count_free_bound(v0.counts.update(i as int, c));
            lemma_count_free_bound(v0.counts);
            let len = v0.counts.len() as int;
            lemma_page_bytes(count_free(v0.counts) as int);
            lemma_page_bytes(count_free(v0.counts.update(i as int, c)) as int);
            lemma_page_bytes(len);
            lemma_page_bytes(len + count_free(v0.counts));
            lemma_page_bytes(len + count_free(v0.counts.update(i as int, c)));
        }
        self.frame_refcounts.set(i, c);
        if c == 0 {
            self.avail_bytes = self.avail_bytes + PAGE_SIZE as usize;
        }
        proof {
            assert(self@.counts =~= v0.counts.update(i as int, c));
        }
    }

    /// Allocates `n_frames` contiguous frames: the first run of that many
    /// free frames, searched from the start of memory.
    pub fn alloc_range(&mut self, n_frames: usize) -> (r: Option<FrameRange>)
        requires
            old(self).wf(),
            n_frames > 0,
        ensures
            final(self).wf(),
            (final(self)@, r) == range_step(old(self)@, n_frames as int),
    {
        let ghost v0 = self@;
        let len = self.frame_refcounts.len();
        if n_frames > len {
            return None;
        }
        let mut s: usize = 0;
        while s <= len - n_frames
            invariant
                self@ == v0,
                v0 == old(self)@,
                allocator_wf(v0),
                len == v0.counts.len(),
                n_frames <= len,
                s <= len - n_frames + 1,
                first_free_window(v0.counts, n_frames as int, 0) == first_free_window(
                    v0.counts,
                    n_frames as int,
                    s as int,
                ),
            decreases len - n_frames + 1 - s,
        {
            let mut k = s;
            while k < s + n_frames && self.frame_refcounts[k] == 0
                invariant
                    self@ == v0,
                    len == v0.counts.len(),
                    s + n_frames <= len,
                    s <= k <= s + n_frames,
                    forall|t: int| s <= t < k ==> #[trigger] v0.counts[t] == 0,
                decreases s + n_frames - k,
            {
                k = k + 1;
            }
            if k == s + n_frames {
                let end = s + n_frames;
                let mut t = s;
                while t < end
                    invariant
                        allocator_wf(v0),
                        v0 == old(self)@,
                        len == self.frame_refcounts.len(),
                        len == v0.counts.len(),
                        s <= t <= end,
                        end == s + n_frames,
                        end <= len,
                        window_free(v0.counts, s as int, n_frames as int),
                        self.frame_refcounts@ == take_range(v0.counts, s as int, t - s),
                        count_free(self.frame_refcounts@) + (t - s) == count_free(v0.counts),
                        self.next_alloc == v0.next_alloc,
                        self.avail_bytes == v0.avail,
                    decreases end - t,
                {
                    proof {
                        lemma_count_free_update(self.frame_refcounts@, t as int, 1u8);
                    }
                    self.frame_refcounts.set(t, 1);
                    proof {
                        assert(self.frame_refcounts@ =~= take_range(v0.counts, s as int, t + 1 - s));
                    }
                    t = t + 1;
                }
                proof {
                    lemma_count_free_bound(self.frame_refcounts@);
                    let cf0 = count_free(v0.counts) as int;
                    let cf1 = count_free(self.frame_refcounts@) as int;
                    lemma_page_bytes(cf0);
                    lemma_page_bytes(cf1);
                    lemma_page_bytes(n_frames as int);
                    lemma_page_bytes(len + cf0);
                    lemma_page_bytes(len + cf1);
                    lemma_page_bytes(s as int);
                    lemma_page_bytes(end as int);
                }
                self.next_alloc = end;
                self.avail_bytes = self.avail_bytes - (PAGE_SIZE as usize) * n_frames;
                let r = FrameRange { start: s as u64 * PAGE_SIZE, end: end as u64 * PAGE_SIZE };
                proof {
                    assert(window_free(v0.counts, s as int, n_frames as int));
                    assert(first_free_window(v0.counts, n_frames as int, s as int) == Some(s as int));
                    assert(self@ == range_step(v0, n_frames as int).0);
                    assert(Some(r) == range_step(v0, n_frames as int).1);
                }
                return Some(r);
            }
            proof {
                assert(!window_free(v0.counts, s as int, n_frames as int));
            }
            s = s + 1;
        }
        None
    }
}

/// The counts a fresh allocator starts with are all 0 or 1.
proof fn lemma_mark_usable_values(n: nat, frames: Seq<u64>, k: int)
    requires
        0 <= k < mark_usable(n, frames).0.len(),
    ensures
        mark_usable(n, frames).0[k] <= 1,
        mark_usable(n, frames).0.len() == n,
    decreases n,
{
    if n > 0 {
        lemma_mark_usable_len((n - 1) as nat, frames);
        if k < n - 1 {
            lemma_mark_usable_values((n - 1) as nat, frames, k);
        }
    }
}

proof fn lemma_mark_usable_len(n: nat, frames: Seq<u64>)
    ensures
        mark_usable(n, frames).0.len() == n,
        mark_usable(n, frames).1 <= n,
    decreases n,
{
    if n > 0 {
        lemma_mark_usable_len((n - 1) as nat, frames);
    }
}

/// Freeing the frame that an allocation just handed out gives back the
/// reference counts and available bytes from before the allocation.
pub proof fn lemma_free_undoes_alloc(v: PageAllocatorView)
    requires
        allocator_wf(v),
        alloc_step(v).1 is Some,
    ensures
        dealloc_step(alloc_step(v).0, alloc_step(v).1->0).counts == v.counts,
        dealloc_step(alloc_step(v).0, alloc_step(v).1->0).avail == v.avail,
{
    let i = first_free_from(v.counts, v.next_alloc)->0;
    lemma_first_free_from(v.counts, v.next_alloc);
    let f = alloc_step(v).1->0;
    assert(f == i * PAGE_SIZE);
    assert(f / PAGE_SIZE == i);
    assert(v.counts.update(i, 1u8).update(i, 0u8) =~= v.counts);
}

/// What the first free frame at or after `from` is.
pub proof fn lemma_first_free_from(counts: Seq<u8>, from: int)
    ensures
        match first_free_from(counts, from) {
            Some(i) => {
                &&& 0 <= from <= i < counts.len()
                &&& counts[i] == 0
                &&& forall|k: int| from <= k < i ==> counts[k] != 0
            },
            None => forall|k: int| 0 <= from <= k < counts.len() ==> counts[k] != 0,
        },
    decreases counts.len() - from,
{
    if 0 <= from < counts.len() && counts[from] != 0 {
        lemma_first_free_from(counts, from + 1);
    }
}

} // verus!
