//! Memory subsystem (paging, the heap, etc)
use vstd::prelude::*;

/// Stack allocation for kernel and user threads
pub mod stacks;
/// Bit fields of memory-mapped registers
pub mod mmio;
/// Physical page allocation
pub mod paging;
/// User-space memory
pub mod user;
/// Dynamic memory allocation (the heap!)
pub mod heap;

use paging::{MemoryRegion, MemoryRegionKind};

verus! {

/// The beginning of the kernel image (and address space) in Virtual Memory
pub const KERNEL_START_ADDR: u64 = 0xFFFF_8000_0000_0000;

/// The size of a page in bytes
pub const PAGE_SIZE: u64 = 0x1000;

/// The number of entries of the top-level page table.
pub const L4_ENTRIES: usize = 512;

/// The top-level entries from this one on map the kernel half of the
/// address space.
pub const FIRST_KERNEL_L4_ENTRY: usize = 256;

/// The address a top-level page table entry maps: `index << 39`, sign
/// extended from bit 47.
pub open spec fn l4_entry_addr(index: int) -> int {
    if index >= 256 {
        0xFFFF_0000_0000_0000 + index * 0x80_0000_0000
    } else {
        index * 0x80_0000_0000
    }
}

/// Resolves a physical address into the virtual address that maps it in
/// the kernel's map of all physical memory (which starts at `map_addr` and
/// covers `map_size` bytes).
pub fn resolve_phys_addr(map_addr: u64, map_size: u64, pa: u64) -> (r: Option<u64>)
    requires
        pa < map_size,
        map_addr + pa <= u64::MAX,
    ensures
        r == Some((map_addr + pa) as u64),
{
    Some(map_addr + pa)
}

/// The first top-level page table entry in the kernel half that maps
/// nothing, as the address of the space it would map; `None` when the whole
/// kernel half is in use.
pub fn find_usable_virtual_space(present: &[bool]) -> (r: Option<u64>)
    requires
        present@.len() == L4_ENTRIES,
    ensures
        match r {
            Some(va) => exists|i: int|
                FIRST_KERNEL_L4_ENTRY <= i < L4_ENTRIES && !present@[i] && va == l4_entry_addr(i)
                    && forall|j: int| FIRST_KERNEL_L4_ENTRY <= j < i ==> present@[j],
            None => forall|j: int| FIRST_KERNEL_L4_ENTRY <= j < L4_ENTRIES ==> present@[j],
        },
{
    let mut i = FIRST_KERNEL_L4_ENTRY;
    while i < L4_ENTRIES
        invariant
            FIRST_KERNEL_L4_ENTRY <= i <= L4_ENTRIES,
            present@.len() == L4_ENTRIES,
            forall|j: int| FIRST_KERNEL_L4_ENTRY <= j < i ==> present@[j],
        decreases L4_ENTRIES - i,
    {
        // First non-present entry we can use!
        if !present[i] {
            let va = 0xFFFF_0000_0000_0000u64 + (i as u64) * 0x80_0000_0000;
            assert(va == l4_entry_addr(i as int));
            return Some(va);
        }
        i = i + 1;
    }
    None
}

/// Where the memory subsystem's pieces go, from the firmware's map.
#[derive(Clone, Copy, Debug, PartialEq, Eq, Structural)]
pub struct MemoryLayout {
    /// The size of the physical memory map: the end of the last region.
    pub phys_map_size: u64,
    /// The amount of physical memory: the end of the last usable region.
    pub phys_size: u64,
    /// The number of frames the page allocator manages.
    pub n_frames: u64,
    /// Where the heap starts: right after the frame reference counts.
    pub heap_start: u64,
}

/// The end of the last usable region among the first `n`, if any.
pub open spec fn last_usable_end(regions: Seq<MemoryRegion>, n: int) -> Option<u64>
    decreases n,
{
    if n <= 0 {
        None
    } else if regions[n - 1].kind == MemoryRegionKind::Usable {
        Some(regions[n - 1].end)
    } else {
        last_usable_end(regions, n - 1)
    }
}

/// Lays out the memory subsystem: the physical map covers up to the end of
/// the last region, physical memory ends with the last usable region, the
/// page allocator gets one reference count (one byte) per frame of it at
/// `usable_start`, and the heap follows them. `None` when no region is
/// usable.
pub fn plan_memory(regions: &Vec<MemoryRegion>, usable_start: u64) -> (r: Option<MemoryLayout>)
    ensures
        match last_usable_end(regions@, regions@.len() as int) {
            None => r is None,
            Some(phys_size) => {
                let n_frames = phys_size / PAGE_SIZE;
                if usable_start + n_frames <= u64::MAX {
                    r == Some(
                        MemoryLayout {
                            phys_map_size: regions@.last().end,
                            phys_size,
                            n_frames: n_frames as u64,
                            heap_start: (usable_start + n_frames) as u64,
                        },
                    )
                } else {
                    r is None
                }
            },
        },
{
    let mut k = regions.len();
    while k > 0 && !regions[k - 1].kind.is_usable()
        invariant
            k <= regions@.len(),
            last_usable_end(regions@, regions@.len() as int) == last_usable_end(regions@, k as int),
        decreases k,
    {
        k = k - 1;
    }
    if k == 0 {
        return None;
    }
    let phys_size = regions[k - 1].end;
    let phys_map_size = regions[regions.len() - 1].end;
    let n_frames = phys_size / PAGE_SIZE;
    if usable_start > u64::MAX - n_frames {
        return None;
    }
    Some(
        MemoryLayout {
            phys_map_size,
            phys_size,
            n_frames,
            heap_start: usable_start + n_frames,
        },
    )
}

} // verus!
