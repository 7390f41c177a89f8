use azpos_kernel::memory::paging::{
    get_frames_from_region, nth_usable_frame, BasicAllocator, FrameRange, FrameRangeInclusive,
    MemoryRegion, MemoryRegionKind, PageAllocator,
};
use azpos_kernel::memory::user::{user_page_flags, UserMemoryFlags, PTE_NO_EXECUTE};

fn usable(start: u64, end: u64) -> MemoryRegion {
    MemoryRegion { start, end, kind: MemoryRegionKind::Usable }
}

#[test]
fn elf_flags_map_to_permissions() {
    let f = UserMemoryFlags::from_elf_flags(4 | 1);
    assert!(f.read);
    assert!(!f.write);
    assert!(f.execute);
    let g = UserMemoryFlags::from_elf_flags(2);
    assert!(!g.read && g.write && !g.execute);
}

#[test]
fn user_page_flags_for_data() {
    let flags = UserMemoryFlags { read: true, write: true, execute: false };
    assert_eq!(user_page_flags(flags), 1 | 2 | 4 | PTE_NO_EXECUTE);
    let code = UserMemoryFlags { read: true, write: false, execute: true };
    assert_eq!(user_page_flags(code), 1 | 4);
}

#[test]
fn region_frames_are_rounded_inward() {
    let r = usable(0x1001, 0x5fff);
    assert_eq!(
        get_frames_from_region(&r),
        Some(FrameRangeInclusive { first: 0x2000, last: 0x4000 })
    );
    let exact = usable(0x1000, 0x3000);
    assert_eq!(
        get_frames_from_region(&exact),
        Some(FrameRangeInclusive { first: 0x1000, last: 0x2000 })
    );
    assert_eq!(get_frames_from_region(&usable(0x1000, 0x1000)), None);
}

#[test]
fn usable_frames_skip_other_regions() {
    let regions = vec![
        usable(0, 0x2000),
        MemoryRegion { start: 0x2000, end: 0x4000, kind: MemoryRegionKind::Bootloader },
        usable(0x4000, 0x6000),
    ];
    assert_eq!(nth_usable_frame(&regions, 0), Some(0));
    assert_eq!(nth_usable_frame(&regions, 1), Some(0x1000));
    assert_eq!(nth_usable_frame(&regions, 2), Some(0x4000));
    assert_eq!(nth_usable_frame(&regions, 3), Some(0x5000));
    assert_eq!(nth_usable_frame(&regions, 4), None);
}

#[test]
fn page_allocator_marks_usable_frames_free() {
    let regions = vec![usable(0x1000, 0x3000), usable(0x5000, 0x6000)];
    let mut basic = BasicAllocator::new(regions);
    // The first usable frame goes to the allocator's own table.
    assert_eq!(basic.allocate_frame(), Some(0x1000));
    let mut pages = PageAllocator::new(8, &basic);
    let stats = pages.get_stats();
    assert_eq!(stats.total_bytes, 8 * 0x1000);
    assert_eq!(stats.avail_bytes, 2 * 0x1000);
    assert_eq!(pages.allocate_frame(), Some(0x2000));
    assert_eq!(pages.allocate_frame(), Some(0x5000));
    assert_eq!(pages.allocate_frame(), None);
    assert_eq!(pages.get_stats().avail_bytes, 0);
}

#[test]
fn freeing_a_frame_makes_it_available_again() {
    let regions = vec![usable(0, 0x4000)];
    let basic = BasicAllocator::new(regions);
    let mut pages = PageAllocator::new(4, &basic);
    let f = pages.allocate_frame().unwrap();
    assert_eq!(f, 0);
    let before = pages.get_stats().avail_bytes;
    pages.deallocate_frame(f);
    assert_eq!(pages.get_stats().avail_bytes, before + 0x1000);
    // The single-frame search does not go back past where it stopped.
    assert_eq!(pages.allocate_frame(), Some(0x1000));
}

#[test]
fn contiguous_ranges_come_from_the_first_free_run() {
    let regions = vec![usable(0, 0x2000), usable(0x3000, 0x6000)];
    let basic = BasicAllocator::new(regions);
    let mut pages = PageAllocator::new(6, &basic);
    assert_eq!(pages.alloc_range(2), Some(FrameRange { start: 0, end: 0x2000 }));
    assert_eq!(pages.alloc_range(3), Some(FrameRange { start: 0x3000, end: 0x6000 }));
    assert_eq!(pages.alloc_range(1), None);
    assert_eq!(pages.get_stats().avail_bytes, 0);
}

use azpos_kernel::byteorder::{read_array, read_le_u16, read_le_u24, read_le_u32};
use azpos_kernel::memory::heap::AllocatorInner;
use azpos_kernel::memory::mmio::{pages_for, read_bitfield, write_bitfield};
use azpos_kernel::memory::stacks::StackAllocator;
use azpos_kernel::memory::{find_usable_virtual_space, plan_memory, resolve_phys_addr, MemoryLayout};

const HEAP: u64 = 0xFFFF_8000_1000_0000;

#[test]
fn heap_allocations_are_aligned_and_bumped() {
    let mut heap = AllocatorInner::new(HEAP);
    let a = heap.allocate(10, 8);
    assert_eq!(a.start, HEAP);
    assert_eq!(a.end, HEAP + 10);
    let b = heap.allocate(0x2000, 0x1000);
    assert_eq!(b.start, HEAP + 0x1000);
    assert_eq!(b.first_page, HEAP + 0x1000);
    assert_eq!(b.last_page, HEAP + 0x2000);
    assert_eq!(heap.size(), 0x3000);
}

#[test]
fn heap_frees_only_the_latest_or_everything() {
    let mut heap = AllocatorInner::new(HEAP);
    let a = heap.allocate(16, 16);
    let b = heap.allocate(16, 16);
    // Freeing an older allocation only counts it.
    heap.dealloc(a.start);
    assert_eq!(heap.size(), 32);
    let c = heap.allocate(16, 16);
    // Freeing the latest moves the end back to its start.
    heap.dealloc(c.start);
    assert_eq!(heap.size(), 32);
    // Freeing the last one empties the heap.
    heap.dealloc(b.start);
    assert_eq!(heap.size(), 0);
}

#[test]
fn stacks_are_laid_out_below_the_root() {
    let root = 0xFFFF_FFFF_FFFF_F000;
    let mut stacks = StackAllocator::new(root, 4);
    let s0 = stacks.alloc_stack();
    assert_eq!(s0.index, 0);
    assert_eq!(s0.top, root);
    assert_eq!(s0.guard, root - 5 * 0x1000);
    assert_eq!(s0.bottom, s0.guard + 0x1000);
    let s1 = stacks.alloc_stack();
    assert_eq!(s1.index, 1);
    assert_eq!(s1.top, root - 5 * 0x1000);
    let (bottom, top) = stacks.free_stack(0);
    assert_eq!((bottom, top), (s0.bottom, s0.top));
    // The freed slot is the next one handed out.
    assert_eq!(stacks.alloc_stack().index, 0);
    assert_eq!(stacks.alloc_stack().index, 2);
}

#[test]
fn memory_layout_from_the_region_map() {
    let regions = vec![
        usable(0, 0x9_0000),
        MemoryRegion { start: 0x10_0000, end: 0x80_0000, kind: MemoryRegionKind::Usable },
        MemoryRegion { start: 0x80_0000, end: 0x90_0000, kind: MemoryRegionKind::UnknownUefi(7) },
    ];
    let layout = plan_memory(&regions, 0xFFFF_9000_0000_0000).unwrap();
    assert_eq!(
        layout,
        MemoryLayout {
            phys_map_size: 0x90_0000,
            phys_size: 0x80_0000,
            n_frames: 0x800,
            heap_start: 0xFFFF_9000_0000_0800,
        }
    );
    let none_usable = vec![MemoryRegion { start: 0, end: 0x1000, kind: MemoryRegionKind::Bootloader }];
    assert_eq!(plan_memory(&none_usable, 0xFFFF_9000_0000_0000), None);
}

#[test]
fn first_free_kernel_half_entry() {
    let mut present = vec![false; 512];
    for p in present.iter_mut().take(258) {
        *p = true;
    }
    assert_eq!(find_usable_virtual_space(&present), Some(0xFFFF_8100_0000_0000));
    let full = vec![true; 512];
    assert_eq!(find_usable_virtual_space(&full), None);
    // Entries of the user half do not count.
    let mut low_free = vec![true; 512];
    low_free[3] = false;
    low_free[300] = false;
    assert_eq!(find_usable_virtual_space(&low_free), Some(0xFFFF_0000_0000_0000 + 300 * 0x80_0000_0000));
}

#[test]
fn physical_addresses_resolve_through_the_map() {
    assert_eq!(resolve_phys_addr(0xFFFF_C000_0000_0000, 0x1000_0000, 0x1234), Some(0xFFFF_C000_0000_1234));
}

#[test]
fn bitfields_read_and_write() {
    assert_eq!(read_bitfield(0xABCD, 4, 12), 0xBC);
    assert_eq!(read_bitfield(u64::MAX, 0, 64), u64::MAX);
    let mut r = 0xFFFF_0000u64;
    write_bitfield(&mut r, 8, 20, 0xABC);
    assert_eq!(r, 0xFFFA_BC00);
    write_bitfield(&mut r, 0, 4, 0x1F);
    assert_eq!(r, 0xFFFA_BC0F);
    assert_eq!(pages_for(0), 0);
    assert_eq!(pages_for(1), 1);
    assert_eq!(pages_for(4096), 1);
    assert_eq!(pages_for(4097), 2);
}

#[test]
fn little_endian_reads() {
    let b = [0x01, 0x02, 0x03, 0x04, 0x05];
    assert_eq!(read_le_u16(&b, 1), 0x0302);
    assert_eq!(read_le_u24(&b, 0), 0x03_0201);
    assert_eq!(read_le_u32(&b, 1), 0x0504_0302);
    assert_eq!(read_array::<2>(&b, 3), [4, 5]);
}
