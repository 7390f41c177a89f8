use azpos_kernel::processes::resources::{BlobResource, LoggerResource, ResourceError};
use azpos_kernel::processes::{check_elf, load_plan, ElfImage, ElfSegment, LoadError, SegmentLoad};
use azpos_kernel::memory::user::UserMemoryFlags;

fn put16(b: &mut [u8], off: usize, v: u16) {
    b[off..off + 2].copy_from_slice(&v.to_le_bytes());
}

fn put32(b: &mut [u8], off: usize, v: u32) {
    b[off..off + 4].copy_from_slice(&v.to_le_bytes());
}

fn put64(b: &mut [u8], off: usize, v: u64) {
    b[off..off + 8].copy_from_slice(&v.to_le_bytes());
}

/// A little-endian ELF64 image with one loadable segment (read + execute)
/// whose 8 file bytes follow the headers.
fn elf(e_type: u16, entry: u64, with_segments: bool) -> Vec<u8> {
    let mut b = vec![0u8; 128];
    b[0..4].copy_from_slice(&[0x7f, b'E', b'L', b'F']);
    b[4] = 2; // 64-bit
    b[5] = 1; // little-endian
    b[6] = 1; // version
    put16(&mut b, 16, e_type);
    put16(&mut b, 18, 0x3E);
    put32(&mut b, 20, 1);
    put64(&mut b, 24, entry);
    put64(&mut b, 32, if with_segments { 64 } else { 0 });
    put16(&mut b, 52, 64);
    put16(&mut b, 54, 56);
    put16(&mut b, 56, 1);
    // The program header
    put32(&mut b, 64, 1); // PT_LOAD
    put32(&mut b, 68, 5); // R + X
    put64(&mut b, 72, 120);
    put64(&mut b, 80, 0x40_0000);
    put64(&mut b, 88, 0x40_0000);
    put64(&mut b, 96, 8);
    put64(&mut b, 104, 0x2000);
    put64(&mut b, 112, 0x1000);
    b[120..128].copy_from_slice(&[0x90; 8]);
    b
}

#[test]
fn spawnable_image_is_accepted() {
    let data = elf(2, 0x40_1000, true);
    let img = check_elf(&data).unwrap();
    assert_eq!(img.e_entry, 0x40_1000);
    let segs = img.segments.as_ref().unwrap();
    assert_eq!(segs.len(), 1);
    assert_eq!(
        segs[0],
        ElfSegment {
            p_type: 1,
            p_flags: 5,
            p_offset: 120,
            p_vaddr: 0x40_0000,
            p_filesz: 8,
            p_memsz: 0x2000
        }
    );
}

#[test]
fn unspawnable_images_are_refused() {
    assert!(check_elf(&elf(2, 0, true)).is_none());
    assert!(check_elf(&elf(1, 0x40_1000, true)).is_none());
    assert!(check_elf(&elf(2, 0x40_1000, false)).is_none());
    let mut bad_magic = elf(2, 0x40_1000, true);
    bad_magic[1] = b'X';
    assert!(check_elf(&bad_magic).is_none());
    assert!(check_elf(&[0x7f, b'E', b'L']).is_none());
}

#[test]
fn load_plan_places_segments_and_stack() {
    let data = elf(2, 0x40_1000, true);
    let img = check_elf(&data).unwrap();
    let plan = load_plan(&img, data.len()).unwrap();
    assert_eq!(plan.entry, 0x40_1000);
    assert_eq!(
        plan.segments,
        vec![SegmentLoad {
            va_start: 0x40_0000,
            first_page: 0x40_0000,
            last_page: 0x40_1000,
            flags: UserMemoryFlags { read: true, write: false, execute: true },
            file_offset: 120,
            file_len: 8,
            mem_len: 0x2000,
        }]
    );
    assert_eq!(plan.stack_top, 0x7FFF_FFFF_F000);
    assert_eq!(plan.stack_first_page, 0x7FFF_FFFF_B000);
    assert_eq!(plan.stack_last_page, 0x7FFF_FFFF_E000);
}

fn image(e_type: u16, entry: u64, segs: Vec<ElfSegment>) -> ElfImage {
    ElfImage { e_type, e_entry: entry, segments: Some(segs) }
}

fn load(vaddr: u64, filesz: u64, memsz: u64) -> ElfSegment {
    ElfSegment { p_type: 1, p_flags: 6, p_offset: 0, p_vaddr: vaddr, p_filesz: filesz, p_memsz: memsz }
}

#[test]
fn shared_objects_are_placed_one_page_up() {
    let img = image(3, 0x100, vec![load(0, 4, 0x10)]);
    let plan = load_plan(&img, 100).unwrap();
    assert_eq!(plan.entry, 0x1100);
    assert_eq!(plan.segments[0].va_start, 0x1000);
    assert_eq!(plan.segments[0].first_page, 0x1000);
    assert_eq!(plan.segments[0].last_page, 0x1000);
    assert_eq!(plan.segments[0].flags, UserMemoryFlags { read: true, write: true, execute: false });
}

#[test]
fn non_loadable_segments_are_skipped() {
    let mut note = load(0x5000, 4, 4);
    note.p_type = 4;
    let img = image(2, 0x1000, vec![note, load(0x1000, 0, 0x10)]);
    let plan = load_plan(&img, 0).unwrap();
    assert_eq!(plan.segments.len(), 1);
    assert_eq!(plan.segments[0].va_start, 0x1000);
}

#[test]
fn bad_layouts_are_errors() {
    // Kernel space
    let img = image(2, 0x1000, vec![load(0xFFFF_8000_0000_0000, 0, 0x10)]);
    assert_eq!(load_plan(&img, 0).err(), Some(LoadError::BadAddress));
    // Not canonical
    let img = image(2, 0x1000, vec![load(0x0000_9000_0000_0000, 0, 0x10)]);
    assert_eq!(load_plan(&img, 0).err(), Some(LoadError::BadAddress));
    // File bytes past the end of the image
    let img = image(2, 0x1000, vec![load(0x1000, 64, 0x100)]);
    assert_eq!(load_plan(&img, 32).err(), Some(LoadError::BadFileData));
    // More file bytes than memory
    let img = image(2, 0x1000, vec![load(0x1000, 64, 32)]);
    assert_eq!(load_plan(&img, 100).err(), Some(LoadError::BadFileData));
    // An entry point that is not an address
    let img = image(2, 0x0000_9000_0000_0000, vec![]);
    assert_eq!(load_plan(&img, 0).err(), Some(LoadError::BadAddress));
    // The first failing segment decides
    let img = image(2, 0x1000, vec![load(0x1000, 64, 32), load(0xFFFF_8000_0000_0000, 0, 1)]);
    assert_eq!(load_plan(&img, 100).err(), Some(LoadError::BadFileData));
}

#[test]
fn blob_reads_advance_the_seek_head() {
    let mut blob = BlobResource::new(vec![1, 2, 3, 4, 5]);
    let mut buf = [0u8; 3];
    assert_eq!(blob.read(&mut buf), Ok(3));
    assert_eq!(buf, [1, 2, 3]);
    let mut big = [9u8; 4];
    assert_eq!(blob.read(&mut big), Ok(2));
    assert_eq!(big, [4, 5, 9, 9]);
    assert_eq!(blob.read(&mut big), Ok(0));
    assert_eq!(blob.seek(1), Ok(0));
    assert_eq!(blob.read(&mut buf), Ok(3));
    assert_eq!(buf, [2, 3, 4]);
    assert_eq!(blob.write(&[1]), Err(ResourceError::Unsupported));
}

#[test]
fn logger_takes_only_text() {
    let mut log = LoggerResource;
    assert_eq!(log.write("hello".as_bytes()), Ok(5));
    assert_eq!(log.write(&[0xff, 0xfe]), Err(ResourceError::InvalidInput));
    assert_eq!(log.seek(3), Err(ResourceError::Unsupported));
    let mut buf = [0u8; 2];
    assert_eq!(log.read(&mut buf), Err(ResourceError::Unsupported));
}
