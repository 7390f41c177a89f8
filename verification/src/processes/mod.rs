//! User processes: checking the programs they run and laying them out in
//! user memory.
//!
//! An ELF image is parsed by the `elf` crate; this module decides whether a
//! parsed image may be spawned, and computes where each loadable segment and
//! the user stack go. Mapping the pages and copying the bytes is done by the
//! kernel's hardware layer, following the plan computed here.
use vstd::prelude::*;
use crate::memory::PAGE_SIZE;
use crate::memory::user::{UserMemoryFlags, USER_END_ADDR};
use elfdefs::{ET_EXEC, ET_REL, PT_LOAD};

/// ELF helper definitions
pub mod elfdefs;
/// Kernel objects exposed to processes
pub mod resources;

verus! {

/// A program header, as plain values.
#[derive(Clone, Copy, Debug, PartialEq, Eq, Structural)]
pub struct ElfSegment {
    pub p_type: u32,
    pub p_flags: u32,
    pub p_offset: u64,
    pub p_vaddr: u64,
    pub p_filesz: u64,
    pub p_memsz: u64,
}

impl ElfSegment {
    /// Gathers a program header's fields.
    pub fn new(p_type: u32, p_flags: u32, p_offset: u64, p_vaddr: u64, p_filesz: u64, p_memsz: u64) -> (r:
        ElfSegment)
        ensures
            r == (ElfSegment { p_type, p_flags, p_offset, p_vaddr, p_filesz, p_memsz }),
    {
        ElfSegment { p_type, p_flags, p_offset, p_vaddr, p_filesz, p_memsz }
    }
}

/// What the kernel reads of a parsed ELF image: its type, its entry point,
/// and its program header table, if it has one.
pub struct ElfImage {
    pub e_type: u16,
    pub e_entry: u64,
    pub segments: Option<Vec<ElfSegment>>,
}

/// An [`ElfImage`] as plain values.
pub struct ElfImageView {
    pub e_type: u16,
    pub e_entry: u64,
    pub segments: Option<Seq<ElfSegment>>,
}

impl View for ElfImage {
    type V = ElfImageView;

    open spec fn view(&self) -> ElfImageView {
        ElfImageView {
            e_type: self.e_type,
            e_entry: self.e_entry,
            segments: match self.segments {
                Some(v) => Some(v@),
                None => None,
            },
        }
    }
}

/// What the `elf` crate parses out of these bytes (file header and program
/// header table, little-endian), or `None` where it refuses them.
pub uninterp spec fn elf_parse(data: Seq<u8>) -> Option<ElfImageView>;

/// Parses `data` with `elf::ElfBytes::minimal_parse` (little-endian, the
/// byte order of the x86_64 machines this kernel runs on) and reads the file
/// header's type and entry point and, when there is a program header table,
/// every program header. The contract only names the result: what the
/// parser accepts, and how, is the `elf` crate's.
#[verifier::external_body]
fn parse_elf(data: &[u8]) -> (r: Option<ElfImage>)
    ensures
        match r {
            Some(img) => elf_parse(data@) == Some(img@),
            None => elf_parse(data@) == None::<ElfImageView>,
        },
{
    let elf = elf::ElfBytes::<elf::endian::LittleEndian>::minimal_parse(data).ok()?;
    let segments = match elf.segments() {
        Some(table) => Some(table.iter().map(|ph| ElfSegment::new(ph.p_type, ph.p_flags,
            ph.p_offset, ph.p_vaddr, ph.p_filesz, ph.p_memsz)).collect()),
        None => None,
    };
    Some(ElfImage { e_type: elf.ehdr.e_type, e_entry: elf.ehdr.e_entry, segments })
}

/// A parsed image may be spawned: it has a program header table, its type
/// has the executable bit, and its entry point is not zero.
pub open spec fn spawnable(img: ElfImageView) -> bool {
    &&& img.segments is Some
    &&& img.e_type & ET_EXEC != 0
    &&& img.e_entry != 0
}

/// Parses an ELF image and returns it when it may be spawned (the quick
/// checks made before a process is created for it).
pub fn check_elf(data: &[u8]) -> (r: Option<ElfImage>)
    ensures
        match r {
            Some(img) => elf_parse(data@) == Some(img@) && spawnable(img@),
            None => match elf_parse(data@) {
                Some(v) => !spawnable(v),
                None => true,
            },
        },
{
    let img = parse_elf(data)?;
    if img.segments.is_none() {
        return None;
    }
    if img.e_type & ET_EXEC == 0 {
        return None;
    }
    if img.e_entry == 0 {
        return None;
    }
    Some(img)
}

/// Why a program cannot be laid out (the kernel stops on either).
#[derive(Clone, Copy, Debug, PartialEq, Eq, Structural)]
pub enum LoadError {
    /// An address is not a canonical virtual address, overflows, or lies
    /// outside user space.
    BadAddress,
    /// A segment's file bytes lie outside the image, or exceed the segment's
    /// size in memory.
    BadFileData,
}

/// Where one loadable segment goes: its pages, permissions, and which bytes
/// of the image fill its start (the rest of it is zeroed).
#[derive(Clone, Copy, Debug, PartialEq, Eq, Structural)]
pub struct SegmentLoad {
    /// The segment's first byte in user memory.
    pub va_start: u64,
    /// The start of the first page to map.
    pub first_page: u64,
    /// The start of the last page to map.
    pub last_page: u64,
    /// The permissions of the mapped pages.
    pub flags: UserMemoryFlags,
    /// Where the segment's file bytes start in the image.
    pub file_offset: u64,
    /// How many bytes are copied from the image.
    pub file_len: u64,
    /// The segment's size in memory.
    pub mem_len: u64,
}

/// The layout of a program in user memory.
pub struct LoadPlan {
    /// The loadable segments, in program header order.
    pub segments: Vec<SegmentLoad>,
    /// The start of the lowest stack page.
    pub stack_first_page: u64,
    /// The start of the highest stack page.
    pub stack_last_page: u64,
    /// The initial stack pointer.
    pub stack_top: u64,
    /// Where execution starts.
    pub entry: u64,
}

/// The user stack's top: one page below the end of user space.
pub const USER_STACK_TOP: u64 = 0x0000_7FFF_FFFF_F000;

/// The user stack's size, in pages.
pub const USER_STACK_PAGES: u64 = 4;

/// A canonical virtual address: bits 47 to 63 all equal.
pub open spec fn canonical(a: int) -> bool {
    (0 <= a < 0x0000_8000_0000_0000) || (0xFFFF_8000_0000_0000 <= a <= u64::MAX)
}

/// `x` rounded down to a page boundary.
pub open spec fn page_of(x: int) -> int {
    x - x % (PAGE_SIZE as int)
}

/// The offset of a relocatable image: it is loaded one page up.
pub open spec fn va_offset(e_type: u16) -> u64 {
    if e_type & ET_REL != 0 {
        PAGE_SIZE
    } else {
        0
    }
}

/// Where a loadable segment goes, or why it cannot be placed.
pub open spec fn segment_load(seg: ElfSegment, offset: u64, data_len: nat) -> Result<
    SegmentLoad,
    LoadError,
> {
    let start = seg.p_vaddr + offset;
    let end = start + seg.p_memsz;
    if !canonical(start) || !canonical(end) || end == 0 || !canonical(end - 1) {
        Err(LoadError::BadAddress)
    } else if page_of(end - 1) >= USER_END_ADDR {
        Err(LoadError::BadAddress)
    } else if seg.p_offset + seg.p_filesz > data_len || seg.p_filesz > seg.p_memsz {
        Err(LoadError::BadFileData)
    } else {
        Ok(
            SegmentLoad {
                va_start: start as u64,
                first_page: page_of(start) as u64,
                last_page: page_of(end - 1) as u64,
                flags: UserMemoryFlags {
                    read: seg.p_flags & 4 != 0,
                    write: seg.p_flags & 2 != 0,
                    execute: seg.p_flags & 1 != 0,
                },
                file_offset: seg.p_offset,
                file_len: seg.p_filesz,
                mem_len: seg.p_memsz,
            },
        )
    }
}

/// The placements of the loadable segments among `segs`, in order, or the
/// error of the first one that cannot be placed.
pub open spec fn segment_loads(segs: Seq<ElfSegment>, offset: u64, data_len: nat) -> Result<
    Seq<SegmentLoad>,
    LoadError,
>
    decreases segs.len(),
{
    if segs.len() == 0 {
        Ok(Seq::empty())
    } else {
        match segment_loads(segs.drop_last(), offset, data_len) {
            Err(e) => Err(e),
            Ok(prev) => if segs.last().p_type != PT_LOAD {
                Ok(prev)
            } else {
                match segment_load(segs.last(), offset, data_len) {
                    Err(e) => Err(e),
                    Ok(l) => Ok(prev.push(l)),
                }
            },
        }
    }
}

/// Where a placed segment lies: its first byte is at its address plus the
/// image's offset; its first and last pages are the page-aligned starts of
/// the pages holding its first and last bytes, in the user half of the
/// address space; its file bytes lie within the image and fit in its memory
/// size; and its pages take the permissions of its flags.
pub proof fn lemma_segment_placement(seg: ElfSegment, offset: u64, data_len: nat)
    ensures
        segment_load(seg, offset, data_len) matches Ok(l) ==> {
            &&& l.va_start == seg.p_vaddr + offset
            &&& l.first_page % PAGE_SIZE == 0
            &&& l.first_page <= l.va_start < l.first_page + PAGE_SIZE
            &&& l.last_page % PAGE_SIZE == 0
            &&& l.last_page <= l.va_start + l.mem_len - 1 < l.last_page + PAGE_SIZE
            &&& l.last_page < USER_END_ADDR
            &&& l.mem_len == seg.p_memsz
            &&& l.file_offset == seg.p_offset
            &&& l.file_len == seg.p_filesz
            &&& l.file_offset + l.file_len <= data_len
            &&& l.file_len <= l.mem_len
            &&& l.flags.read == (seg.p_flags & 4 != 0)
            &&& l.flags.write == (seg.p_flags & 2 != 0)
            &&& l.flags.execute == (seg.p_flags & 1 != 0)
        },
{
}

/// Every segment of a load plan is placed as [`lemma_segment_placement`]
/// says: page-aligned pages around its bytes, in user memory.
pub proof fn lemma_plan_pages(segs: Seq<ElfSegment>, offset: u64, data_len: nat)
    ensures
        segment_loads(segs, offset, data_len) matches Ok(loads) ==> forall|k: int|
            0 <= k < loads.len() ==> {
                let l = #[trigger] loads[k];
                &&& l.first_page % PAGE_SIZE == 0
                &&& l.first_page <= l.va_start < l.first_page + PAGE_SIZE
                &&& l.last_page % PAGE_SIZE == 0
                &&& l.last_page <= l.va_start + l.mem_len - 1 < l.last_page + PAGE_SIZE
                &&& l.last_page < USER_END_ADDR
                &&& l.file_offset + l.file_len <= data_len
                &&& l.file_len <= l.mem_len
            },
    decreases segs.len(),
{
    if segs.len() > 0 {
        lemma_plan_pages(segs.drop_last(), offset, data_len);
        lemma_segment_placement(segs.last(), offset, data_len);
    }
}

/// The entry point once the image's offset is applied, when that is a
/// canonical address.
pub open spec fn entry_of(img: ElfImageView) -> Option<u64> {
    let e = img.e_entry + va_offset(img.e_type);
    if canonical(e) {
        Some(e as u64)
    } else {
        None
    }
}

/// Computes where one loadable segment goes.
fn load_segment(seg: &ElfSegment, offset: u64, data_len: usize) -> (r: Result<SegmentLoad, LoadError>)
    requires
        offset <= PAGE_SIZE,
    ensures
        r == segment_load(*seg, offset, data_len as nat),
{
    if seg.p_vaddr > u64::MAX - offset {
        return Err(LoadError::BadAddress);
    }
    let start = seg.p_vaddr + offset;
    if !(start < 0x0000_8000_0000_0000 || start >= 0xFFFF_8000_0000_0000) {
        return Err(LoadError::BadAddress);
    }
    if seg.p_memsz > u64::MAX - start {
        return Err(LoadError::BadAddress);
    }
    let end = start + seg.p_memsz;
    if !(end < 0x0000_8000_0000_0000 || end >= 0xFFFF_8000_0000_0000) || end == 0 {
        return Err(LoadError::BadAddress);
    }
    let last_byte = end - 1;
    if !(last_byte < 0x0000_8000_0000_0000 || last_byte >= 0xFFFF_8000_0000_0000) {
        return Err(LoadError::BadAddress);
    }
    let last_page = last_byte - last_byte % PAGE_SIZE;
    if last_page >= USER_END_ADDR {
        return Err(LoadError::BadAddress);
    }
    if seg.p_offset > data_len as u64 || seg.p_filesz > data_len as u64 - seg.p_offset
        || seg.p_filesz > seg.p_memsz {
        return Err(LoadError::BadFileData);
    }
    let flags = UserMemoryFlags::from_elf_flags(seg.p_flags);
    Ok(
        SegmentLoad {
            va_start: start,
            first_page: start - start % PAGE_SIZE,
            last_page,
            flags,
            file_offset: seg.p_offset,
            file_len: seg.p_filesz,
            mem_len: seg.p_memsz,
        },
    )
}

/// Lays a parsed image out in user memory: each loadable segment's pages and
/// file bytes (the image being `data_len` bytes long), then the stack pages
/// just below the end of user space, then the entry point. A relocatable
/// image is placed one page up.
pub fn load_plan(img: &ElfImage, data_len: usize) -> (r: Result<LoadPlan, LoadError>)
    requires
        img@.segments is Some,
    ensures
        match segment_loads(img@.segments->0, va_offset(img.e_type), data_len as nat) {
            Err(e) => r == Err::<LoadPlan, LoadError>(e),
            Ok(loads) => match entry_of(img@) {
                None => r == Err::<LoadPlan, LoadError>(LoadError::BadAddress),
                Some(entry) => r matches Ok(plan) && plan.segments@ == loads && plan.entry == entry
                    && plan.stack_top == USER_STACK_TOP && plan.stack_first_page == USER_STACK_TOP
                    - USER_STACK_PAGES * PAGE_SIZE && plan.stack_last_page == USER_STACK_TOP
                    - PAGE_SIZE,
            },
        },
{
    let offset: u64 = if img.e_type & ET_REL != 0 {
        PAGE_SIZE
    } else {
        0
    };
    let segs = match &img.segments {
        Some(v) => v,
        None => {
            return Err(LoadError::BadAddress);
        },
    };
    let mut loads: Vec<SegmentLoad> = Vec::new();
    let mut i: usize = 0;
    while i < segs.len()
        invariant
            i <= segs.len(),
            img@.segments->0 == segs@,
            offset == va_offset(img.e_type),
            segment_loads(segs@.take(i as int), offset, data_len as nat) == Ok::<
                Seq<SegmentLoad>,
                LoadError,
            >(loads@),
        decreases segs.len() - i,
    {
        proof {
            assert(segs@.take(i + 1).drop_last() =~= segs@.take(i as int));
            assert(segs@.take(i + 1).last() == segs@[i as int]);
        }
        let seg = &segs[i];
        if seg.p_type == PT_LOAD {
            match load_segment(seg, offset, data_len) {
                Ok(l) => {
                    loads.push(l);
                },
                Err(e) => {
                    proof {
                        assert(segment_loads(segs@.take(i + 1), offset, data_len as nat) == Err::<
                            Seq<SegmentLoad>,
                            LoadError,
                        >(e));
                        lemma_loads_error_sticks(segs@, i + 1, offset, data_len as nat);
                        assert(img@.segments->0 == segs@);
                    }
                    return Err(e);
                },
            }
        }
        i = i + 1;
    }
    proof {
        assert(segs@.take(segs@.len() as int) =~= segs@);
    }
    if img.e_entry > u64::MAX - offset {
        return Err(LoadError::BadAddress);
    }
    let entry = img.e_entry + offset;
    if !(entry < 0x0000_8000_0000_0000 || entry >= 0xFFFF_8000_0000_0000) {
        return Err(LoadError::BadAddress);
    }
    Ok(
        LoadPlan {
            segments: loads,
            stack_first_page: USER_STACK_TOP - USER_STACK_PAGES * PAGE_SIZE,
            stack_last_page: USER_STACK_TOP - PAGE_SIZE,
            stack_top: USER_STACK_TOP,
            entry,
        },
    )
}

/// Once a prefix of the segments fails to place, every longer prefix fails
/// with the same error.
proof fn lemma_loads_error_sticks(segs: Seq<ElfSegment>, k: int, offset: u64, data_len: nat)
    requires
        0 <= k <= segs.len(),
        segment_loads(segs.take(k), offset, data_len) is Err,
    ensures
        segment_loads(segs, offset, data_len) == segment_loads(segs.take(k), offset, data_len),
    decreases segs.len() - k,
{
    if k < segs.len() {
        assert(segs.take(k + 1).drop_last() =~= segs.take(k));
        lemma_loads_error_sticks(segs, k + 1, offset, data_len);
    } else {
        assert(segs.take(k) =~= segs);
    }
}

} // verus!
