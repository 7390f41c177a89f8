//! FAT directory entries and directories.
use vstd::prelude::*;
use crate::byteorder::{le_u16, le_u32, read_array, read_le_u16, read_le_u32};

verus! {

/// Returned when a value does not fit in the bits of its field.
#[derive(Debug, Copy, Clone, PartialEq, Eq, Structural)]
pub struct OutOfBounds;

/// The attribute byte of a directory entry. Bits, from the least
/// significant: read-only, hidden, system, volume id, directory, archive,
/// and two reserved bits.
#[derive(Debug, Clone, Copy, PartialEq, Eq, Structural)]
pub struct FATFileAttributes {
    pub raw: u8,
}

impl FATFileAttributes {
    pub fn read_only(&self) -> (b: bool)
        ensures
            b == (self.raw % 2 == 1),
    {
        self.raw % 2 == 1
    }

    pub fn hidden(&self) -> (b: bool)
        ensures
            b == ((self.raw / 2) % 2 == 1),
    {
        (self.raw / 2) % 2 == 1
    }

    pub fn system(&self) -> (b: bool)
        ensures
            b == ((self.raw / 4) % 2 == 1),
    {
        (self.raw / 4) % 2 == 1
    }

    pub fn volume_id(&self) -> (b: bool)
        ensures
            b == ((self.raw / 8) % 2 == 1),
    {
        (self.raw / 8) % 2 == 1
    }

    pub fn directory(&self) -> (b: bool)
        ensures
            b == ((self.raw / 16) % 2 == 1),
    {
        (self.raw / 16) % 2 == 1
    }

    pub fn archive(&self) -> (b: bool)
        ensures
            b == ((self.raw / 32) % 2 == 1),
    {
        (self.raw / 32) % 2 == 1
    }

    /// A long-file-name entry has the read-only, hidden, system and volume
    /// id bits all set.
    pub fn long_file_name(&self) -> (b: bool)
        ensures
            b == (self.raw % 16 == 15),
    {
        self.read_only() && self.hidden() && self.system() && self.volume_id()
    }
}

/// A packed FAT date: day (bits 0-4), month (bits 5-8) and years since
/// 1980 (bits 9-15).
#[derive(Debug, Clone, Copy, PartialEq, Eq, Structural)]
pub struct FATDate {
    pub raw: u16,
}

impl FATDate {
    /// The year that a raw year field of `0` stands for.
    pub const YEAR_OFFSET: u32 = 1980;

    pub open spec fn spec_day(&self) -> int {
        (self.raw as int) % 32
    }

    pub open spec fn spec_month(&self) -> int {
        (self.raw as int / 32) % 16
    }

    pub open spec fn spec_year_raw(&self) -> int {
        self.raw as int / 512
    }

    pub fn day(&self) -> (r: u8)
        ensures
            r == self.spec_day(),
    {
        (self.raw % 32) as u8
    }

    pub fn month(&self) -> (r: u8)
        ensures
            r == self.spec_month(),
    {
        ((self.raw / 32) % 16) as u8
    }

    pub fn year(&self) -> (r: u32)
        ensures
            r == self.spec_year_raw() + 1980,
    {
        (self.raw / 512) as u32 + Self::YEAR_OFFSET
    }

    /// Sets the year. The year, less 1980, is first truncated to 8 bits;
    /// if the result does not fit in the 7-bit field, nothing changes and
    /// `OutOfBounds` is returned.
    pub fn set_seconds(&mut self, year: u32) -> (r: Result<(), OutOfBounds>)
        requires
            year >= 1980,
        ensures
            ((year - 1980) % 256 < 128) <==> r is Ok,
            r is Ok ==> final(self).spec_year_raw() == (year - 1980) % 256
                && final(self).spec_day() == old(self).spec_day()
                && final(self).spec_month() == old(self).spec_month(),
            r is Err ==> *final(self) == *old(self),
    {
        let raw = (year - Self::YEAR_OFFSET) % 256;
        if raw >= 128 {
            return Err(OutOfBounds);
        }
        let low = self.raw % 512;
        self.raw = low + (raw as u16) * 512;
        Ok(())
    }
}

/// A packed FAT time: half-seconds count (bits 0-4), minutes (bits 5-10)
/// and hours (bits 11-15).
#[derive(Debug, Clone, Copy, PartialEq, Eq, Structural)]
pub struct FATTime {
    pub raw: u16,
}

impl FATTime {
    pub open spec fn spec_seconds_half(&self) -> int {
        (self.raw as int) % 32
    }

    pub open spec fn spec_minutes(&self) -> int {
        (self.raw as int / 32) % 64
    }

    pub open spec fn spec_hours(&self) -> int {
        self.raw as int / 2048
    }

    pub fn minutes(&self) -> (r: u8)
        ensures
            r == self.spec_minutes(),
    {
        ((self.raw / 32) % 64) as u8
    }

    pub fn hours(&self) -> (r: u8)
        ensures
            r == self.spec_hours(),
    {
        (self.raw / 2048) as u8
    }

    /// Seconds, counted in 2-second increments.
    pub fn seconds(&self) -> (r: u8)
        ensures
            r == 2 * self.spec_seconds_half(),
    {
        ((self.raw % 32) as u8) * 2
    }

    /// Sets the seconds (rounded down to an even count); `OutOfBounds` if
    /// they do not fit, in which case nothing changes.
    pub fn set_seconds(&mut self, seconds: u8) -> (r: Result<(), OutOfBounds>)
        ensures
            (seconds / 2 < 32) <==> r is Ok,
            r is Ok ==> final(self).spec_seconds_half() == seconds / 2
                && final(self).spec_minutes() == old(self).spec_minutes()
                && final(self).spec_hours() == old(self).spec_hours(),
            r is Err ==> *final(self) == *old(self),
    {
        let half = seconds / 2;
        if half >= 32 {
            return Err(OutOfBounds);
        }
        self.raw = (self.raw / 32) * 32 + half as u16;
        Ok(())
    }
}

/// A 32-byte FAT directory entry.
#[derive(Debug)]
pub struct FATDirectoryEntry {
    pub file_name: [u8; 8],
    pub file_extension: [u8; 3],
    pub attributes: FATFileAttributes,
    pub creation_time_tenth: u8,
    pub creation_time: FATTime,
    pub creation_date: FATDate,
    pub last_accessed_date: FATDate,
    pub first_cluster_high: u16,
    pub write_time: FATTime,
    pub write_date: FATDate,
    pub first_cluster_low: u16,
    pub file_size: u32,
}

/// Size in bytes of a directory entry.
pub const DIR_ENTRY_LEN: usize = 32;

/// `e` is the directory entry stored at byte offset `off` of `s`.
pub open spec fn decodes_dir_entry(s: Seq<u8>, off: int, e: FATDirectoryEntry) -> bool {
    &&& e.file_name@ == s.subrange(off, off + 8)
    &&& e.file_extension@ == s.subrange(off + 8, off + 11)
    &&& e.attributes.raw == s[off + 11]
    &&& e.creation_time_tenth == s[off + 13]
    &&& e.creation_time.raw == le_u16(s, off + 14)
    &&& e.creation_date.raw == le_u16(s, off + 16)
    &&& e.last_accessed_date.raw == le_u16(s, off + 18)
    &&& e.first_cluster_high == le_u16(s, off + 20)
    &&& e.write_time.raw == le_u16(s, off + 22)
    &&& e.write_date.raw == le_u16(s, off + 24)
    &&& e.first_cluster_low == le_u16(s, off + 26)
    &&& e.file_size == le_u32(s, off + 28)
}

impl FATDirectoryEntry {
    /// Decodes the entry at byte offset `off`.
    pub fn from_bytes(s: &[u8], off: usize) -> (e: FATDirectoryEntry)
        requires
            off + DIR_ENTRY_LEN <= s@.len(),
        ensures
            decodes_dir_entry(s@, off as int, e),
    {
        let n = s.len();
        assert(off + DIR_ENTRY_LEN <= n);
        FATDirectoryEntry {
            file_name: read_array::<8>(s, off),
            file_extension: read_array::<3>(s, off + 8),
            attributes: FATFileAttributes { raw: s[off + 11] },
            creation_time_tenth: s[off + 13],
            creation_time: FATTime { raw: read_le_u16(s, off + 14) },
            creation_date: FATDate { raw: read_le_u16(s, off + 16) },
            last_accessed_date: FATDate { raw: read_le_u16(s, off + 18) },
            first_cluster_high: read_le_u16(s, off + 20),
            write_time: FATTime { raw: read_le_u16(s, off + 22) },
            write_date: FATDate { raw: read_le_u16(s, off + 24) },
            first_cluster_low: read_le_u16(s, off + 26),
            file_size: read_le_u32(s, off + 28),
        }
    }

    pub open spec fn spec_is_free(&self) -> bool {
        self.file_name@[0] == 0xE5
    }

    pub open spec fn spec_is_last(&self) -> bool {
        self.file_name@[0] == 0x00
    }

    /// Per spec, if first byte of an entry is 0xE5, its free, but NOT last
    pub fn is_free(&self) -> (b: bool)
        ensures
            b == self.spec_is_free(),
    {
        self.file_name[0] == 0xE5
    }

    /// Per spec, the entry is free AND all entries after are free if the first
    /// byte is 0x00
    fn is_last(&self) -> (b: bool)
        ensures
            b == self.spec_is_last(),
    {
        self.file_name[0] == 0x00
    }
}

#[derive(Debug)]
pub struct FATDirectory {
    entries: Vec<FATDirectoryEntry>,
    len: usize,
}

impl FATDirectory {
    /// All entries the directory's bytes hold, including those after the
    /// end marker.
    pub closed spec fn spec_entries(&self) -> Seq<FATDirectoryEntry> {
        self.entries@
    }

    /// The number of entries before the first end-of-directory marker.
    pub closed spec fn spec_len(&self) -> nat {
        self.len as nat
    }

    /// The directory's entries end at the first entry marked last.
    #[verifier::type_invariant]
    spec fn inv(self) -> bool {
        &&& self.len <= self.entries@.len()
        &&& forall|i: int| 0 <= i < self.len ==> !(#[trigger] self.entries@[i]).spec_is_last()
        &&& self.len < self.entries@.len() ==> self.entries@[self.len as int].spec_is_last()
    }

    /// Returns `None` if the given raw data's size isnt a multiple of 32
    pub fn new(data: Vec<u8>) -> (r: Option<Self>)
        ensures
            (data@.len() % 32 == 0) <==> r is Some,
            r matches Some(d) ==> {
                &&& d.spec_entries().len() == data@.len() / 32
                &&& forall|i: int|
                    0 <= i < d.spec_entries().len() ==> decodes_dir_entry(
                        data@,
                        32 * i,
                        #[trigger] d.spec_entries()[i],
                    )
                &&& d.spec_len() <= d.spec_entries().len()
                &&& forall|i: int| 0 <= i < d.spec_len() ==> !(#[trigger] d.spec_entries()[i]).spec_is_last()
                &&& d.spec_len() < d.spec_entries().len() ==> d.spec_entries()[d.spec_len() as int].spec_is_last()
            },
    {
        if data.len() % DIR_ENTRY_LEN != 0 {
            return None;
        }
        let dlen = data.len();
        let count = dlen / DIR_ENTRY_LEN;
        let mut entries: Vec<FATDirectoryEntry> = Vec::new();
        let mut i: usize = 0;
        while i < count
            invariant
                dlen == data@.len(),
                count == data@.len() / 32,
                data@.len() % 32 == 0,
                i <= count,
                entries@.len() == i,
                forall|k: int|
                    0 <= k < i ==> decodes_dir_entry(data@, 32 * k, #[trigger] entries@[k]),
            decreases count - i,
        {
            assert(32 * i + 32 <= data@.len()) by (nonlinear_arith)
                requires
                    i < count,
                    count == data@.len() / 32,
                    data@.len() % 32 == 0,
            ;
            entries.push(FATDirectoryEntry::from_bytes(data.as_slice(), i * DIR_ENTRY_LEN));
            i = i + 1;
        }
        // We found empty, so that index is the length; if none were empty,
        // the full length
        let mut len: usize = 0;
        while len < entries.len() && !entries[len].is_last()
            invariant
                len <= entries@.len(),
                forall|k: int| 0 <= k < len ==> !(#[trigger] entries@[k]).spec_is_last(),
            decreases entries@.len() - len,
        {
            len = len + 1;
        }
        Some(Self { entries, len })
    }

    pub fn len(&self) -> (r: usize)
        ensures
            r == self.spec_len(),
    {
        self.len
    }

    /// The entry at `index`, which must come before the end marker.
    pub fn index(&self, index: usize) -> (e: &FATDirectoryEntry)
        requires
            index < self.spec_len(),
        ensures
            *e == self.spec_entries()[index as int],
    {
        proof {
            use_type_invariant(self);
        }
        &self.entries[index]
    }

    pub fn iter<'a>(&'a self) -> (it: FATDirIter<'a>)
        ensures
            it.dir == self,
            it.index == 0,
    {
        FATDirIter { dir: self, index: 0 }
    }
}

/// Walks the entries of a directory up to its end marker.
pub struct FATDirIter<'a> {
    pub dir: &'a FATDirectory,
    pub index: usize,
}

impl<'a> FATDirIter<'a> {
    /// The next entry, or `None` once the end marker is reached.
    pub fn next(&mut self) -> (r: Option<&'a FATDirectoryEntry>)
        ensures
            final(self).dir == old(self).dir,
            old(self).index >= old(self).dir.spec_len() ==> r is None && final(self).index == old(
                self,
            ).index,
            old(self).index < old(self).dir.spec_len() ==> (r matches Some(e) && *e == old(
                self,
            ).dir.spec_entries()[old(self).index as int] && final(self).index == old(self).index
                + 1),
    {
        if self.index >= self.dir.len() {
            return None;
        }
        let e = self.dir.index(self.index);
        self.index = self.index + 1;
        Some(e)
    }
}

} // verus!
