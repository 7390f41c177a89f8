//! The FAT boot record (BIOS parameter block and extended boot record).
use vstd::prelude::*;
use crate::byteorder::{le_u16, le_u32, read_array, read_le_u16, read_le_u32};
use super::FATType;

verus! {

/// Size in bytes of a boot sector.
pub const BOOT_SECTOR_LEN: usize = 512;
/// Byte offset of the extended boot record within the boot sector.
pub const EBR_OFFSET: usize = 36;
/// Size in bytes of the extended boot record.
pub const EBR_LEN: usize = 476;
/// The signature word that ends a valid boot sector.
pub const BOOT_SIGNATURE: u16 = 0xAA55;

/// The media descriptor values the kernel knows about.
#[derive(Copy, Clone, Debug, PartialEq, Eq)]
pub enum FATMediaType {
    Fixed,
    Removable,
}

impl FATMediaType {
    /// Decodes a media descriptor byte.
    pub fn from_raw(raw: u8) -> (r: Option<FATMediaType>)
        ensures
            raw == 0xF8 ==> r == Some(FATMediaType::Fixed),
            raw == 0xF0 ==> r == Some(FATMediaType::Removable),
            raw != 0xF8 && raw != 0xF0 ==> r is None,
    {
        if raw == 0xF8 {
            Some(FATMediaType::Fixed)
        } else if raw == 0xF0 {
            Some(FATMediaType::Removable)
        } else {
            None
        }
    }
}

/// A FAT boot record, decoded field by field from a boot sector.
pub struct FATBootRecord {
    pub jmp_boot: [u8; 3],
    pub oem_name: [u8; 8],
    pub bytes_per_sector: u16,
    pub sectors_per_cluster: u8,
    pub reserved_sector_count: u16,
    pub num_fats: u8,
    pub root_entry_count: u16,
    pub total_sectors_16: u16,
    /// The raw media descriptor byte (see [`FATMediaType::from_raw`]).
    pub media_type: u8,
    pub fat_size_16: u16,
    pub sectors_per_track: u16,
    pub num_heads: u16,
    pub hidden_sectors: u32,
    pub total_sectors_32: u32,
    /// The raw bytes of the extended boot record, whose layout depends on
    /// the FAT type.
    pub ebr: Vec<u8>,
}

/// The extended boot record, interpreted according to the FAT type.
pub enum ExtendedBootRecord {
    Legacy(LegacyEBR),
    Fat32(FAT32EBR),
}

/// The Extended Boot Record for FAT12 and 16
#[derive(Copy, Clone)]
pub struct LegacyEBR {
    pub drive_num: u8,
    pub boot_signature: u8,
    pub volume_id: u32,
    pub volume_label: [u8; 11],
    pub file_sys_type: [u8; 8],
    pub signature_word: u16,
}

/// The Extended Boot Record for FAT32
#[derive(Copy, Clone)]
pub struct FAT32EBR {
    pub fat_size_32: u32,
    pub flags: u16,
    pub version: u16,
    pub root_cluster: u32,
    pub fs_info: u16,
    pub backup_boot_sector: u16,
    pub drive_num: u8,
    pub boot_signature: u8,
    pub volume_id: u32,
    pub volume_label: [u8; 11],
    pub file_sys_type: [u8; 8],
    pub signature_word: u16,
}

/// `r` is the boot record whose fields are stored, in the packed on-disk
/// layout, in the first 512 bytes of `s`.
pub open spec fn decodes_boot_record(s: Seq<u8>, r: FATBootRecord) -> bool {
    &&& r.jmp_boot@ == s.subrange(0, 3)
    &&& r.oem_name@ == s.subrange(3, 11)
    &&& r.bytes_per_sector == le_u16(s, 11)
    &&& r.sectors_per_cluster == s[13]
    &&& r.reserved_sector_count == le_u16(s, 14)
    &&& r.num_fats == s[16]
    &&& r.root_entry_count == le_u16(s, 17)
    &&& r.total_sectors_16 == le_u16(s, 19)
    &&& r.media_type == s[21]
    &&& r.fat_size_16 == le_u16(s, 22)
    &&& r.sectors_per_track == le_u16(s, 24)
    &&& r.num_heads == le_u16(s, 26)
    &&& r.hidden_sectors == le_u32(s, 28)
    &&& r.total_sectors_32 == le_u32(s, 32)
    &&& r.ebr@ == s.subrange(36, 512)
}

/// `e` is the FAT12/16 extended boot record stored in `s`.
pub open spec fn decodes_legacy_ebr(s: Seq<u8>, e: LegacyEBR) -> bool {
    &&& e.drive_num == s[0]
    &&& e.boot_signature == s[2]
    &&& e.volume_id == le_u32(s, 3)
    &&& e.volume_label@ == s.subrange(7, 18)
    &&& e.file_sys_type@ == s.subrange(18, 26)
    &&& e.signature_word == le_u16(s, 474)
}

/// `e` is the FAT32 extended boot record stored in `s`.
pub open spec fn decodes_fat32_ebr(s: Seq<u8>, e: FAT32EBR) -> bool {
    &&& e.fat_size_32 == le_u32(s, 0)
    &&& e.flags == le_u16(s, 4)
    &&& e.version == le_u16(s, 6)
    &&& e.root_cluster == le_u32(s, 8)
    &&& e.fs_info == le_u16(s, 12)
    &&& e.backup_boot_sector == le_u16(s, 14)
    &&& e.drive_num == s[28]
    &&& e.boot_signature == s[30]
    &&& e.volume_id == le_u32(s, 31)
    &&& e.volume_label@ == s.subrange(35, 46)
    &&& e.file_sys_type@ == s.subrange(46, 54)
    &&& e.signature_word == le_u16(s, 474)
}

impl LegacyEBR {
    /// Decodes a FAT12/16 extended boot record from its raw bytes.
    pub fn from_bytes(s: &[u8]) -> (e: LegacyEBR)
        requires
            s@.len() == EBR_LEN,
        ensures
            decodes_legacy_ebr(s@, e),
    {
        LegacyEBR {
            drive_num: s[0],
            boot_signature: s[2],
            volume_id: read_le_u32(s, 3),
            volume_label: read_array::<11>(s, 7),
            file_sys_type: read_array::<8>(s, 18),
            signature_word: read_le_u16(s, 474),
        }
    }
}

impl FAT32EBR {
    /// Decodes a FAT32 extended boot record from its raw bytes.
    pub fn from_bytes(s: &[u8]) -> (e: FAT32EBR)
        requires
            s@.len() == EBR_LEN,
        ensures
            decodes_fat32_ebr(s@, e),
    {
        FAT32EBR {
            fat_size_32: read_le_u32(s, 0),
            flags: read_le_u16(s, 4),
            version: read_le_u16(s, 6),
            root_cluster: read_le_u32(s, 8),
            fs_info: read_le_u16(s, 12),
            backup_boot_sector: read_le_u16(s, 14),
            drive_num: s[28],
            boot_signature: s[30],
            volume_id: read_le_u32(s, 31),
            volume_label: read_array::<11>(s, 35),
            file_sys_type: read_array::<8>(s, 46),
            signature_word: read_le_u16(s, 474),
        }
    }
}

/// The number of sectors taken by the root directory (FAT12/16 only).
pub open spec fn root_dir_sectors(root_entry_count: int, bytes_per_sector: int) -> int {
    (root_entry_count * 32 + (bytes_per_sector - 1)) / bytes_per_sector
}

/// FAT type determination from the count of data clusters.
pub open spec fn fat_type_of_cluster_count(cluster_count: int) -> FATType {
    if cluster_count < 4085 {
        FATType::Fat12
    } else if cluster_count < 65525 {
        FATType::Fat16
    } else {
        FATType::Fat32
    }
}

impl FATBootRecord {
    /// The total sector count: the 16-bit field, unless it is zero.
    pub open spec fn spec_total_sectors(&self) -> u32 {
        if self.total_sectors_16 != 0 {
            self.total_sectors_16 as u32
        } else {
            self.total_sectors_32
        }
    }

    /// Whether the FAT12/16 cluster computation of [`Self::fat_type`] stays
    /// within its 16-bit arithmetic and divides by non-zero values.
    pub open spec fn fat_type_computable(&self) -> bool {
        self.root_entry_count == 0 || self.fat_size_16 == 0 || {
            let rec = self.root_entry_count as int;
            let bps = self.bytes_per_sector as int;
            let meta = self.reserved_sector_count + self.num_fats * self.fat_size_16
                + root_dir_sectors(rec, bps);
            &&& bps >= 1
            &&& rec * 32 + (bps - 1) <= u16::MAX
            &&& self.num_fats * self.fat_size_16 <= u16::MAX
            &&& meta <= u16::MAX
            &&& meta <= self.spec_total_sectors()
            &&& self.sectors_per_cluster != 0
        }
    }

    /// The FAT type as the boot record determines it.
    pub open spec fn spec_fat_type(&self) -> FATType {
        if self.root_entry_count == 0 || self.fat_size_16 == 0 {
            FATType::Fat32
        } else {
            let meta = self.reserved_sector_count + self.num_fats * self.fat_size_16
                + root_dir_sectors(self.root_entry_count as int, self.bytes_per_sector as int);
            fat_type_of_cluster_count(
                (self.spec_total_sectors() - meta) / (self.sectors_per_cluster as int),
            )
        }
    }

    /// The FAT size in sectors: the 16-bit field, or the FAT32 field of the
    /// extended boot record when it is zero.
    pub open spec fn spec_fat_size(&self) -> u32 {
        if self.fat_size_16 != 0 {
            self.fat_size_16 as u32
        } else {
            le_u32(self.ebr@, 0) as u32
        }
    }

    /// The count of data clusters; zero when the metadata does not fit in
    /// the volume or a divisor is zero.
    pub open spec fn spec_cluster_count(&self) -> u32 {
        let bps = self.bytes_per_sector as int;
        let spc = self.sectors_per_cluster as int;
        if bps == 0 || spc == 0 {
            0
        } else {
            let meta = self.reserved_sector_count + self.num_fats * self.spec_fat_size()
                + root_dir_sectors(self.root_entry_count as int, bps);
            if meta > self.spec_total_sectors() {
                0
            } else {
                ((self.spec_total_sectors() - meta) / spc) as u32
            }
        }
    }

    /// The cluster count counts whole clusters of the data region: the
    /// sectors after the reserved sectors, the FATs and the root directory,
    /// taken `sectors_per_cluster` at a time, with any partial cluster left
    /// out. It is zero when the geometry leaves no data region.
    pub proof fn lemma_cluster_count(&self)
        ensures
            ({
                let spc = self.sectors_per_cluster as int;
                let meta = self.reserved_sector_count + self.num_fats * self.spec_fat_size()
                    + root_dir_sectors(self.root_entry_count as int, self.bytes_per_sector as int);
                let data = self.spec_total_sectors() - meta;
                let n = self.spec_cluster_count() as int;
                &&& self.bytes_per_sector != 0 && spc != 0 && data >= 0 ==> n * spc <= data < (n + 1)
                    * spc
                &&& self.bytes_per_sector == 0 || spc == 0 || data < 0 ==> n == 0
            }),
    {
        let spc = self.sectors_per_cluster as int;
        let meta = self.reserved_sector_count + self.num_fats * self.spec_fat_size()
            + root_dir_sectors(self.root_entry_count as int, self.bytes_per_sector as int);
        let data = self.spec_total_sectors() - meta;
        if self.bytes_per_sector != 0 && spc != 0 && data >= 0 {
            let q = data / spc;
            assert(q * spc <= data < (q + 1) * spc) by (nonlinear_arith)
                requires
                    spc > 0,
                    data >= 0,
                    q == data / spc,
            ;
            assert(0 <= q <= data) by (nonlinear_arith)
                requires
                    spc > 0,
                    data >= 0,
                    q == data / spc,
            ;
            assert(data <= u32::MAX);
            assert(self.spec_cluster_count() as int == q);
        }
    }

    /// Whether the boot sector ends with the `0xAA55` signature word.
    pub open spec fn spec_valid_signature(&self) -> bool {
        le_u16(self.ebr@, 474) == BOOT_SIGNATURE
    }

    /// Parses out a FAT Boot Record from a boot sector. Given sector must be
    /// at least 512 bytes, returns `None` if not.
    pub fn new(boot_sector: &[u8]) -> (r: Option<Self>)
        ensures
            boot_sector@.len() < BOOT_SECTOR_LEN ==> r is None,
            boot_sector@.len() >= BOOT_SECTOR_LEN ==> (r matches Some(b) && decodes_boot_record(
                boot_sector@,
                b,
            ) && b.ebr@.len() == EBR_LEN),
    {
        if boot_sector.len() < BOOT_SECTOR_LEN {
            return None;
        }
        let s = boot_sector;
        let mut ebr: Vec<u8> = Vec::new();
        let mut i: usize = EBR_OFFSET;
        while i < BOOT_SECTOR_LEN
            invariant
                s@.len() >= BOOT_SECTOR_LEN,
                EBR_OFFSET <= i <= BOOT_SECTOR_LEN,
                ebr@ == s@.subrange(EBR_OFFSET as int, i as int),
            decreases BOOT_SECTOR_LEN - i,
        {
            ebr.push(s[i]);
            i = i + 1;
            assert(ebr@ =~= s@.subrange(EBR_OFFSET as int, i as int));
        }
        Some(FATBootRecord {
            jmp_boot: read_array::<3>(s, 0),
            oem_name: read_array::<8>(s, 3),
            bytes_per_sector: read_le_u16(s, 11),
            sectors_per_cluster: s[13],
            reserved_sector_count: read_le_u16(s, 14),
            num_fats: s[16],
            root_entry_count: read_le_u16(s, 17),
            total_sectors_16: read_le_u16(s, 19),
            media_type: s[21],
            fat_size_16: read_le_u16(s, 22),
            sectors_per_track: read_le_u16(s, 24),
            num_heads: read_le_u16(s, 26),
            hidden_sectors: read_le_u32(s, 28),
            total_sectors_32: read_le_u32(s, 32),
            ebr,
        })
    }

    pub fn total_sectors(&self) -> (r: u32)
        ensures
            r == self.spec_total_sectors(),
    {
        if self.total_sectors_16 != 0 {
            self.total_sectors_16 as u32
        } else {
            self.total_sectors_32
        }
    }

    pub fn fat_type(&self) -> (t: FATType)
        requires
            self.fat_type_computable(),
        ensures
            t == self.spec_fat_type(),
    {
        if self.root_entry_count == 0 || self.fat_size_16 == 0 {
            return FATType::Fat32;
        }
        let root_dir_sectors = ((self.root_entry_count * 32) + (self.bytes_per_sector - 1))
            / self.bytes_per_sector;

        let data_sector = self.total_sectors() - (self.reserved_sector_count + (self.num_fats as u16
            * self.fat_size_16) + root_dir_sectors) as u32;

        let cluster_count = data_sector / self.sectors_per_cluster as u32;

        if cluster_count < 4085 {
            FATType::Fat12
        } else if cluster_count < 65525 {
            FATType::Fat16
        } else {
            FATType::Fat32
        }
    }

    /// The FAT size in sectors.
    pub fn fat_size(&self) -> (r: u32)
        requires
            self.ebr@.len() == EBR_LEN,
        ensures
            r == self.spec_fat_size(),
    {
        if self.fat_size_16 != 0 {
            self.fat_size_16 as u32
        } else {
            read_le_u32(self.ebr.as_slice(), 0)
        }
    }

    /// The count of data clusters of the volume.
    pub fn cluster_count(&self) -> (r: u32)
        requires
            self.ebr@.len() == EBR_LEN,
        ensures
            r == self.spec_cluster_count(),
    {
        if self.bytes_per_sector == 0 || self.sectors_per_cluster == 0 {
            return 0;
        }
        let bps = self.bytes_per_sector as u64;
        let root_dir = (self.root_entry_count as u64 * 32 + (bps - 1)) / bps;
        let nf = self.num_fats as u64;
        let fs = self.fat_size() as u64;
        assert(nf * fs <= 255 * 0xFFFF_FFFFu64) by (nonlinear_arith)
            requires
                nf <= 255,
                fs <= 0xFFFF_FFFF,
        ;
        let fats = nf * fs;
        let meta = self.reserved_sector_count as u64 + fats + root_dir;
        let total = self.total_sectors() as u64;
        if meta > total {
            0
        } else {
            let r = (total - meta) / self.sectors_per_cluster as u64;
            assert(r <= total);
            r as u32
        }
    }

    /// Whether the boot sector carries the `0xAA55` signature.
    pub fn valid_signature(&self) -> (r: bool)
        requires
            self.ebr@.len() == EBR_LEN,
        ensures
            r == self.spec_valid_signature(),
    {
        read_le_u16(self.ebr.as_slice(), 474) == BOOT_SIGNATURE
    }

    /// The extended boot record, decoded according to the FAT type.
    pub fn extended_boot_record(&self) -> (e: ExtendedBootRecord)
        requires
            self.fat_type_computable(),
            self.ebr@.len() == EBR_LEN,
        ensures
            self.spec_fat_type() != FATType::Fat32 ==> (e matches ExtendedBootRecord::Legacy(l)
                && decodes_legacy_ebr(self.ebr@, l)),
            self.spec_fat_type() == FATType::Fat32 ==> (e matches ExtendedBootRecord::Fat32(f)
                && decodes_fat32_ebr(self.ebr@, f)),
    {
        match self.fat_type() {
            FATType::Fat12 | FATType::Fat16 => ExtendedBootRecord::Legacy(
                LegacyEBR::from_bytes(self.ebr.as_slice()),
            ),
            FATType::Fat32 => ExtendedBootRecord::Fat32(FAT32EBR::from_bytes(self.ebr.as_slice())),
        }
    }
}

} // verus!
