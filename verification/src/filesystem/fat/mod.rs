//! The FAT filesystem.
use vstd::prelude::*;
use crate::devices::storage::{BlockDevice, BlockDeviceError, BlockDeviceResult};
use super::{FileSystem, FileSystemError, FileSystemResult};
use boot_record::{decodes_boot_record, FATBootRecord, BOOT_SECTOR_LEN, EBR_LEN};
use fat::FileAllocationTable;

/// FAT Boot Record structures
pub mod boot_record;
/// The titular File Allocation Table
pub mod fat;
/// FAT directory entries
pub mod directories;

verus! {

/// Types of FAT filesystem
#[derive(Debug, Clone, Copy, PartialEq, Eq, Structural)]
pub enum FATType {
    Fat12,
    Fat16,
    Fat32,
}

/// Why a block device could not be mounted as a FAT filesystem.
#[derive(Debug, PartialEq, Eq, Structural)]
pub enum MountFailure {
    /// Reading from the device failed
    ReadFailed(BlockDeviceError),
    /// The boot sector is shorter than 512 bytes
    BootSectorTooShort,
    /// The boot record's sector size differs from the device's block size
    SectorSizeMismatch { read: usize, expected: usize },
    /// The boot sector lacks the `0xAA55` signature
    InvalidSignature,
    /// The boot record's geometry is inconsistent (its cluster count cannot
    /// be computed)
    MalformedBootRecord,
    /// The filesystem is not FAT32
    UnsupportedFatType,
    /// The FAT read from the device does not have the size the boot record
    /// gives
    FatSizeMismatch,
}

/// The character of a decimal digit.
pub open spec fn digit_char(d: nat) -> char {
    (d + 48) as char
}

/// The decimal digits of `n`, most significant first, without leading
/// zeros: how `{}` formats an unsigned integer.
pub open spec fn decimal(n: nat) -> Seq<char>
    decreases n,
{
    if n < 10 {
        seq![digit_char(n)]
    } else {
        decimal(n / 10).push(digit_char(n % 10))
    }
}

/// The text of the sector size mismatch message.
pub open spec fn sector_size_text(read: usize, expected: usize) -> Seq<char> {
    "Invalid sector size: read "@ + decimal(read as nat) + ", expected "@ + decimal(expected as nat)
}

/// Formats the sector size mismatch message with `format!`, which writes
/// each number in decimal.
#[verifier::external_body]
fn sector_size_message(read: usize, expected: usize) -> (r: String)
    ensures
        r@ == sector_size_text(read, expected),
{
    format!("Invalid sector size: read {}, expected {}", read, expected)
}

/// The message describing a failure.
pub open spec fn failure_text(f: MountFailure) -> Seq<char> {
    match f {
        MountFailure::ReadFailed(_) => "Could not read from the drive"@,
        MountFailure::BootSectorTooShort => "Boot sector too short"@,
        MountFailure::SectorSizeMismatch { read, expected } => sector_size_text(read, expected),
        MountFailure::InvalidSignature => "Invalid FAT signature"@,
        MountFailure::MalformedBootRecord => "Malformed boot record"@,
        MountFailure::UnsupportedFatType => "Only FAT32 drives are currently supported"@,
        MountFailure::FatSizeMismatch => "FAT size mismatch"@,
    }
}

impl MountFailure {
    /// A message describing the failure.
    pub fn message(&self) -> (r: String)
        ensures
            r@ == failure_text(*self),
    {
        match self {
            MountFailure::ReadFailed(_) => String::from_str("Could not read from the drive"),
            MountFailure::BootSectorTooShort => String::from_str("Boot sector too short"),
            MountFailure::SectorSizeMismatch { read, expected } => sector_size_message(
                *read,
                *expected,
            ),
            MountFailure::InvalidSignature => String::from_str("Invalid FAT signature"),
            MountFailure::MalformedBootRecord => String::from_str("Malformed boot record"),
            MountFailure::UnsupportedFatType => String::from_str(
                "Only FAT32 drives are currently supported",
            ),
            MountFailure::FatSizeMismatch => String::from_str("FAT size mismatch"),
        }
    }
}

pub open spec fn boot_record_verdict(b: FATBootRecord, block_size: usize) -> Result<(), MountFailure> {
    if b.bytes_per_sector != block_size {
        Err(MountFailure::SectorSizeMismatch { read: b.bytes_per_sector as usize, expected: block_size })
    } else if !b.spec_valid_signature() {
        Err(MountFailure::InvalidSignature)
    } else if !b.fat_type_computable() || b.bytes_per_sector == 0 {
        Err(MountFailure::MalformedBootRecord)
    } else if b.spec_fat_type() != FATType::Fat32 {
        Err(MountFailure::UnsupportedFatType)
    } else {
        Ok(())
    }
}

/// Checks that a boot record describes a FAT32 volume with the device's
/// sector size.
pub fn check_boot_record(b: &FATBootRecord, block_size: usize) -> (r: Result<(), MountFailure>)
    requires
        b.ebr@.len() == EBR_LEN,
    ensures
        r == boot_record_verdict(*b, block_size),
{
    if b.bytes_per_sector as usize != block_size {
        return Err(
            MountFailure::SectorSizeMismatch { read: b.bytes_per_sector as usize, expected: block_size },
        );
    }
    if !b.valid_signature() {
        return Err(MountFailure::InvalidSignature);
    }
    if !fat_type_is_computable(b) || b.bytes_per_sector == 0 {
        return Err(MountFailure::MalformedBootRecord);
    }
    if b.fat_type() != FATType::Fat32 {
        return Err(MountFailure::UnsupportedFatType);
    }
    Ok(())
}

/// Decides [`FATBootRecord::fat_type_computable`].
fn fat_type_is_computable(b: &FATBootRecord) -> (r: bool)
    ensures
        r == b.fat_type_computable(),
{
    if b.root_entry_count == 0 || b.fat_size_16 == 0 {
        return true;
    }
    let rec = b.root_entry_count as u64;
    let bps = b.bytes_per_sector as u64;
    if bps == 0 || rec * 32 + (bps - 1) > 0xFFFF {
        return false;
    }
    let nf = b.num_fats as u64;
    let fs = b.fat_size_16 as u64;
    assert(nf * fs <= 255 * 0xFFFF) by (nonlinear_arith)
        requires
            nf <= 255,
            fs <= 0xFFFF,
    ;
    let fats = nf * fs;
    if fats > 0xFFFF {
        return false;
    }
    let meta = b.reserved_sector_count as u64 + fats + (rec * 32 + (bps - 1)) / bps;
    meta <= 0xFFFF && meta <= b.total_sectors() as u64 && b.sectors_per_cluster != 0
}

/// The blocks a volume's boot record is read from, as (first block, block
/// count): its first block.
pub fn boot_read_args() -> (r: (usize, usize))
    ensures
        r == (0usize, 1usize),
{
    (0, 1)
}

/// The blocks a volume's first allocation table is read from, as (first
/// block, block count): the table's sectors, right after the reserved ones.
pub fn fat_read_args(b: &FATBootRecord) -> (r: (usize, usize))
    requires
        b.ebr@.len() == EBR_LEN,
    ensures
        r == (b.reserved_sector_count as usize, b.spec_fat_size() as usize),
{
    (b.reserved_sector_count as usize, b.fat_size() as usize)
}

/// The boot record of a volume, from what reading its first sector gave:
/// the read's error, a too short sector, or the decoded record when it
/// passes [`check_boot_record`] against the device's block size.
pub fn boot_record_from_read(read: BlockDeviceResult<Vec<u8>>, block_size: usize) -> (r: Result<
    FATBootRecord,
    MountFailure,
>)
    ensures
        match read {
            Err(e) => r == Err::<FATBootRecord, MountFailure>(MountFailure::ReadFailed(e)),
            Ok(sector) => if sector@.len() < BOOT_SECTOR_LEN {
                r == Err::<FATBootRecord, MountFailure>(MountFailure::BootSectorTooShort)
            } else {
                match r {
                    Ok(b) => {
                        &&& decodes_boot_record(sector@, b)
                        &&& b.ebr@.len() == EBR_LEN
                        &&& boot_record_verdict(b, block_size) is Ok
                    },
                    Err(e) => forall|b: FATBootRecord|
                        decodes_boot_record(sector@, b) && b.ebr@.len() == EBR_LEN
                            ==> #[trigger] boot_record_verdict(b, block_size) == Err::<(), MountFailure>(e),
                }
            },
        },
{
    let sector = match read {
        Ok(s) => s,
        Err(e) => return Err(MountFailure::ReadFailed(e)),
    };
    let boot_record = match FATBootRecord::new(sector.as_slice()) {
        Some(b) => b,
        None => return Err(MountFailure::BootSectorTooShort),
    };
    match check_boot_record(&boot_record, block_size) {
        Ok(()) => Ok(boot_record),
        Err(e) => Err(e),
    }
}

/// The allocation table of a volume, from what reading its sectors gave:
/// the read's error, or the table when the data has the size the boot
/// record gives.
pub fn fat_from_read(read: BlockDeviceResult<Vec<u8>>, boot_record: &FATBootRecord) -> (r: Result<
    FileAllocationTable,
    MountFailure,
>)
    requires
        boot_record.bytes_per_sector != 0,
        boot_record.fat_type_computable(),
        boot_record.ebr@.len() == EBR_LEN,
    ensures
        match read {
            Err(e) => r == Err::<FileAllocationTable, MountFailure>(MountFailure::ReadFailed(e)),
            Ok(raw) => if raw@.len() as int / (boot_record.bytes_per_sector as int)
                == boot_record.spec_fat_size() {
                r matches Ok(t) && {
                    &&& t.data() == raw@
                    &&& t.kind() == boot_record.spec_fat_type()
                    &&& t.cluster_limit() == boot_record.spec_cluster_count()
                }
            } else {
                r == Err::<FileAllocationTable, MountFailure>(MountFailure::FatSizeMismatch)
            },
        },
{
    let raw = match read {
        Ok(raw) => raw,
        Err(e) => return Err(MountFailure::ReadFailed(e)),
    };
    match FileAllocationTable::new(raw, boot_record) {
        Some(f) => Ok(f),
        None => Err(MountFailure::FatSizeMismatch),
    }
}

/// A handle to a FAT filesystem on a particular block device
pub struct FATFilesystem<D> {
    drive: D,
    boot_record: FATBootRecord,
    fat: FileAllocationTable,
}

impl<D> FATFilesystem<D> {
    /// The boot record of the mounted volume.
    pub closed spec fn spec_boot_record(&self) -> FATBootRecord {
        self.boot_record
    }

    /// The allocation table of the mounted volume.
    pub closed spec fn spec_fat(&self) -> FileAllocationTable {
        self.fat
    }

    /// The block device the volume was mounted from.
    pub closed spec fn spec_drive(&self) -> D {
        self.drive
    }

    /// The boot record of the mounted volume.
    pub fn boot_record(&self) -> (r: &FATBootRecord)
        ensures
            *r == self.spec_boot_record(),
    {
        &self.boot_record
    }

    /// The allocation table of the mounted volume.
    pub fn fat(&self) -> (r: &FileAllocationTable)
        ensures
            *r == self.spec_fat(),
    {
        &self.fat
    }
}

impl<D: BlockDevice> FATFilesystem<D> {
    /// Reads the boot record and the FAT, checking that they describe a
    /// FAT32 volume with the device's sector size.
    fn try_mount(drive: D) -> (r: Result<Self, MountFailure>)
        ensures
            r matches Ok(fs) ==> {
                let b = fs.spec_boot_record();
                &&& fs.spec_drive() == drive
                &&& b.ebr@.len() == EBR_LEN
                &&& boot_record_verdict(b, b.bytes_per_sector as usize) is Ok
                &&& fs.spec_fat().kind() == FATType::Fat32
                &&& fs.spec_fat().cluster_limit() == b.spec_cluster_count()
                &&& fs.spec_fat().data().len() as int / (b.bytes_per_sector as int) == b.spec_fat_size()
            },
    {
        let (boot_start, boot_len) = boot_read_args();
        let boot_sector = drive.read_blocks(boot_start, boot_len);
        let boot_record = match boot_record_from_read(boot_sector, drive.block_size()) {
            Ok(b) => b,
            Err(e) => return Err(e),
        };
        let (fat_start, fat_len) = fat_read_args(&boot_record);
        let fat = match fat_from_read(drive.read_blocks(fat_start, fat_len), &boot_record) {
            Ok(f) => f,
            Err(e) => return Err(e),
        };
        Ok(Self { drive, boot_record, fat })
    }
}

impl<D: BlockDevice> FileSystem<D> for FATFilesystem<D> {
    fn mount(drive: D) -> (r: FileSystemResult<Self>)
        ensures
            r matches Err(FileSystemError::MountError(m)) ==> exists|f: MountFailure|
                m@ == failure_text(f),
            r matches Ok(fs) ==> {
                let b = fs.spec_boot_record();
                &&& fs.spec_drive() == drive
                &&& b.ebr@.len() == EBR_LEN
                &&& boot_record_verdict(b, b.bytes_per_sector as usize) is Ok
                &&& fs.spec_fat().kind() == FATType::Fat32
                &&& fs.spec_fat().cluster_limit() == b.spec_cluster_count()
                &&& fs.spec_fat().data().len() as int / (b.bytes_per_sector as int) == b.spec_fat_size()
            },
    {
        match Self::try_mount(drive) {
            Ok(fs) => Ok(fs),
            Err(e) => Err(FileSystemError::MountError(e.message())),
        }
    }

    fn unmount(self) -> (r: D)
        ensures
            r == self.spec_drive(),
    {
        self.drive
    }
}

} // verus!
