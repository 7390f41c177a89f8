use azpos_kernel::devices::storage::{BlockDevice, BlockDeviceError, BlockDeviceResult};
use azpos_kernel::filesystem::fat::boot_record::{FATBootRecord, FATMediaType};
use azpos_kernel::filesystem::fat::directories::{
    FATDate, FATDirectory, FATDirectoryEntry, FATFileAttributes, FATTime, OutOfBounds,
};
use azpos_kernel::filesystem::fat::fat::{FATEntry, FileAllocationTable};
use azpos_kernel::filesystem::fat::{
    boot_record_from_read, check_boot_record, fat_from_read, FATFilesystem, FATType, MountFailure,
};
use azpos_kernel::filesystem::{FilePath, FileSystem, FileSystemError};

fn put16(b: &mut [u8], off: usize, v: u16) {
    b[off..off + 2].copy_from_slice(&v.to_le_bytes());
}

fn put32(b: &mut [u8], off: usize, v: u32) {
    b[off..off + 4].copy_from_slice(&v.to_le_bytes());
}

/// A FAT32 boot sector: 512-byte sectors, 1 sector per cluster, 32
/// reserved sectors, 2 FATs of `fat_size` sectors, `total` sectors.
fn fat32_boot_sector(total: u32, fat_size: u32) -> Vec<u8> {
    let mut b = vec![0u8; 512];
    b[0..3].copy_from_slice(&[0xEB, 0x58, 0x90]);
    b[3..11].copy_from_slice(b"MSWIN4.1");
    put16(&mut b, 11, 512);
    b[13] = 1;
    put16(&mut b, 14, 32);
    b[16] = 2;
    put16(&mut b, 17, 0);
    put16(&mut b, 19, 0);
    b[21] = 0xF8;
    put16(&mut b, 22, 0);
    put32(&mut b, 32, total);
    put32(&mut b, 36, fat_size);
    put32(&mut b, 44, 2);
    b[510] = 0x55;
    b[511] = 0xAA;
    b
}

#[test]
fn path_parts_and_filename() {
    let p = FilePath::new(String::from("/Programs/adam.exe")).unwrap();
    assert_eq!(p.as_parts(), vec!["Programs", "adam.exe"]);
    assert_eq!(p.filename(), "adam.exe");
    assert!(!p.must_be_dir());
    assert_eq!(p.as_str(), "/Programs/adam.exe");
}

#[test]
fn path_dirs_drops_the_filename() {
    let p = FilePath::new(String::from("/a/b/c.txt")).unwrap();
    assert_eq!(p.path_dirs().as_str(), "/a/b");
    let top = FilePath::new(String::from("/a")).unwrap();
    assert_eq!(top.path_dirs().as_str(), "/");
}

#[test]
fn path_ending_in_slash_is_a_directory() {
    let p = FilePath::new(String::from("/a/b/")).unwrap();
    assert!(p.must_be_dir());
    assert_eq!(p.path_dirs().as_str(), "/a/b/");
}

#[test]
fn relative_and_malformed_paths_are_refused() {
    assert!(FilePath::new(String::from("a/b")).is_none());
    assert!(FilePath::new(String::from("")).is_none());
    assert!(FilePath::new(String::from("/a//b")).is_none());
}

#[test]
fn boot_record_fields_are_decoded() {
    let b = FATBootRecord::new(&fat32_boot_sector(70000, 600)).unwrap();
    assert_eq!(b.bytes_per_sector, 512);
    assert_eq!(b.oem_name, *b"MSWIN4.1");
    assert_eq!(b.total_sectors(), 70000);
    assert_eq!(b.fat_size(), 600);
    assert_eq!(b.fat_type(), FATType::Fat32);
    assert!(b.valid_signature());
    // 70000 - (32 + 2 * 600) sectors of one-sector clusters
    assert_eq!(b.cluster_count(), 70000 - 1232);
    assert_eq!(FATMediaType::from_raw(b.media_type), Some(FATMediaType::Fixed));
}

#[test]
fn short_boot_sector_is_refused() {
    assert!(FATBootRecord::new(&[0u8; 511]).is_none());
}

#[test]
fn fat16_volume_is_detected() {
    let mut s = fat32_boot_sector(0, 0);
    put16(&mut s, 17, 512);
    put16(&mut s, 19, 20000);
    put16(&mut s, 22, 20);
    b_check(&s, FATType::Fat16);
}

fn b_check(s: &[u8], t: FATType) {
    let b = FATBootRecord::new(s).unwrap();
    assert_eq!(b.fat_type(), t);
}

#[test]
fn boot_record_checks_give_each_failure() {
    let good = FATBootRecord::new(&fat32_boot_sector(70000, 600)).unwrap();
    assert_eq!(check_boot_record(&good, 512), Ok(()));
    assert_eq!(
        check_boot_record(&good, 4096),
        Err(MountFailure::SectorSizeMismatch { read: 512, expected: 4096 })
    );
    let mut unsigned = fat32_boot_sector(70000, 600);
    unsigned[510] = 0;
    let b = FATBootRecord::new(&unsigned).unwrap();
    assert_eq!(check_boot_record(&b, 512), Err(MountFailure::InvalidSignature));
    let mut fat16 = fat32_boot_sector(0, 0);
    put16(&mut fat16, 17, 512);
    put16(&mut fat16, 19, 20000);
    put16(&mut fat16, 22, 20);
    let b = FATBootRecord::new(&fat16).unwrap();
    assert_eq!(check_boot_record(&b, 512), Err(MountFailure::UnsupportedFatType));
    let mut no_clusters = fat32_boot_sector(0, 0);
    put16(&mut no_clusters, 17, 512);
    put16(&mut no_clusters, 19, 20000);
    put16(&mut no_clusters, 22, 20);
    no_clusters[13] = 0;
    let b = FATBootRecord::new(&no_clusters).unwrap();
    assert_eq!(check_boot_record(&b, 512), Err(MountFailure::MalformedBootRecord));
}

#[test]
fn mount_failure_messages() {
    assert_eq!(
        MountFailure::SectorSizeMismatch { read: 512, expected: 4096 }.message(),
        "Invalid sector size: read 512, expected 4096"
    );
    assert_eq!(
        MountFailure::UnsupportedFatType.message(),
        "Only FAT32 drives are currently supported"
    );
}

fn fat_bytes(entries: &[u32], sectors: usize) -> Vec<u8> {
    let mut v = vec![0u8; 512 * sectors];
    for (i, e) in entries.iter().enumerate() {
        put32(&mut v, 4 * i, *e);
    }
    v
}

#[test]
fn fat_chains_are_followed_to_their_end() {
    let b = FATBootRecord::new(&fat32_boot_sector(134, 1)).unwrap();
    let raw = fat_bytes(&[0x0FFF_FFF8, 0xFFFF_FFFF, 3, 5, 0, 0x0FFF_FFFF, 0x0FFF_FFF7, 0], 1);
    let fat = FileAllocationTable::new(raw, &b).unwrap();
    assert_eq!(fat.get_chain(2), Some(vec![2, 3, 5]));
    assert_eq!(fat.get_chain(5), Some(vec![5]));
    assert_eq!(fat.get_chain(4), None);
    assert_eq!(fat.get_chain(6), None);
    assert_eq!(fat.get_entry(3), Some(FATEntry::Allocated { next: 5 }));
    assert_eq!(fat.get_entry(4), Some(FATEntry::Free));
    assert_eq!(fat.get_entry(6), Some(FATEntry::Bad));
    assert_eq!(fat.get_entry(1), Some(FATEntry::Unknown));
    assert_eq!(fat.get_entry(200), None);
}

#[test]
fn cyclic_chains_are_refused() {
    let b = FATBootRecord::new(&fat32_boot_sector(134, 1)).unwrap();
    let raw = fat_bytes(&[0x0FFF_FFF8, 0xFFFF_FFFF, 3, 2, 4], 1);
    let fat = FileAllocationTable::new(raw, &b).unwrap();
    assert_eq!(fat.get_chain(2), None);
    assert_eq!(fat.get_chain(4), None);
}

#[test]
fn fat_of_the_wrong_size_is_refused() {
    let b = FATBootRecord::new(&fat32_boot_sector(70000, 2)).unwrap();
    assert!(FileAllocationTable::new(fat_bytes(&[], 1), &b).is_none());
}

#[test]
fn fat_iterator_walks_the_entries() {
    let b = FATBootRecord::new(&fat32_boot_sector(134, 1)).unwrap();
    let fat = FileAllocationTable::new(fat_bytes(&[0, 0, 0x0FFF_FFFF], 1), &b).unwrap();
    let mut it = fat.iter();
    assert_eq!(it.next(), Some(FATEntry::Unknown));
    assert_eq!(it.next(), Some(FATEntry::Unknown));
    assert_eq!(it.next(), Some(FATEntry::AllocatedEOF));
    assert_eq!(it.next(), Some(FATEntry::Free));
}

fn dir_entry(name: &[u8; 8], attr: u8, cluster: u32, size: u32) -> Vec<u8> {
    let mut e = vec![0u8; 32];
    e[0..8].copy_from_slice(name);
    e[8..11].copy_from_slice(b"TXT");
    e[11] = attr;
    put16(&mut e, 20, (cluster >> 16) as u16);
    put16(&mut e, 26, cluster as u16);
    put32(&mut e, 28, size);
    e
}

#[test]
fn directory_stops_at_the_end_marker() {
    let mut data = dir_entry(b"HELLO   ", 0x20, 7, 1234);
    data.extend(dir_entry(b"\xE5ELETED ", 0x20, 0, 0));
    data.extend(vec![0u8; 32]);
    data.extend(dir_entry(b"AFTER   ", 0x20, 9, 1));
    let dir = FATDirectory::new(data).unwrap();
    assert_eq!(dir.len(), 2);
    let first = dir.index(0);
    assert_eq!(&first.file_name, b"HELLO   ");
    assert_eq!(first.first_cluster_low, 7);
    assert_eq!(first.file_size, 1234);
    assert!(first.attributes.archive());
    assert!(!first.is_free());
    assert!(dir.index(1).is_free());
    let mut it = dir.iter();
    assert!(it.next().is_some());
    assert!(it.next().is_some());
    assert!(it.next().is_none());
    assert!(FATDirectory::new(vec![0u8; 31]).is_none());
}

#[test]
fn directory_entry_decodes_at_an_offset() {
    let mut data = vec![0xAAu8; 4];
    data.extend(dir_entry(b"X       ", 0x10, 0x0001_0002, 0));
    let e = FATDirectoryEntry::from_bytes(&data, 4);
    assert!(e.attributes.directory());
    assert_eq!(e.first_cluster_high, 1);
    assert_eq!(e.first_cluster_low, 2);
}

#[test]
fn attribute_bits() {
    let lfn = FATFileAttributes { raw: 0x0F };
    assert!(lfn.long_file_name());
    assert!(lfn.read_only() && lfn.hidden() && lfn.system() && lfn.volume_id());
    let plain = FATFileAttributes { raw: 0x01 };
    assert!(!plain.long_file_name());
}

#[test]
fn dates_and_times_unpack() {
    // 2024-03-15: year 44, month 3, day 15
    let d = FATDate { raw: (44 << 9) | (3 << 5) | 15 };
    assert_eq!(d.year(), 2024);
    assert_eq!(d.month(), 3);
    assert_eq!(d.day(), 15);
    // 13:37:42
    let t = FATTime { raw: (13 << 11) | (37 << 5) | 21 };
    assert_eq!(t.hours(), 13);
    assert_eq!(t.minutes(), 37);
    assert_eq!(t.seconds(), 42);
}

#[test]
fn setting_date_and_time_fields() {
    let mut d = FATDate { raw: (3 << 5) | 15 };
    assert_eq!(d.set_seconds(2030), Ok(()));
    assert_eq!(d.year(), 2030);
    assert_eq!(d.day(), 15);
    assert_eq!(d.set_seconds(1980 + 200), Err(OutOfBounds));
    assert_eq!(d.year(), 2030);
    let mut t = FATTime { raw: 13 << 11 };
    assert_eq!(t.set_seconds(58), Ok(()));
    assert_eq!(t.seconds(), 58);
    assert_eq!(t.hours(), 13);
    assert_eq!(t.set_seconds(64), Err(OutOfBounds));
}

struct MemDisk {
    blocks: Vec<u8>,
}

impl BlockDevice for MemDisk {
    fn num_blocks(&self) -> usize {
        self.blocks.len() / 512
    }

    fn block_size(&self) -> usize {
        512
    }

    fn read_blocks(&self, index: usize, n_blocks: usize) -> BlockDeviceResult<Vec<u8>> {
        let start = index * 512;
        let end = start + n_blocks * 512;
        if end > self.blocks.len() {
            return Err(BlockDeviceError::InvalidBlock);
        }
        Ok(self.blocks[start..end].to_vec())
    }

    fn write_blocks(&mut self, index: usize, data: &[u8]) -> BlockDeviceResult<()> {
        let start = index * 512;
        self.blocks[start..start + data.len()].copy_from_slice(data);
        Ok(())
    }
}

#[test]
fn mounting_a_fat32_volume() {
    let mut blocks = fat32_boot_sector(134, 1);
    blocks.extend(vec![0u8; 512 * 31]);
    blocks.extend(fat_bytes(&[0x0FFF_FFF8, 0x0FFF_FFFF, 0x0FFF_FFFF], 1));
    let fs = FATFilesystem::mount(MemDisk { blocks }).unwrap();
    assert_eq!(fs.boot_record().fat_size(), 1);
    assert_eq!(fs.fat().get_entry(2), Some(FATEntry::AllocatedEOF));
    let disk = fs.unmount();
    assert_eq!(disk.num_blocks(), 33);
}

#[test]
fn mounting_fails_with_a_message() {
    let blocks = vec![0u8; 512];
    match FATFilesystem::mount(MemDisk { blocks }) {
        Err(FileSystemError::MountError(msg)) => {
            assert_eq!(msg, "Invalid sector size: read 0, expected 512")
        },
        Ok(_) => panic!("an empty disk mounted"),
    }
    let mut unsigned = fat32_boot_sector(134, 1);
    unsigned[511] = 0;
    match FATFilesystem::mount(MemDisk { blocks: unsigned }) {
        Err(FileSystemError::MountError(msg)) => assert_eq!(msg, "Invalid FAT signature"),
        Ok(_) => panic!("an unsigned disk mounted"),
    }
    match FATFilesystem::mount(MemDisk { blocks: Vec::new() }) {
        Err(FileSystemError::MountError(msg)) => assert_eq!(msg, "Could not read from the drive"),
        Ok(_) => panic!("a missing disk mounted"),
    }
}

#[test]
fn boot_record_from_each_read_outcome() {
    assert_eq!(
        boot_record_from_read(Err(BlockDeviceError::InvalidBlock), 512).err(),
        Some(MountFailure::ReadFailed(BlockDeviceError::InvalidBlock))
    );
    assert_eq!(
        boot_record_from_read(Ok(vec![0u8; 100]), 512).err(),
        Some(MountFailure::BootSectorTooShort)
    );
    assert_eq!(
        boot_record_from_read(Ok(fat32_boot_sector(134, 1)), 4096).err(),
        Some(MountFailure::SectorSizeMismatch { read: 512, expected: 4096 })
    );
    let b = boot_record_from_read(Ok(fat32_boot_sector(134, 1)), 512).unwrap();
    assert_eq!(b.fat_size(), 1);
}

#[test]
fn fat_from_each_read_outcome() {
    let b = FATBootRecord::new(&fat32_boot_sector(134, 1)).unwrap();
    assert_eq!(
        fat_from_read(Err(BlockDeviceError::OutOfMemory), &b).err(),
        Some(MountFailure::ReadFailed(BlockDeviceError::OutOfMemory))
    );
    assert_eq!(fat_from_read(Ok(fat_bytes(&[], 2)), &b).err(), Some(MountFailure::FatSizeMismatch));
    let fat = fat_from_read(Ok(fat_bytes(&[0x0FFF_FFF8, 0x0FFF_FFFF, 0x0FFF_FFFF], 1)), &b).unwrap();
    assert_eq!(fat.get_entry(2), Some(FATEntry::AllocatedEOF));
}
