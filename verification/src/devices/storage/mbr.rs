//! Master Boot Record.
use vstd::prelude::*;
use crate::byteorder::{le_u16, le_u24, le_u32, read_le_u16, read_le_u24, read_le_u32};

verus! {

pub const MBR_SIGNATURE: u16 = 0xAA55;
/// Byte offset of the partition table within the boot sector.
pub const PARTITION_TABLE_OFFSET: usize = 0x1BE;
/// Size in bytes of one partition table entry.
pub const PARTITION_ENTRY_LEN: usize = 16;
/// Byte offset of the signature word within the boot sector.
pub const SIGNATURE_OFFSET: usize = 0x1FE;

#[derive(Debug, Clone, Copy, PartialEq, Eq, Structural)]
pub enum MBRPartitionType {
    Unknown,
    Empty,
    Fat32Lba,
    GPT,
}

/// One 16-byte partition table entry.
#[derive(Debug)]
pub struct MBRPartitionEntry {
    pub status: u8,
    pub chs_first: u32,
    pub raw_type: u8,
    pub chs_last: u32,
    pub lba_start: u32,
    pub num_sectors: u32,
}

/// `e` is the partition entry stored at byte offset `off` of `s`.
pub open spec fn decodes_partition_entry(s: Seq<u8>, off: int, e: MBRPartitionEntry) -> bool {
    &&& e.status == s[off]
    &&& e.chs_first == le_u24(s, off + 1)
    &&& e.raw_type == s[off + 4]
    &&& e.chs_last == le_u24(s, off + 5)
    &&& e.lba_start == le_u32(s, off + 8)
    &&& e.num_sectors == le_u32(s, off + 12)
}

/// Selects the active entries.
pub open spec fn is_active_pred() -> spec_fn(MBRPartitionEntry) -> bool {
    |e: MBRPartitionEntry| e.spec_is_active()
}

/// How the partition type byte is interpreted.
pub open spec fn partition_type_of(raw: u8) -> MBRPartitionType {
    if raw == 0x00 {
        MBRPartitionType::Empty
    } else if raw == 0x0C {
        MBRPartitionType::Fat32Lba
    } else if raw == 0xEE {
        MBRPartitionType::GPT
    } else {
        MBRPartitionType::Unknown
    }
}

/// Each known partition type has exactly one type byte: 0x00 is an empty
/// entry, 0x0C a FAT32 partition addressed by LBA, 0xEE a GPT protective
/// entry, and every other byte an unknown type. So two bytes give the same
/// known type only if they are equal.
pub proof fn lemma_partition_type_bytes(raw: u8, other: u8)
    ensures
        (partition_type_of(raw) == MBRPartitionType::Empty) == (raw == 0x00),
        (partition_type_of(raw) == MBRPartitionType::Fat32Lba) == (raw == 0x0C),
        (partition_type_of(raw) == MBRPartitionType::GPT) == (raw == 0xEE),
        (partition_type_of(raw) == MBRPartitionType::Unknown) == (raw != 0x00 && raw != 0x0C && raw
            != 0xEE),
        partition_type_of(raw) != MBRPartitionType::Unknown && partition_type_of(raw)
            == partition_type_of(other) ==> raw == other,
{
}

impl MBRPartitionEntry {
    pub open spec fn spec_is_active(&self) -> bool {
        self.status == 0x80
    }

    /// Decodes the entry at byte offset `off`.
    pub fn from_bytes(s: &[u8], off: usize) -> (e: MBRPartitionEntry)
        requires
            off + PARTITION_ENTRY_LEN <= s@.len(),
        ensures
            decodes_partition_entry(s@, off as int, e),
    {
        let n = s.len();
        assert(off + 16 <= n);
        MBRPartitionEntry {
            status: s[off],
            chs_first: read_le_u24(s, off + 1),
            raw_type: s[off + 4],
            chs_last: read_le_u24(s, off + 5),
            lba_start: read_le_u32(s, off + 8),
            num_sectors: read_le_u32(s, off + 12),
        }
    }

    pub fn is_active(&self) -> (b: bool)
        ensures
            b == self.spec_is_active(),
    {
        // Code for active/bootable. Any other code is inactive/invalid
        self.status == 0x80
    }

    pub fn partition_type(&self) -> (t: MBRPartitionType)
        ensures
            t == partition_type_of(self.raw_type),
    {
        match self.raw_type {
            0x00 => MBRPartitionType::Empty,
            0x0C => MBRPartitionType::Fat32Lba,
            0xEE => MBRPartitionType::GPT,
            _ => MBRPartitionType::Unknown,
        }
    }
}

/// Partition entries of an MBR
#[derive(Debug)]
pub struct MasterBootRecord {
    pub entries: Vec<MBRPartitionEntry>,
}

impl MasterBootRecord {
    /// Constructs an MBR from the bytes of a boot sector. Returns `None` if its
    /// invalid
    pub fn new(bytes: &[u8; 512]) -> (r: Option<Self>)
        ensures
            (le_u16(bytes@, SIGNATURE_OFFSET as int) == MBR_SIGNATURE) <==> r is Some,
            r matches Some(m) ==> {
                &&& m.entries@.len() == 4
                &&& forall|i: int|
                    0 <= i < 4 ==> decodes_partition_entry(
                        bytes@,
                        PARTITION_TABLE_OFFSET + PARTITION_ENTRY_LEN * i,
                        #[trigger] m.entries@[i],
                    )
            },
    {
        let s: &[u8] = bytes.as_slice();
        assert(s@ == bytes@);
        let signature = read_le_u16(s, SIGNATURE_OFFSET);
        if signature != MBR_SIGNATURE {
            return None;
        }
        let mut entries: Vec<MBRPartitionEntry> = Vec::new();
        let mut i: usize = 0;
        while i < 4
            invariant
                s@ == bytes@,
                s@.len() == 512,
                i <= 4,
                entries@.len() == i,
                forall|k: int|
                    0 <= k < i ==> decodes_partition_entry(
                        bytes@,
                        PARTITION_TABLE_OFFSET + PARTITION_ENTRY_LEN * k,
                        #[trigger] entries@[k],
                    ),
            decreases 4 - i,
        {
            entries.push(
                MBRPartitionEntry::from_bytes(s, PARTITION_TABLE_OFFSET + PARTITION_ENTRY_LEN * i),
            );
            i = i + 1;
        }
        Some(MasterBootRecord { entries })
    }

    /// Returns only the active partitions on the MBR, in table order
    pub fn active_partitions(&self) -> (r: Vec<&MBRPartitionEntry>)
        ensures
            r@.map_values(|e: &MBRPartitionEntry| *e) == self.entries@.filter(is_active_pred()),
    {
        let mut r: Vec<&MBRPartitionEntry> = Vec::new();
        let mut i: usize = 0;
        while i < self.entries.len()
            invariant
                i <= self.entries@.len(),
                r@.map_values(|e: &MBRPartitionEntry| *e) == self.entries@.take(i as int).filter(is_active_pred()),
            decreases self.entries@.len() - i,
        {
            let e = &self.entries[i];
            let ghost prev = self.entries@.take(i as int);
            assert(self.entries@.take(i + 1) =~= prev.push(*e));
            assert(prev.push(*e).drop_last() =~= prev);
            reveal(Seq::filter);
            assert(prev.push(*e).filter(is_active_pred()) == if e.spec_is_active() {
                prev.filter(is_active_pred()).push(*e)
            } else {
                prev.filter(is_active_pred())
            });
            let ghost old_r = r@;
            if e.is_active() {
                r.push(e);
                assert(r@.map_values(|e: &MBRPartitionEntry| *e) =~= old_r.map_values(
                    |e: &MBRPartitionEntry| *e,
                ).push(*e));
            }
            assert(r@.map_values(|e: &MBRPartitionEntry| *e) =~= self.entries@.take(i + 1).filter(
                is_active_pred(),
            ));
            i = i + 1;
        }
        assert(self.entries@.take(self.entries@.len() as int) =~= self.entries@);
        r
    }
}

} // verus!
