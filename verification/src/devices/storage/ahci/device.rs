//! An individual AHCI device (or a partition of one): the checks and the
//! layout of the commands that read and write it.
use vstd::prelude::*;
use super::ata::{ATACommand, ATADriveInfo};
use super::fis::{FISRegisterH2D, FISType};
use super::mmio::{AHCICommandHeader, PRDTEntry};
use super::MAX_COMMANDS_PER_PORT;
use crate::slot_bits::{SlotBits, bitvec_bits, bitvec_new, bitvec_len, bitvec_push, bitvec_set, bitvec_first_one};
use super::PRDT_ENTRIES_PER_COMMAND;
use crate::devices::storage::BlockDeviceError;
use crate::devices::storage::mbr::{MasterBootRecord, MBRPartitionEntry, is_active_pred};

verus! {

/// The most bytes one command can transfer: a full table of maximal PRDT
/// entries.
pub const BYTES_PER_COMMAND: usize = 0x400000 * 16;

/// The LBA mode bit of the FIS device register.
pub const DEVICE_LBA_MODE: u8 = 1 << 6;

/// The lengths of the PRDT entries that cover a buffer of `len` bytes:
/// full 4MiB entries, then the remainder.
pub open spec fn prdt_lengths(len: nat) -> Seq<u32>
    decreases len,
{
    if len == 0 {
        Seq::empty()
    } else if len <= PRDTEntry::MAX_DATA_SIZE {
        seq![len as u32]
    } else {
        seq![PRDTEntry::MAX_DATA_SIZE].add(prdt_lengths((len - PRDTEntry::MAX_DATA_SIZE) as nat))
    }
}

/// The sum of a list of lengths.
pub open spec fn total(s: Seq<u32>) -> int
    decreases s.len(),
{
    if s.len() == 0 {
        0
    } else {
        s[0] + total(s.drop_first())
    }
}

/// The PRDT entries cover the buffer exactly, each one no larger than the
/// maximum and not empty.
pub proof fn lemma_prdt_lengths(len: nat)
    ensures
        total(prdt_lengths(len)) == len,
        forall|i: int|
            0 <= i < prdt_lengths(len).len() ==> 0 < #[trigger] prdt_lengths(len)[i]
                <= PRDTEntry::MAX_DATA_SIZE,
        prdt_lengths(len).len() == (len + PRDTEntry::MAX_DATA_SIZE - 1) / PRDTEntry::MAX_DATA_SIZE as int,
    decreases len,
{
    let s = prdt_lengths(len);
    if len == 0 {
    } else if len <= PRDTEntry::MAX_DATA_SIZE {
        assert(s.drop_first() =~= Seq::<u32>::empty());
        assert(total(s) == s[0] + total(s.drop_first()));
    } else {
        let rest = (len - PRDTEntry::MAX_DATA_SIZE) as nat;
        lemma_prdt_lengths(rest);
        assert(s.drop_first() =~= prdt_lengths(rest));
        assert(total(s) == s[0] + total(s.drop_first()));
        assert forall|i: int| 0 <= i < s.len() implies 0 < #[trigger] s[i] <= PRDTEntry::MAX_DATA_SIZE by {
            if i > 0 {
                assert(s[i] == prdt_lengths(rest)[i - 1]);
            }
        }
    }
}

/// Splits a buffer of `len_bytes` bytes into PRDT entry lengths.
pub fn prdt_split(len_bytes: usize) -> (r: Vec<u32>)
    ensures
        r@ == prdt_lengths(len_bytes as nat),
{
    let max = PRDTEntry::MAX_DATA_SIZE as usize;
    let mut r: Vec<u32> = Vec::new();
    let mut remaining = len_bytes;
    assert(r@ + prdt_lengths(remaining as nat) =~= prdt_lengths(len_bytes as nat));
    while remaining > 0
        invariant
            max == PRDTEntry::MAX_DATA_SIZE,
            r@ + prdt_lengths(remaining as nat) == prdt_lengths(len_bytes as nat),
        decreases remaining,
    {
        let this_len = if remaining < max {
            remaining
        } else {
            max
        };
        let ghost old_r = r@;
        r.push(this_len as u32);
        assert(prdt_lengths(remaining as nat) == seq![this_len as u32] + prdt_lengths(
            (remaining - this_len) as nat,
        ));
        assert(r@ + prdt_lengths((remaining - this_len) as nat) =~= old_r + (seq![this_len as u32]
            + prdt_lengths((remaining - this_len) as nat)));
        remaining = remaining - this_len;
    }
    assert(r@ + Seq::<u32>::empty() =~= r@);
    r
}

/// The low and high 24-bit halves of a 48-bit LBA.
pub open spec fn lba_halves(block: int) -> (int, int) {
    (block % 0x100_0000, (block / 0x100_0000) % 0x100_0000)
}

/// An AHCI drive, or a partition of one: where it starts on the physical
/// drive and how many sectors it holds.
#[derive(Debug, Clone)]
pub struct AHCIDevice {
    /// Basic info on the (physical) device (not the partiton)
    pub info: ATADriveInfo,
    /// The LBA sector the device starts at. Used for partitioning.
    pub start_sector: usize,
    /// The number of sectors the device contains. Used for partitioning.
    pub sectors: usize,
}

impl AHCIDevice {
    /// A whole drive, described by its identify data.
    pub fn new(info: ATADriveInfo) -> (d: Self)
        ensures
            d.start_sector == 0,
            d.sectors == info.spec_sectors(),
            d.info == info,
    {
        let sectors = info.sectors();
        AHCIDevice { start_sector: 0, sectors, info }
    }

    /// The number of blocks on this device: the partition's own sector
    /// count, or the whole drive's for the drive itself.
    pub fn num_blocks(&self) -> (r: usize)
        ensures
            r == self.sectors,
    {
        self.sectors
    }

    pub fn block_size(&self) -> (r: usize)
        ensures
            r == self.info.spec_sector_size(),
    {
        self.info.sector_size()
    }

    /// The number of blocks/sectors that can be fit in a single command for
    /// reading or writing: as many as a full command transfers, but at most
    /// `u16::MAX` as the ATA count field is 16 bits.
    pub fn blocks_per_command(&self) -> (r: usize)
        requires
            self.info.spec_sector_size() != 0,
        ensures
            r == if BYTES_PER_COMMAND / self.info.spec_sector_size() <= u16::MAX {
                BYTES_PER_COMMAND / self.info.spec_sector_size()
            } else {
                u16::MAX as usize
            },
    {
        let per_command = BYTES_PER_COMMAND / self.block_size();
        if per_command <= u16::MAX as usize {
            per_command
        } else {
            u16::MAX as usize
        }
    }

    /// The command FIS that reads or writes `count` blocks starting at
    /// block `block` of this device; `InvalidBlock` if the count is more
    /// than the device holds.
    pub fn command_fis(&self, command: ATACommand, block: usize, count: usize) -> (r: Result<
        FISRegisterH2D,
        BlockDeviceError,
    >)
        requires
            block + self.start_sector <= u64::MAX,
        ensures
            count > self.sectors ==> r == Err::<FISRegisterH2D, BlockDeviceError>(
                BlockDeviceError::InvalidBlock,
            ),
            count <= self.sectors ==> (r matches Ok(f) && {
                let (lo, hi) = lba_halves(block + self.start_sector);
                &&& f.is_command
                &&& f.command == command
                &&& f.device == DEVICE_LBA_MODE
                &&& f.lba_low == lo
                &&& f.lba_high == hi
                &&& f.count == count % 0x1_0000
                &&& f.fields_in_range()
                &&& f.fis_type == FISType::RegisterH2D
                &&& f.port_mult_port == 0
                &&& f.feature_low == 0
                &&& f.feature_high == 0
                &&& f.icc == 0
                &&& f.control == 0
            }),
    {
        if count > self.sectors {
            return Err(BlockDeviceError::InvalidBlock);
        }
        let block_actual = block as u64 + self.start_sector as u64;
        let lba_low = block_actual % 0x100_0000;
        let lba_high = (block_actual / 0x100_0000) % 0x100_0000;
        let mut f = FISRegisterH2D::new_with_type();
        f.is_command = true;
        f.command = command;
        // Enable LBA (linear) addressing
        f.device = DEVICE_LBA_MODE;
        f.lba_low = lba_low as u32;
        f.lba_high = lba_high as u32;
        f.count = (count % 0x1_0000) as u16;
        Ok(f)
    }

    /// The number of blocks a read of `n_blocks` blocks transfers in one
    /// command: `None` for an empty read, which transfers nothing. The read
    /// must fit in one command.
    pub fn read_plan(&self, n_blocks: usize) -> (r: Option<usize>)
        requires
            self.info.spec_sector_size() != 0,
            n_blocks <= BYTES_PER_COMMAND / self.info.spec_sector_size(),
            n_blocks <= u16::MAX,
        ensures
            n_blocks == 0 <==> r is None,
            r matches Some(n) ==> n == n_blocks,
    {
        if n_blocks == 0 {
            return None;
        }
        Some(n_blocks)
    }

    /// The number of blocks a write of `data_len` bytes covers: `Ok(None)`
    /// for an empty write, `LengthNotBlockMultiple` if the length is not a
    /// whole number of blocks. The write must fit in one command.
    pub fn write_plan(&self, data_len: usize) -> (r: Result<Option<usize>, BlockDeviceError>)
        requires
            self.info.spec_sector_size() != 0,
            data_len <= BYTES_PER_COMMAND,
            data_len / self.info.spec_sector_size() <= u16::MAX,
        ensures
            data_len == 0 ==> r == Ok::<Option<usize>, BlockDeviceError>(None),
            data_len != 0 && data_len % self.info.spec_sector_size() != 0 ==> r == Err::<
                Option<usize>,
                BlockDeviceError,
            >(BlockDeviceError::LengthNotBlockMultiple),
            data_len != 0 && data_len % self.info.spec_sector_size() == 0 ==> r == Ok::<
                Option<usize>,
                BlockDeviceError,
            >(Some(data_len / self.info.spec_sector_size())),
    {
        if data_len == 0 {
            return Ok(None);
        }
        if data_len % self.block_size() != 0 {
            return Err(BlockDeviceError::LengthNotBlockMultiple);
        }
        Ok(Some(data_len / self.block_size()))
    }

    /// The devices for the active partitions of a master boot record found
    /// on this device, in table order: each starts at its partition's first
    /// sector and holds its sectors, with the drive's info.
    pub fn partition(&self, mbr: &MasterBootRecord) -> (r: Vec<AHCIDevice>)
        ensures
            r@.len() == mbr.entries@.filter(is_active_pred()).len(),
            forall|i: int|
                0 <= i < r@.len() ==> {
                    let e = mbr.entries@.filter(is_active_pred())[i];
                    &&& (#[trigger] r@[i]).start_sector == e.lba_start as usize
                    &&& r@[i].sectors == e.num_sectors as usize
                },
    {
        let active = mbr.active_partitions();
        let mut r: Vec<AHCIDevice> = Vec::new();
        let mut i: usize = 0;
        while i < active.len()
            invariant
                active@.map_values(|e: &MBRPartitionEntry| *e) == mbr.entries@.filter(
                    is_active_pred(),
                ),
                i <= active@.len(),
                r@.len() == i,
                forall|k: int|
                    0 <= k < i ==> {
                        let e = mbr.entries@.filter(is_active_pred())[k];
                        &&& (#[trigger] r@[k]).start_sector == e.lba_start as usize
                        &&& r@[k].sectors == e.num_sectors as usize
                    },
            decreases active@.len() - i,
        {
            let entry = active[i];
            assert(*entry == mbr.entries@.filter(is_active_pred())[i as int]) by {
                assert(active@.map_values(|e: &MBRPartitionEntry| *e)[i as int] == *active@[i as int]);
            }
            r.push(
                AHCIDevice {
                    start_sector: entry.lba_start as usize,
                    sectors: entry.num_sectors as usize,
                    info: self.info.clone(),
                },
            );
            i = i + 1;
        }
        assert(active@.map_values(|e: &MBRPartitionEntry| *e).len() == active@.len());
        r
    }
}

/// Checks that a transfer moved as many bytes as asked for (compared as
/// 32-bit counts, the width of the HBA's byte count).
pub fn check_transfer(expected: usize, transferred: u32) -> (r: Result<(), BlockDeviceError>)
    ensures
        (expected as u32 == transferred) ==> r is Ok,
        (expected as u32 != transferred) ==> r == Err::<(), BlockDeviceError>(
            BlockDeviceError::OperationFailed {
                transferred: transferred as usize,
                expected: expected,
            },
        ),
{
    if expected as u32 != transferred {
        return Err(
            BlockDeviceError::OperationFailed { transferred: transferred as usize, expected },
        );
    }
    Ok(())
}

/// Which command slots of a port are free to use.
pub struct CommandSlots {
    /// Bit `i` is set when slot `i` is available.
    available: SlotBits,
}

impl CommandSlots {
    /// Which slots are available, by index.
    pub closed spec fn available(&self) -> Seq<bool> {
        bitvec_bits(self.available)
    }

    /// `n_commands` slots, all available.
    pub fn new(n_commands: usize) -> (r: Self)
        requires
            n_commands <= MAX_COMMANDS_PER_PORT,
        ensures
            r.available() == Seq::new(n_commands as nat, |i: int| true),
    {
        let mut available = bitvec_new();
        let mut i: usize = 0;
        while i < n_commands
            invariant
                i <= n_commands <= MAX_COMMANDS_PER_PORT,
                bitvec_bits(available) == Seq::new(i as nat, |k: int| true),
            decreases n_commands - i,
        {
            bitvec_push(&mut available, true);
            proof {
                assert(bitvec_bits(available) =~= Seq::new((i + 1) as nat, |k: int| true));
            }
            i = i + 1;
        }
        CommandSlots { available }
    }

    /// The number of slots.
    pub fn len(&self) -> (r: usize)
        ensures
            r == self.available().len(),
    {
        bitvec_len(&self.available)
    }

    /// Takes the lowest available slot, if any (the caller waits for one to
    /// be released otherwise).
    pub fn allocate(&mut self) -> (r: Option<usize>)
        ensures
            match r {
                Some(i) => {
                    &&& i < old(self).available().len()
                    &&& old(self).available()[i as int]
                    &&& forall|j: int| 0 <= j < i ==> !old(self).available()[j]
                    &&& final(self).available() == old(self).available().update(i as int, false)
                },
                None => {
                    &&& forall|j: int|
                        0 <= j < old(self).available().len() ==> !old(self).available()[j]
                    &&& final(self).available() == old(self).available()
                },
            },
    {
        match bitvec_first_one(&self.available) {
            Some(i) => {
                bitvec_set(&mut self.available, i, false);
                Some(i)
            },
            None => None,
        }
    }

    /// Makes a slot available again.
    pub fn release(&mut self, slot: usize)
        requires
            slot < old(self).available().len(),
        ensures
            final(self).available() == old(self).available().update(slot as int, true),
    {
        bitvec_set(&mut self.available, slot, true);
    }
}

/// Releasing the slot an allocation just took gives back the slots from
/// before it.
pub proof fn lemma_release_undoes_allocate(available: Seq<bool>, i: int)
    requires
        0 <= i < available.len(),
        available[i],
    ensures
        available.update(i, false).update(i, true) == available,
{
    assert(available.update(i, false).update(i, true) =~= available);
}

/// Prepares a command header for a buffer of `len_bytes` bytes: no bytes
/// transferred yet, and one PRDT entry per (at most 4MiB) piece of the
/// buffer. Returns the pieces' lengths, for the caller to back each with
/// memory.
pub fn setup_buffer(header: &mut AHCICommandHeader, len_bytes: usize) -> (r: Vec<u32>)
    requires
        len_bytes <= BYTES_PER_COMMAND,
    ensures
        r@ == prdt_lengths(len_bytes as nat),
        final(header).prd_bytes_trans == 0,
        final(header).prdt_entries == r@.len(),
        final(header).flags == old(header).flags,
        final(header).command_table_addr == old(header).command_table_addr,
{
    let lengths = prdt_split(len_bytes);
    proof {
        lemma_prdt_lengths(len_bytes as nat);
        assert(prdt_lengths(len_bytes as nat).len() <= PRDT_ENTRIES_PER_COMMAND);
    }
    header.prd_bytes_trans = 0;
    header.prdt_entries = lengths.len() as u16;
    lengths
}

/// Points a PRDT entry at a buffer of `len` bytes at physical address
/// `addr`, interrupting on completion.
pub fn setup_prdt_entry(entry: &mut PRDTEntry, len: u32, addr: u64)
    requires
        0 < len <= PRDTEntry::MAX_DATA_SIZE,
        len % 2 == 0,
        addr % 2 == 0,
    ensures
        final(entry).spec_byte_count() == len,
        final(entry).spec_int_flag(),
        final(entry).spec_address() == addr,
{
    entry.set_byte_count(len);
    entry.set_int_flag(true);
    entry.set_addr(addr);
}

} // verus!
