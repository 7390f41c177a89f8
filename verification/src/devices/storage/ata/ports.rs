//! I/O port definitions used to control ATA devices.
use vstd::prelude::*;
use super::ATABusDrive;

verus! {

pub const PRIMARY_IO_OFFSET: u16 = 0x1F0;
pub const SECONDARY_IO_OFFSET: u16 = 0x170;
pub const PRIMARY_CONTROL_OFFSET: u16 = 0x3F6;
pub const SECONDARY_CONTROL_OFFSET: u16 = 0x376;

/// Whether bit `k` of `x` is set.
pub open spec fn bit_set(x: u8, k: nat) -> bool {
    ((x as int) / (pow2_u8(k) as int)) % 2 == 1
}

/// `2^k` for the bit positions of a byte.
pub open spec fn pow2_u8(k: nat) -> nat
    decreases k,
{
    if k == 0 {
        1
    } else {
        2 * pow2_u8((k - 1) as nat)
    }
}

/// Masking with a single bit tests that bit.
proof fn lemma_mask_bits(x: u8)
    ensures
        (x & 1 != 0) == bit_set(x, 0),
        (x & 2 != 0) == bit_set(x, 1),
        (x & 4 != 0) == bit_set(x, 2),
        (x & 8 != 0) == bit_set(x, 3),
        (x & 16 != 0) == bit_set(x, 4),
        (x & 32 != 0) == bit_set(x, 5),
        (x & 64 != 0) == bit_set(x, 6),
        (x & 128 != 0) == bit_set(x, 7),
{
    assert((x & 1 != 0) == ((x / 1) % 2 == 1) && (x & 2 != 0) == ((x / 2) % 2 == 1) && (x & 4 != 0)
        == ((x / 4) % 2 == 1) && (x & 8 != 0) == ((x / 8) % 2 == 1) && (x & 16 != 0) == ((x / 16)
        % 2 == 1) && (x & 32 != 0) == ((x / 32) % 2 == 1) && (x & 64 != 0) == ((x / 64) % 2 == 1)
        && (x & 128 != 0) == ((x / 128) % 2 == 1)) by (bit_vector);
    reveal_with_fuel(pow2_u8, 8);
}

/// The registers of an ATA bus's I/O port range, by offset.
#[derive(Copy, Clone, Debug, PartialEq, Eq, Structural)]
pub enum IORegisterType {
    Data,
    ErrorFeatures,
    SectorCount,
    LBALow,
    LBAMid,
    LBAHigh,
    DriveHead,
    StatusCommand,
}

impl IORegisterType {
    /// The register's offset from the bus's I/O base port.
    pub open spec fn spec_offset(self) -> u16 {
        match self {
            IORegisterType::Data => 0,
            IORegisterType::ErrorFeatures => 1,
            IORegisterType::SectorCount => 2,
            IORegisterType::LBALow => 3,
            IORegisterType::LBAMid => 4,
            IORegisterType::LBAHigh => 5,
            IORegisterType::DriveHead => 6,
            IORegisterType::StatusCommand => 7,
        }
    }

    /// The register's offset from the bus's I/O base port.
    pub fn offset(self) -> (r: u16)
        ensures
            r == self.spec_offset(),
            r < 8,
    {
        match self {
            IORegisterType::Data => 0,
            IORegisterType::ErrorFeatures => 1,
            IORegisterType::SectorCount => 2,
            IORegisterType::LBALow => 3,
            IORegisterType::LBAMid => 4,
            IORegisterType::LBAHigh => 5,
            IORegisterType::DriveHead => 6,
            IORegisterType::StatusCommand => 7,
        }
    }
}

/// The registers of an ATA bus's control port range, by offset.
#[derive(Copy, Clone, Debug, PartialEq, Eq, Structural)]
pub enum ControlRegisterType {
    AlternateStatusDeviceControl,
    DriveAddress,
}

/// The ATA error register.
#[derive(Copy, Clone, Debug, PartialEq, Eq, Structural)]
pub struct ErrorRegister(pub u8);

impl ErrorRegister {
    const AMNF: u8 = 0x01;
    const TKZNF: u8 = 0x02;
    const ABRT: u8 = 0x04;
    const MCR: u8 = 0x08;
    const IDNF: u8 = 0x10;
    const MC: u8 = 0x20;
    const UNC: u8 = 0x40;
    const BBK: u8 = 0x80;

    pub fn addr_mark_not_found(self) -> (b: bool)
        ensures
            b == bit_set(self.0, 0),
    {
        proof {
            lemma_mask_bits(self.0);
        }
        self.0 & Self::AMNF != 0
    }

    pub fn track_zero_not_found(self) -> (b: bool)
        ensures
            b == bit_set(self.0, 1),
    {
        proof {
            lemma_mask_bits(self.0);
        }
        self.0 & Self::TKZNF != 0
    }

    pub fn aborted_command(self) -> (b: bool)
        ensures
            b == bit_set(self.0, 2),
    {
        proof {
            lemma_mask_bits(self.0);
        }
        self.0 & Self::ABRT != 0
    }

    pub fn media_change_request(self) -> (b: bool)
        ensures
            b == bit_set(self.0, 3),
    {
        proof {
            lemma_mask_bits(self.0);
        }
        self.0 & Self::MCR != 0
    }

    pub fn id_not_found(self) -> (b: bool)
        ensures
            b == bit_set(self.0, 4),
    {
        proof {
            lemma_mask_bits(self.0);
        }
        self.0 & Self::IDNF != 0
    }

    pub fn media_changed(self) -> (b: bool)
        ensures
            b == bit_set(self.0, 5),
    {
        proof {
            lemma_mask_bits(self.0);
        }
        self.0 & Self::MC != 0
    }

    pub fn uncorrectable_data(self) -> (b: bool)
        ensures
            b == bit_set(self.0, 6),
    {
        proof {
            lemma_mask_bits(self.0);
        }
        self.0 & Self::UNC != 0
    }

    pub fn bad_block_detected(self) -> (b: bool)
        ensures
            b == bit_set(self.0, 7),
    {
        proof {
            lemma_mask_bits(self.0);
        }
        self.0 & Self::BBK != 0
    }
}

/// The ATA status register.
#[derive(Copy, Clone, Debug, PartialEq, Eq, Structural)]
pub struct StatusRegister(pub u8);

impl StatusRegister {
    const ERR: u8 = 0x01;
    const IDX: u8 = 0x02;
    const CORR: u8 = 0x04;
    const DRQ: u8 = 0x08;
    const SRV: u8 = 0x10;
    const DF: u8 = 0x20;
    const RDY: u8 = 0x80;
    const BSY: u8 = 0x80;

    pub fn zero(self) -> (b: bool)
        ensures
            b == (self.0 == 0),
    {
        self.0 == 0
    }

    /// A bus with no drives reads as all ones.
    pub fn floating_bus(self) -> (b: bool)
        ensures
            b == (self.0 == 0xFF),
    {
        self.0 == 0xFF
    }

    pub fn error(self) -> (b: bool)
        ensures
            b == bit_set(self.0, 0),
    {
        proof {
            lemma_mask_bits(self.0);
        }
        self.0 & Self::ERR != 0
    }

    pub fn index(self) -> (b: bool)
        ensures
            b == bit_set(self.0, 1),
    {
        proof {
            lemma_mask_bits(self.0);
        }
        self.0 & Self::IDX != 0
    }

    pub fn corrected_data(self) -> (b: bool)
        ensures
            b == bit_set(self.0, 2),
    {
        proof {
            lemma_mask_bits(self.0);
        }
        self.0 & Self::CORR != 0
    }

    pub fn data_request(self) -> (b: bool)
        ensures
            b == bit_set(self.0, 3),
    {
        proof {
            lemma_mask_bits(self.0);
        }
        self.0 & Self::DRQ != 0
    }

    pub fn service_request(self) -> (b: bool)
        ensures
            b == bit_set(self.0, 4),
    {
        proof {
            lemma_mask_bits(self.0);
        }
        self.0 & Self::SRV != 0
    }

    pub fn drive_fault(self) -> (b: bool)
        ensures
            b == bit_set(self.0, 5),
    {
        proof {
            lemma_mask_bits(self.0);
        }
        self.0 & Self::DF != 0
    }

    /// The ready flag; it is read from bit 7, the same bit as the busy flag.
    pub fn ready(self) -> (b: bool)
        ensures
            b == bit_set(self.0, 7),
    {
        proof {
            lemma_mask_bits(self.0);
        }
        self.0 & Self::RDY != 0
    }

    pub fn busy(self) -> (b: bool)
        ensures
            b == bit_set(self.0, 7),
    {
        proof {
            lemma_mask_bits(self.0);
        }
        self.0 & Self::BSY != 0
    }
}

/// The value written to the Drive/Head register.
#[derive(Copy, Clone, Debug, PartialEq, Eq, Structural)]
pub struct DriveHeadRegister(pub u8);

impl DriveHeadRegister {
    /// Creates a new Drive/Head register value with
    /// - bits 24-27 of the selected LBA-addressed block number (at most four
    ///   bits)
    /// - the selected drive
    pub fn new(block_num_bits_24_27: u8, drive: ATABusDrive) -> (r: Self)
        requires
            block_num_bits_24_27 <= 0b1111,
        ensures
            r.0 == 0b1110_0000 + block_num_bits_24_27 + 16 * drive.number(),
    {
        let d: u8 = match drive {
            ATABusDrive::Primary => 0,
            ATABusDrive::Secondary => 1,
        };
        let bits = block_num_bits_24_27;
        // Bits 7 and 5 always set, bit 6 set to use LBA addressing
        // (we dont support CHS addressing)
        let value = 0b11100000u8 | bits | (d << 4u8);
        assert(value == 0b1110_0000 + bits + 16 * d) by (bit_vector)
            requires
                value == 0b11100000u8 | bits | (d << 4u8),
                bits <= 15,
                d <= 1,
        ;
        DriveHeadRegister(value)
    }
}

} // verus!
