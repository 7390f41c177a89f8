//! SATA Frame Information Structures.
use vstd::prelude::*;
use super::ata::ATACommand;

verus! {

/// The FIS types.
#[derive(Copy, Clone, Debug, PartialEq, Eq, Structural)]
pub enum FISType {
    RegisterH2D,
    RegisterD2H,
    DMAActive,
    DMSSetup,
    Data,
    BISTActivate,
    PIOSetup,
    SetDeviceBits,
}

impl FISType {
    pub open spec fn spec_code(self) -> u8 {
        match self {
            FISType::RegisterH2D => 0x27,
            FISType::RegisterD2H => 0x34,
            FISType::DMAActive => 0x39,
            FISType::DMSSetup => 0x41,
            FISType::Data => 0x46,
            FISType::BISTActivate => 0x58,
            FISType::PIOSetup => 0x5F,
            FISType::SetDeviceBits => 0xA1,
        }
    }

    /// The type byte that starts a FIS of this type.
    pub fn code(self) -> (r: u8)
        ensures
            r == self.spec_code(),
    {
        match self {
            FISType::RegisterH2D => 0x27,
            FISType::RegisterD2H => 0x34,
            FISType::DMAActive => 0x39,
            FISType::DMSSetup => 0x41,
            FISType::Data => 0x46,
            FISType::BISTActivate => 0x58,
            FISType::PIOSetup => 0x5F,
            FISType::SetDeviceBits => 0xA1,
        }
    }
}

/// Size in bytes of a host-to-device register FIS.
pub const FIS_REGISTER_H2D_LEN: usize = 20;

/// A host-to-device register FIS: a command sent to the drive.
#[derive(Copy, Clone, Debug, PartialEq, Eq, Structural)]
pub struct FISRegisterH2D {
    pub fis_type: FISType,
    /// Port multiplier port (4 bits)
    pub port_mult_port: u8,
    /// Whether this FIS carries a command (rather than a control update)
    pub is_command: bool,
    pub command: ATACommand,
    pub feature_low: u8,
    /// LBA bits 0-23
    pub lba_low: u32,
    pub device: u8,
    /// LBA bits 24-47
    pub lba_high: u32,
    pub feature_high: u8,
    pub count: u16,
    pub icc: u8,
    pub control: u8,
}

/// The 20 bytes of a host-to-device register FIS, in the layout the
/// AHCI and SATA specifications give it.
pub open spec fn h2d_bytes(f: FISRegisterH2D) -> Seq<u8> {
    seq![
        f.fis_type.spec_code(),
        (f.port_mult_port + if f.is_command { 128int } else { 0 }) as u8,
        f.command.spec_code(),
        f.feature_low,
        (f.lba_low % 256) as u8,
        ((f.lba_low / 256) % 256) as u8,
        (f.lba_low / 65536) as u8,
        f.device,
        (f.lba_high % 256) as u8,
        ((f.lba_high / 256) % 256) as u8,
        (f.lba_high / 65536) as u8,
        f.feature_high,
        (f.count % 256) as u8,
        (f.count / 256) as u8,
        f.icc,
        f.control,
        0u8,
        0u8,
        0u8,
        0u8,
    ]
}

impl FISRegisterH2D {
    /// The fields' ranges: 4 bits for the port multiplier port, 24 bits
    /// for each half of the LBA.
    pub open spec fn fields_in_range(self) -> bool {
        &&& self.port_mult_port < 16
        &&& self.lba_low < 0x100_0000
        &&& self.lba_high < 0x100_0000
    }

    /// An all-zero register FIS with its type set.
    pub fn new_with_type() -> (f: Self)
        ensures
            f == (FISRegisterH2D {
                fis_type: FISType::RegisterH2D,
                port_mult_port: 0,
                is_command: false,
                command: ATACommand::NOP,
                feature_low: 0,
                lba_low: 0,
                device: 0,
                lba_high: 0,
                feature_high: 0,
                count: 0,
                icc: 0,
                control: 0,
            }),
    {
        FISRegisterH2D {
            fis_type: FISType::RegisterH2D,
            port_mult_port: 0,
            is_command: false,
            command: ATACommand::NOP,
            feature_low: 0,
            lba_low: 0,
            device: 0,
            lba_high: 0,
            feature_high: 0,
            count: 0,
            icc: 0,
            control: 0,
        }
    }

    /// The FIS as the bytes the host bus adapter reads.
    pub fn to_bytes(&self) -> (r: [u8; 20])
        requires
            self.fields_in_range(),
        ensures
            r@ == h2d_bytes(*self),
    {
        let b1: u8 = self.port_mult_port + if self.is_command {
            128u8
        } else {
            0u8
        };
        let r = [
            self.fis_type.code(),
            b1,
            self.command.code(),
            self.feature_low,
            (self.lba_low % 256) as u8,
            ((self.lba_low / 256) % 256) as u8,
            (self.lba_low / 65536) as u8,
            self.device,
            (self.lba_high % 256) as u8,
            ((self.lba_high / 256) % 256) as u8,
            (self.lba_high / 65536) as u8,
            self.feature_high,
            (self.count % 256) as u8,
            (self.count / 256) as u8,
            self.icc,
            self.control,
            0u8,
            0u8,
            0u8,
            0u8,
        ];
        assert(r@ =~= h2d_bytes(*self));
        r
    }
}

} // verus!
