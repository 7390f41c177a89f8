//! ATA (PATA) drives: bus selection and register decoding.
use vstd::prelude::*;

/// I/O port definitions used to control ATA devices
pub mod ports;
/// ATA bus control
pub mod bus;

verus! {

/// One of the two drives on an ATA bus.
#[derive(Debug, Copy, Clone, PartialEq, Eq, Structural)]
pub enum ATABusDrive {
    Primary,
    Secondary,
}

impl ATABusDrive {
    /// The drive's number: 0 for the primary drive, 1 for the secondary.
    pub open spec fn number(self) -> int {
        match self {
            ATABusDrive::Primary => 0,
            ATABusDrive::Secondary => 1,
        }
    }
}

} // verus!
