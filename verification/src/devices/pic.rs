//! The Programmable Interrupt Controller's interrupt vectors.
use vstd::prelude::*;

verus! {

/// Which interrupt vector the first PIC starts at (0-31 are used by the CPU).
pub const PIC_1_OFFSET: u8 = 32;
/// Which interrupt vector the second PIC starts at.
pub const PIC_2_OFFSET: u8 = PIC_1_OFFSET + 8;

/// Each interrupt that the PIC might raise.
#[derive(Clone, Copy, Debug, PartialEq, Eq, Structural)]
pub enum PICInterrupt {
    Timer,
}

impl PICInterrupt {
    /// The interrupt's vector number.
    pub fn vector(self) -> (r: u8)
        ensures
            self == PICInterrupt::Timer ==> r == PIC_1_OFFSET,
    {
        match self {
            PICInterrupt::Timer => PIC_1_OFFSET,
        }
    }
}

} // verus!
