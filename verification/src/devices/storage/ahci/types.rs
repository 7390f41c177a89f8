//! AHCI device types
use vstd::prelude::*;

verus! {

/// The kinds of device a port's signature register identifies.
#[derive(Copy, Clone, Debug, PartialEq, Eq, Structural)]
pub enum AHCIDeviceType {
    SATA,
    SATAPI,
    EnclosureMgmtBridge,
    PortMultiplier,
}

/// The device type a signature names, if any.
pub open spec fn device_type_of(signature: u32) -> Option<AHCIDeviceType> {
    if signature == 0x0000_0101 {
        Some(AHCIDeviceType::SATA)
    } else if signature == 0xEB14_0101 {
        Some(AHCIDeviceType::SATAPI)
    } else if signature == 0xC33C_0101 {
        Some(AHCIDeviceType::EnclosureMgmtBridge)
    } else if signature == 0x9669_0101 {
        Some(AHCIDeviceType::PortMultiplier)
    } else {
        None
    }
}

impl AHCIDeviceType {
    /// Decodes a port's signature register.
    pub fn from_signature(signature: u32) -> (r: Option<AHCIDeviceType>)
        ensures
            r == device_type_of(signature),
    {
        if signature == 0x0000_0101 {
            Some(AHCIDeviceType::SATA)
        } else if signature == 0xEB14_0101 {
            Some(AHCIDeviceType::SATAPI)
        } else if signature == 0xC33C_0101 {
            Some(AHCIDeviceType::EnclosureMgmtBridge)
        } else if signature == 0x9669_0101 {
            Some(AHCIDeviceType::PortMultiplier)
        } else {
            None
        }
    }
}

} // verus!
