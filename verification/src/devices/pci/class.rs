//! PCI device classes.
use vstd::prelude::*;

verus! {

#[derive(Debug, Copy, Clone, PartialEq, Eq, Structural)]
pub enum PCIDeviceClass {
    Unclassifed,
    MassStorageCtrl,
    NetworkCtrl,
    DisplayCtrl,
    MultimediaCtrl,
    MemoryCtrl,
    Bridge,
    SimpleCommCtrl,
    BaseSysPeripheral,
    InputDeviceCtrl,
    DockingStation,
    Processor,
    SerialBusCtrl,
    WirelessCtrl,
    IntelligentCtrl,
    SatCommCtrl,
    EncryptionCtrl,
    SignalProcCtrl,
    ProcAccelorator,
    NonEssential,
    CoProcessor,
    Unassigned,
}

/// The class a class code names, if any.
pub open spec fn class_of_code(value: u8) -> Option<PCIDeviceClass> {
    if value == 0x0 {
        Some(PCIDeviceClass::Unclassifed)
    } else if value == 0x1 {
        Some(PCIDeviceClass::MassStorageCtrl)
    } else if value == 0x2 {
        Some(PCIDeviceClass::NetworkCtrl)
    } else if value == 0x3 {
        Some(PCIDeviceClass::DisplayCtrl)
    } else if value == 0x4 {
        Some(PCIDeviceClass::MultimediaCtrl)
    } else if value == 0x5 {
        Some(PCIDeviceClass::MemoryCtrl)
    } else if value == 0x6 {
        Some(PCIDeviceClass::Bridge)
    } else if value == 0x7 {
        Some(PCIDeviceClass::SimpleCommCtrl)
    } else if value == 0x8 {
        Some(PCIDeviceClass::BaseSysPeripheral)
    } else if value == 0x9 {
        Some(PCIDeviceClass::InputDeviceCtrl)
    } else if value == 0xA {
        Some(PCIDeviceClass::DockingStation)
    } else if value == 0xB {
        Some(PCIDeviceClass::Processor)
    } else if value == 0xC {
        Some(PCIDeviceClass::SerialBusCtrl)
    } else if value == 0xD {
        Some(PCIDeviceClass::WirelessCtrl)
    } else if value == 0xE {
        Some(PCIDeviceClass::IntelligentCtrl)
    } else if value == 0xF {
        Some(PCIDeviceClass::SatCommCtrl)
    } else if value == 0x10 {
        Some(PCIDeviceClass::EncryptionCtrl)
    } else if value == 0x11 {
        Some(PCIDeviceClass::SignalProcCtrl)
    } else if value == 0x12 {
        Some(PCIDeviceClass::ProcAccelorator)
    } else if value == 0x13 {
        Some(PCIDeviceClass::NonEssential)
    } else if value == 0x40 {
        Some(PCIDeviceClass::CoProcessor)
    } else if value == 0xFF {
        Some(PCIDeviceClass::Unassigned)
    } else {
        None
    }
}

impl PCIDeviceClass {
    /// Decodes a class code; `Err(())` for codes with no class.
    pub fn try_from(value: u8) -> (r: Result<PCIDeviceClass, ()>)
        ensures
            match class_of_code(value) {
                Some(c) => r == Ok::<PCIDeviceClass, ()>(c),
                None => r is Err,
            },
    {
        match value {
            0x0 => Ok(Self::Unclassifed),
            0x1 => Ok(Self::MassStorageCtrl),
            0x2 => Ok(Self::NetworkCtrl),
            0x3 => Ok(Self::DisplayCtrl),
            0x4 => Ok(Self::MultimediaCtrl),
            0x5 => Ok(Self::MemoryCtrl),
            0x6 => Ok(Self::Bridge),
            0x7 => Ok(Self::SimpleCommCtrl),
            0x8 => Ok(Self::BaseSysPeripheral),
            0x9 => Ok(Self::InputDeviceCtrl),
            0xA => Ok(Self::DockingStation),
            0xB => Ok(Self::Processor),
            0xC => Ok(Self::SerialBusCtrl),
            0xD => Ok(Self::WirelessCtrl),
            0xE => Ok(Self::IntelligentCtrl),
            0xF => Ok(Self::SatCommCtrl),
            0x10 => Ok(Self::EncryptionCtrl),
            0x11 => Ok(Self::SignalProcCtrl),
            0x12 => Ok(Self::ProcAccelorator),
            0x13 => Ok(Self::NonEssential),
            0x40 => Ok(Self::CoProcessor),
            0xFF => Ok(Self::Unassigned),
            _ => Err(()),
        }
    }
}

} // verus!
