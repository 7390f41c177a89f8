//! PCI device functions.
use vstd::prelude::*;
use super::class::{PCIDeviceClass, class_of_code};

verus! {

/// A function of a PCI device found on the bus.
#[derive(Debug)]
pub struct PCIDevice {
    pub bus: u8,
    pub device: u8,
    pub function: u8,
    pub class: PCIDeviceClass,
    pub subclass: u8,
}

/// The vendor id held in the first configuration word.
pub open spec fn vendor_of_word(config_word_0: u32) -> int {
    config_word_0 as int % 0x1_0000
}

/// The class code held in the third configuration word (its top byte).
pub open spec fn class_code_of_word(config_word_2: u32) -> int {
    config_word_2 as int / 0x100_0000
}

/// The subclass code held in the third configuration word.
pub open spec fn subclass_of_word(config_word_2: u32) -> int {
    (config_word_2 as int / 0x1_0000) % 0x100
}

impl PCIDevice {
    /// The vendor id in the first configuration word; `0xFFFF` means no
    /// device answers at that address.
    pub fn vendor_id_of(config_word_0: u32) -> (r: u16)
        ensures
            r == vendor_of_word(config_word_0),
    {
        (config_word_0 % 0x1_0000) as u16
    }

    /// Builds the device found at a bus address from its first and third
    /// configuration words. Returns `None` if no device answers there
    /// (the vendor id reads as `0xFFFF`); the third word is only looked at
    /// otherwise, and must then hold a known class code.
    pub fn new(bus: u8, device: u8, function: u8, config_word_0: u32, config_word_2: u32) -> (r:
        Option<Self>)
        requires
            device <= 0b11111,
            vendor_of_word(config_word_0) != 0xFFFF ==> class_of_code(
                class_code_of_word(config_word_2) as u8,
            ) is Some,
        ensures
            (vendor_of_word(config_word_0) == 0xFFFF) <==> r is None,
            r matches Some(d) ==> {
                &&& d.bus == bus
                &&& d.device == device
                &&& d.function == function
                &&& Some(d.class) == class_of_code(class_code_of_word(config_word_2) as u8)
                &&& d.subclass == subclass_of_word(config_word_2)
            },
    {
        if Self::vendor_id_of(config_word_0) == 0xFFFF {
            return None;
        }
        let class_code = (config_word_2 / 0x100_0000) as u8;
        let subclass = ((config_word_2 / 0x1_0000) % 0x100) as u8;
        let class = match PCIDeviceClass::try_from(class_code) {
            Ok(c) => c,
            Err(()) => {
                assert(false);
                PCIDeviceClass::Unclassifed
            },
        };
        Some(PCIDevice { bus, device, function, class, subclass })
    }

    /// The device's class and subclass.
    pub fn class(&self) -> (r: (PCIDeviceClass, u8))
        ensures
            r == (self.class, self.subclass),
    {
        (self.class, self.subclass)
    }
}

} // verus!
