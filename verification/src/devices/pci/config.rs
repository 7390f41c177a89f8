//! Addressing of the PCI configuration space.
use vstd::prelude::*;

verus! {

pub const CONFIG_ADDRESS_PORT: u16 = 0xCF8;  // 32 bit register

pub const CONFIG_DATA_PORT: u16 = 0xCFC;  // 32 bit register

/// The value written to the configuration address port to select a word of
/// a device function's configuration space: the enable bit, then the bus,
/// device, function and register offset fields.
pub open spec fn spec_config_address(bus: u8, device: u8, func: u8, word: u8) -> int {
    0x8000_0000 + bus * 0x1_0000 + device * 0x800 + func * 0x100 + word * 4
}

/// Computes the configuration address of a word. The device number must
/// fit in 5 bits, the function number in 3, and the word index must be
/// below 64, as there are 64 words.
pub fn config_address(bus: u8, device: u8, func: u8, word: u8) -> (r: u32)
    requires
        device <= 0b11111,
        func <= 0b111,
        word < 64,
    ensures
        r == spec_config_address(bus, device, func, word),
{
    let address = (1u32 << 31u32) | ((bus as u32) << 16u32) | ((device as u32) << 11u32) | ((
    func as u32) << 8u32) | ((word << 2u8) as u32);
    let b = bus as u32;
    let d = device as u32;
    let f = func as u32;
    let w = word;
    assert(address == 0x8000_0000 + b * 0x1_0000 + d * 0x800 + f * 0x100 + (w as u32) * 4) by (bit_vector)
        requires
            address == (1u32 << 31u32) | (b << 16u32) | (d << 11u32) | (f << 8u32) | ((w << 2u8) as u32),
            b <= 255,
            d <= 31,
            f <= 7,
            w < 64,
    ;
    address
}

} // verus!
