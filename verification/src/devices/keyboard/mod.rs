//! PS/2 keyboard driver.
use vstd::prelude::*;

/// Scancode decoding
pub mod scancode;
/// Text input from the keyboard
pub mod chars;

pub use scancode::{InvalidScancode, Scancode};

verus! {

/// A PS/2 keyboard: decodes the raw codes read from its data port.
pub struct Keyboard;

impl Keyboard {
    pub fn new() -> Keyboard {
        Keyboard
    }

    /// Decodes a raw code read from the keyboard's data port; `None` for
    /// codes that are not key presses the driver knows.
    pub fn read_scancode(&mut self, raw_code: u8) -> (r: Option<Scancode>)
        ensures
            r == scancode::scancode_of(raw_code),
    {
        match Scancode::try_from(raw_code) {
            Ok(code) => Some(code),
            Err(_) => None,
        }
    }
}

} // verus!
