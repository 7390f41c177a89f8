//! PS/2 keyboard scancodes.
use vstd::prelude::*;

verus! {

/// A PS/2 keyboard scancode
#[derive(Clone, Copy, Debug, PartialEq, Eq, Structural)]
pub enum Scancode {
    Char(char),
    Tab,
    Enter,
    Escape,
    Backspace,
    LeftShift,
    RightShift,
    LeftAlt,
    RightAlt,
    LeftControl,
    RightControl,
    CapsLock,
}

/// Error type returned by Scancode::try_from if the given raw code is invalid
#[derive(Debug, Clone, Copy, PartialEq, Eq, Structural)]
pub struct InvalidScancode;

/// The key a raw scancode (scan code set 1, key press) stands for.
pub open spec fn scancode_of(raw_code: u8) -> Option<Scancode> {
    match raw_code {
        0x01 => Some(Scancode::Escape),
        0x02 => Some(Scancode::Char('1')),
        0x03 => Some(Scancode::Char('2')),
        0x04 => Some(Scancode::Char('3')),
        0x05 => Some(Scancode::Char('4')),
        0x06 => Some(Scancode::Char('5')),
        0x07 => Some(Scancode::Char('6')),
        0x08 => Some(Scancode::Char('7')),
        0x09 => Some(Scancode::Char('8')),
        0x0A => Some(Scancode::Char('9')),
        0x0B => Some(Scancode::Char('0')),
        0x0C => Some(Scancode::Char('-')),
        0x0D => Some(Scancode::Char('=')),
        0x0E => Some(Scancode::Backspace),
        0x0F => Some(Scancode::Tab),
        0x10 => Some(Scancode::Char('q')),
        0x11 => Some(Scancode::Char('w')),
        0x12 => Some(Scancode::Char('e')),
        0x13 => Some(Scancode::Char('r')),
        0x14 => Some(Scancode::Char('t')),
        0x15 => Some(Scancode::Char('y')),
        0x16 => Some(Scancode::Char('u')),
        0x17 => Some(Scancode::Char('i')),
        0x18 => Some(Scancode::Char('o')),
        0x19 => Some(Scancode::Char('p')),
        0x1A => Some(Scancode::Char('[')),
        0x1B => Some(Scancode::Char(']')),
        0x1C => Some(Scancode::Enter),
        0x1E => Some(Scancode::Char('a')),
        0x1F => Some(Scancode::Char('s')),
        0x20 => Some(Scancode::Char('d')),
        0x21 => Some(Scancode::Char('f')),
        0x22 => Some(Scancode::Char('g')),
        0x23 => Some(Scancode::Char('h')),
        0x24 => Some(Scancode::Char('j')),
        0x25 => Some(Scancode::Char('k')),
        0x26 => Some(Scancode::Char('l')),
        0x27 => Some(Scancode::Char(';')),
        0x28 => Some(Scancode::Char('\'')),
        0x29 => Some(Scancode::Char('`')),
        0x2A => Some(Scancode::LeftShift),
        0x2B => Some(Scancode::Char('\\')),
        0x2C => Some(Scancode::Char('z')),
        0x2D => Some(Scancode::Char('x')),
        0x2E => Some(Scancode::Char('c')),
        0x2F => Some(Scancode::Char('v')),
        0x30 => Some(Scancode::Char('b')),
        0x31 => Some(Scancode::Char('n')),
        0x32 => Some(Scancode::Char('m')),
        0x33 => Some(Scancode::Char(',')),
        0x34 => Some(Scancode::Char('.')),
        0x35 => Some(Scancode::Char('/')),
        0x36 => Some(Scancode::RightShift),
        0x38 => Some(Scancode::LeftAlt),
        0x39 => Some(Scancode::Char(' ')),
        0x3A => Some(Scancode::CapsLock),
        _ => None,
    }
}

impl Scancode {
    /// Decodes a raw scancode.
    pub fn try_from(raw_code: u8) -> (r: Result<Scancode, InvalidScancode>)
        ensures
            match scancode_of(raw_code) {
                Some(s) => r == Ok::<Scancode, InvalidScancode>(s),
                None => r == Err::<Scancode, InvalidScancode>(InvalidScancode),
            },
    {
        let scancode = match raw_code {
            0x01 => Scancode::Escape,
            0x02 => Scancode::Char('1'),
            0x03 => Scancode::Char('2'),
            0x04 => Scancode::Char('3'),
            0x05 => Scancode::Char('4'),
            0x06 => Scancode::Char('5'),
            0x07 => Scancode::Char('6'),
            0x08 => Scancode::Char('7'),
            0x09 => Scancode::Char('8'),
            0x0A => Scancode::Char('9'),
            0x0B => Scancode::Char('0'),
            0x0C => Scancode::Char('-'),
            0x0D => Scancode::Char('='),
            0x0E => Scancode::Backspace,
            0x0F => Scancode::Tab,
            0x10 => Scancode::Char('q'),
            0x11 => Scancode::Char('w'),
            0x12 => Scancode::Char('e'),
            0x13 => Scancode::Char('r'),
            0x14 => Scancode::Char('t'),
            0x15 => Scancode::Char('y'),
            0x16 => Scancode::Char('u'),
            0x17 => Scancode::Char('i'),
            0x18 => Scancode::Char('o'),
            0x19 => Scancode::Char('p'),
            0x1A => Scancode::Char('['),
            0x1B => Scancode::Char(']'),
            0x1C => Scancode::Enter,
            0x1E => Scancode::Char('a'),
            0x1F => Scancode::Char('s'),
            0x20 => Scancode::Char('d'),
            0x21 => Scancode::Char('f'),
            0x22 => Scancode::Char('g'),
            0x23 => Scancode::Char('h'),
            0x24 => Scancode::Char('j'),
            0x25 => Scancode::Char('k'),
            0x26 => Scancode::Char('l'),
            0x27 => Scancode::Char(';'),
            0x28 => Scancode::Char('\''),
            0x29 => Scancode::Char('`'),
            0x2A => Scancode::LeftShift,
            0x2B => Scancode::Char('\\'),
            0x2C => Scancode::Char('z'),
            0x2D => Scancode::Char('x'),
            0x2E => Scancode::Char('c'),
            0x2F => Scancode::Char('v'),
            0x30 => Scancode::Char('b'),
            0x31 => Scancode::Char('n'),
            0x32 => Scancode::Char('m'),
            0x33 => Scancode::Char(','),
            0x34 => Scancode::Char('.'),
            0x35 => Scancode::Char('/'),
            0x36 => Scancode::RightShift,
            0x38 => Scancode::LeftAlt,
            0x39 => Scancode::Char(' '),
            0x3A => Scancode::CapsLock,
            _ => return Err(InvalidScancode),
        };
        Ok(scancode)
    }
}

} // verus!
