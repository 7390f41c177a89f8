//! A PS/2 keyboard read as text: scancodes to characters, with the
//! caps state tracked across key presses.
use vstd::prelude::*;

verus! {

/// The character a key press stands for, before caps is applied.
pub open spec fn char_of_code(scancode: u8) -> Option<char> {
    match scancode {
        0x02 => Some('1'),
        0x03 => Some('2'),
        0x04 => Some('3'),
        0x05 => Some('4'),
        0x06 => Some('5'),
        0x07 => Some('6'),
        0x08 => Some('7'),
        0x09 => Some('8'),
        0x0A => Some('9'),
        0x0B => Some('0'),
        0x0C => Some('-'),
        0x0D => Some('='),
        0x0F => Some('\t'),
        0x10 => Some('q'),
        0x11 => Some('w'),
        0x12 => Some('e'),
        0x13 => Some('r'),
        0x14 => Some('t'),
        0x15 => Some('y'),
        0x16 => Some('u'),
        0x17 => Some('i'),
        0x18 => Some('o'),
        0x19 => Some('p'),
        0x1A => Some('['),
        0x1B => Some(']'),
        0x1C => Some('\n'),
        0x1E => Some('a'),
        0x1F => Some('s'),
        0x20 => Some('d'),
        0x21 => Some('f'),
        0x22 => Some('g'),
        0x23 => Some('h'),
        0x24 => Some('j'),
        0x25 => Some('k'),
        0x26 => Some('l'),
        0x27 => Some(';'),
        0x28 => Some('\''),
        0x29 => Some('`'),
        0x2B => Some('\\'),
        0x2C => Some('z'),
        0x2D => Some('x'),
        0x2E => Some('c'),
        0x2F => Some('v'),
        0x30 => Some('b'),
        0x31 => Some('n'),
        0x32 => Some('m'),
        0x33 => Some(','),
        0x34 => Some('.'),
        0x35 => Some('/'),
        0x39 => Some(' '),
        _ => None,
    }
}

/// The US layout's number row, left to right.
pub open spec fn us_number_row() -> Seq<char> {
    seq!['1', '2', '3', '4', '5', '6', '7', '8', '9', '0', '-', '=']
}

/// The US layout's top letter row, left to right.
pub open spec fn us_top_row() -> Seq<char> {
    seq!['q', 'w', 'e', 'r', 't', 'y', 'u', 'i', 'o', 'p', '[', ']']
}

/// The US layout's middle letter row, left to right (ending with the key
/// left of `1`, which the set-1 codes number after it).
pub open spec fn us_home_row() -> Seq<char> {
    seq!['a', 's', 'd', 'f', 'g', 'h', 'j', 'k', 'l', ';', '\'', '`']
}

/// The US layout's bottom letter row, left to right, after the backslash.
pub open spec fn us_bottom_row() -> Seq<char> {
    seq!['\\', 'z', 'x', 'c', 'v', 'b', 'n', 'm', ',', '.', '/']
}

/// The US keyboard layout's rows, left to right, as the set-1 make codes
/// of their keys run: the number row from 0x02, the top row from 0x10, the
/// home row from 0x1E, and the bottom row from 0x2B; tab is 0x0F, enter
/// 0x1C and the space bar 0x39.
pub proof fn lemma_us_layout()
    ensures
        forall|i: int| 0 <= i < 12 ==> char_of_code((0x02 + i) as u8) == Some(#[trigger] us_number_row()[i]),
        forall|i: int| 0 <= i < 12 ==> char_of_code((0x10 + i) as u8) == Some(#[trigger] us_top_row()[i]),
        forall|i: int| 0 <= i < 12 ==> char_of_code((0x1E + i) as u8) == Some(#[trigger] us_home_row()[i]),
        forall|i: int| 0 <= i < 11 ==> char_of_code((0x2B + i) as u8) == Some(#[trigger] us_bottom_row()[i]),
        char_of_code(0x0F) == Some('\t'),
        char_of_code(0x1C) == Some('\n'),
        char_of_code(0x39) == Some(' '),
{
    assert forall|i: int| 0 <= i < 12 implies char_of_code((0x02 + i) as u8) == Some(#[trigger] us_number_row()[i]) by {
        assert(i == 0 || i == 1 || i == 2 || i == 3 || i == 4 || i == 5 || i == 6 || i == 7 || i == 8 || i == 9 || i == 10 || i == 11);
    }
    assert forall|i: int| 0 <= i < 12 implies char_of_code((0x10 + i) as u8) == Some(#[trigger] us_top_row()[i]) by {
        assert(i == 0 || i == 1 || i == 2 || i == 3 || i == 4 || i == 5 || i == 6 || i == 7 || i == 8 || i == 9 || i == 10 || i == 11);
    }
    assert forall|i: int| 0 <= i < 12 implies char_of_code((0x1E + i) as u8) == Some(#[trigger] us_home_row()[i]) by {
        assert(i == 0 || i == 1 || i == 2 || i == 3 || i == 4 || i == 5 || i == 6 || i == 7 || i == 8 || i == 9 || i == 10 || i == 11);
    }
    assert forall|i: int| 0 <= i < 11 implies char_of_code((0x2B + i) as u8) == Some(#[trigger] us_bottom_row()[i]) by {
        assert(i == 0 || i == 1 || i == 2 || i == 3 || i == 4 || i == 5 || i == 6 || i == 7 || i == 8 || i == 9 || i == 10);
    }
}

/// The make code of the key that types `c`, for the characters keys type.
spec fn code_of_char(c: char) -> u8 {
    match c {
        '1' => 0x02u8,
        '2' => 0x03u8,
        '3' => 0x04u8,
        '4' => 0x05u8,
        '5' => 0x06u8,
        '6' => 0x07u8,
        '7' => 0x08u8,
        '8' => 0x09u8,
        '9' => 0x0Au8,
        '0' => 0x0Bu8,
        '-' => 0x0Cu8,
        '=' => 0x0Du8,
        '\t' => 0x0Fu8,
        'q' => 0x10u8,
        'w' => 0x11u8,
        'e' => 0x12u8,
        'r' => 0x13u8,
        't' => 0x14u8,
        'y' => 0x15u8,
        'u' => 0x16u8,
        'i' => 0x17u8,
        'o' => 0x18u8,
        'p' => 0x19u8,
        '[' => 0x1Au8,
        ']' => 0x1Bu8,
        '\n' => 0x1Cu8,
        'a' => 0x1Eu8,
        's' => 0x1Fu8,
        'd' => 0x20u8,
        'f' => 0x21u8,
        'g' => 0x22u8,
        'h' => 0x23u8,
        'j' => 0x24u8,
        'k' => 0x25u8,
        'l' => 0x26u8,
        ';' => 0x27u8,
        '\'' => 0x28u8,
        '`' => 0x29u8,
        '\\' => 0x2Bu8,
        'z' => 0x2Cu8,
        'x' => 0x2Du8,
        'c' => 0x2Eu8,
        'v' => 0x2Fu8,
        'b' => 0x30u8,
        'n' => 0x31u8,
        'm' => 0x32u8,
        ',' => 0x33u8,
        '.' => 0x34u8,
        '/' => 0x35u8,
        ' ' => 0x39u8,
        _ => 0u8,
    }
}

/// The key behind a character: decoding a code and looking its character
/// up again gives the code back.
proof fn lemma_code_of_char(a: u8)
    ensures
        char_of_code(a) matches Some(c) ==> code_of_char(c) == a,
{
}

/// No two keys type the same character.
pub proof fn lemma_keys_distinct(a: u8, b: u8)
    requires
        char_of_code(a) is Some,
        char_of_code(a) == char_of_code(b),
    ensures
        a == b,
{
    lemma_code_of_char(a);
    lemma_code_of_char(b);
}

/// The codes that flip the caps state: pressing caps lock, and pressing or
/// releasing either shift key.
pub open spec fn toggles_caps(scancode: u8) -> bool {
    scancode == 0x3A || scancode == 0x2A || scancode == 0x36 || scancode == 0xAA || scancode
        == 0xB6
}

/// ASCII upper case: lower-case letters map to upper case, everything else
/// to itself.
pub open spec fn ascii_upper(c: char) -> char {
    if 'a' <= c <= 'z' {
        ((c as int) - 32) as char
    } else {
        c
    }
}

/// Converts a character to ASCII upper case.
pub fn to_ascii_upper(c: char) -> (r: char)
    ensures
        r == ascii_upper(c),
{
    if c >= 'a' && c <= 'z' {
        ((c as u8) - 32) as char
    } else {
        c
    }
}

/// A PS/2 keyboard read as text.
pub struct Keyboard {
    pub caps: bool,
}

impl Keyboard {
    pub fn new() -> (k: Keyboard)
        ensures
            !k.caps,
    {
        Keyboard { caps: false }
    }

    /// Takes in a scancode read from the keyboard, tracking its effect on
    /// the caps state, and hands it back.
    pub fn read_scancode(&mut self, scancode: u8) -> (r: u8)
        ensures
            r == scancode,
            final(self).caps == (old(self).caps != toggles_caps(scancode)),
    {
        // Press CapsLock, Press Left/Right Shift, Release Left/Right shift
        match scancode {
            0x3A | 0x2A | 0x36 | 0xAA | 0xB6 => {
                self.caps = !self.caps;
            },
            _ => (),
        };
        scancode
    }

    /// The character a scancode types, upper-cased while caps is on.
    pub fn read_char(&mut self, scancode: u8) -> (r: Option<char>)
        ensures
            final(self).caps == (old(self).caps != toggles_caps(scancode)),
            r == match char_of_code(scancode) {
                Some(c) => Some(if final(self).caps { ascii_upper(c) } else { c }),
                None => None,
            },
    {
        let res = match self.read_scancode(scancode) {
            0x02 => Some('1'),
            0x03 => Some('2'),
            0x04 => Some('3'),
            0x05 => Some('4'),
            0x06 => Some('5'),
            0x07 => Some('6'),
            0x08 => Some('7'),
            0x09 => Some('8'),
            0x0A => Some('9'),
            0x0B => Some('0'),
            0x0C => Some('-'),
            0x0D => Some('='),
            0x0F => Some('\t'),
            0x10 => Some('q'),
            0x11 => Some('w'),
            0x12 => Some('e'),
            0x13 => Some('r'),
            0x14 => Some('t'),
            0x15 => Some('y'),
            0x16 => Some('u'),
            0x17 => Some('i'),
            0x18 => Some('o'),
            0x19 => Some('p'),
            0x1A => Some('['),
            0x1B => Some(']'),
            0x1C => Some('\n'),
            0x1E => Some('a'),
            0x1F => Some('s'),
            0x20 => Some('d'),
            0x21 => Some('f'),
            0x22 => Some('g'),
            0x23 => Some('h'),
            0x24 => Some('j'),
            0x25 => Some('k'),
            0x26 => Some('l'),
            0x27 => Some(';'),
            0x28 => Some('\''),
            0x29 => Some('`'),
            0x2B => Some('\\'),
            0x2C => Some('z'),
            0x2D => Some('x'),
            0x2E => Some('c'),
            0x2F => Some('v'),
            0x30 => Some('b'),
            0x31 => Some('n'),
            0x32 => Some('m'),
            0x33 => Some(','),
            0x34 => Some('.'),
            0x35 => Some('/'),
            0x39 => Some(' '),
            _ => None,
        };
        match res {
            Some(c) => if self.caps {
                Some(to_ascii_upper(c))
            } else {
                res
            },
            None => res,
        }
    }
}

} // verus!
