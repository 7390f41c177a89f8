//! ATA commands, and the drive information `IDENTIFY DEVICE` returns.
use vstd::prelude::*;
use crate::memory::mmio::{bitfield, read_bitfield};

verus! {

/// The ATA commands the driver issues.
#[derive(Copy, Clone, Debug, PartialEq, Eq, Structural)]
pub enum ATACommand {
    NOP,
    READ_DMA_EXT,
    WRITE_DMA_EXT,
    IDENTIFY_DEVICE,
}

impl ATACommand {
    pub open spec fn spec_code(self) -> u8 {
        match self {
            ATACommand::NOP => 0x00,
            ATACommand::READ_DMA_EXT => 0x25,
            ATACommand::WRITE_DMA_EXT => 0x35,
            ATACommand::IDENTIFY_DEVICE => 0xEC,
        }
    }

    /// The command's opcode.
    pub fn code(self) -> (r: u8)
        ensures
            r == self.spec_code(),
    {
        match self {
            ATACommand::NOP => 0x00,
            ATACommand::READ_DMA_EXT => 0x25,
            ATACommand::WRITE_DMA_EXT => 0x35,
            ATACommand::IDENTIFY_DEVICE => 0xEC,
        }
    }
}

/// Whether `c` has the Unicode `White_Space` property.
pub open spec fn is_white_space(c: char) -> bool {
    ||| '\u{9}' <= c <= '\u{D}'
    ||| c == ' '
    ||| c == '\u{85}'
    ||| c == '\u{A0}'
    ||| c == '\u{1680}'
    ||| '\u{2000}' <= c <= '\u{200A}'
    ||| c == '\u{2028}'
    ||| c == '\u{2029}'
    ||| c == '\u{202F}'
    ||| c == '\u{205F}'
    ||| c == '\u{3000}'
}

/// Calls `char::is_whitespace`, which tests for the Unicode `White_Space`
/// property.
#[verifier::external_body]
fn char_is_whitespace(c: char) -> (r: bool)
    ensures
        r == is_white_space(c),
{
    c.is_whitespace()
}

/// Calls `String::push`, which appends a character.
#[verifier::external_body]
fn string_push(s: &mut String, c: char)
    ensures
        final(s)@ == old(s)@.push(c),
{
    s.push(c)
}

/// `s` without its trailing white space.
pub open spec fn trim_end(s: Seq<char>) -> Seq<char>
    decreases s.len(),
{
    if s.len() > 0 && is_white_space(s.last()) {
        trim_end(s.drop_last())
    } else {
        s
    }
}

/// The characters of the model name: words 27 to 46, each read big-endian,
/// one character per byte.
pub open spec fn model_chars(data: Seq<u16>) -> Seq<char> {
    Seq::new(
        40,
        |k: int|
            (if k % 2 == 0 {
                data[27 + k / 2] as int / 256
            } else {
                data[27 + k / 2] as int % 256
            }) as char,
    )
}

/// The little-endian value of the `n` words starting at `start`.
pub open spec fn le_words(data: Seq<u16>, start: int, n: nat) -> int
    decreases n,
{
    if n == 0 {
        0
    } else {
        data[start] + 65536 * le_words(data, start + 1, (n - 1) as nat)
    }
}

/// The sector size, in bytes, the identify data gives: twice the count of
/// 16-bit words in words 117-118 when word 106 says it is valid (bits 14-15
/// are `01`) and not the default (bit 12 is set), otherwise 512 bytes.
pub open spec fn sector_size_of(data: Seq<u16>) -> int {
    if bitfield(data[106] as int, 14, 16) == 1 && bitfield(data[106] as int, 12, 13) == 1 {
        2 * le_words(data, 117, 2)
    } else {
        512
    }
}

/// The sector size of drives that do not report another.
pub const DEFAULT_SECTOR_SIZE: usize = 512;

/// Data returned by the ATA `IDENTIFY DEVICE` command
#[derive(Debug, Clone)]
pub struct ATADriveInfo {
    model_name: String,
    num_sectors: usize,
    sector_size: usize,
}

impl ATADriveInfo {
    pub closed spec fn spec_name(&self) -> Seq<char> {
        self.model_name@
    }

    pub closed spec fn spec_sectors(&self) -> usize {
        self.num_sectors
    }

    pub closed spec fn spec_sector_size(&self) -> usize {
        self.sector_size
    }

    /// Constructs `Self` based off the raw data returned by `IDENTIFY DEVICE`
    pub fn new(identify_data: &[u16; 256]) -> (r: Self)
        ensures
            r.spec_name() == trim_end(model_chars(identify_data@)),
            r.spec_sectors() == le_words(identify_data@, 100, 4) as usize,
            r.spec_sector_size() == sector_size_of(identify_data@) as usize,
    {
        let d: &[u16] = identify_data.as_slice();
        assert(d@ == identify_data@);
        let ghost chars = model_chars(d@);
        // The model name, two characters per word, most significant first
        let mut name_chars: Vec<char> = Vec::new();
        let mut k: usize = 0;
        while k < 40
            invariant
                d@.len() == 256,
                d@ == identify_data@,
                chars == model_chars(d@),
                k <= 40,
                k % 2 == 0,
                name_chars@ == chars.take(k as int),
            decreases 40 - k,
        {
            let w = d[27 + k / 2];
            let hi = ((w / 256) as u8) as char;
            let lo = ((w % 256) as u8) as char;
            name_chars.push(hi);
            name_chars.push(lo);
            assert(chars.take(k + 2) =~= chars.take(k as int).push(hi).push(lo));
            k = k + 2;
        }
        assert(chars.take(40) =~= chars);
        // Drop trailing white space
        let mut end: usize = 40;
        while end > 0 && char_is_whitespace(name_chars[end - 1])
            invariant
                end <= 40,
                chars.len() == 40,
                name_chars@ == chars,
                trim_end(chars.take(end as int)) == trim_end(chars),
            decreases end,
        {
            assert(chars.take(end - 1) =~= chars.take(end as int).drop_last());
            end = end - 1;
        }
        let mut model_name = String::new();
        let mut i: usize = 0;
        while i < end
            invariant
                end <= 40,
                chars.len() == 40,
                name_chars@ == chars,
                i <= end,
                model_name@ == chars.take(i as int),
            decreases end - i,
        {
            string_push(&mut model_name, name_chars[i]);
            assert(chars.take(i + 1) =~= chars.take(i as int).push(chars[i as int]));
            i = i + 1;
        }
        assert(trim_end(chars.take(end as int)) == chars.take(end as int));
        let sectors64: u64 = d[100] as u64 + (d[101] as u64) * 0x1_0000 + (d[102] as u64)
            * 0x1_0000_0000 + (d[103] as u64) * 0x1_0000_0000_0000;
        let num_sectors = #[verifier::truncate] (sectors64 as usize);
        proof {
            reveal_with_fuel(le_words, 5);
        }
        let word = d[106];
        let sector_size = if read_bitfield(word as u64, 14, 16) == 0b01 && read_bitfield(
            word as u64,
            12,
            13,
        ) == 0b1 {
            let words: u64 = d[117] as u64 + (d[118] as u64) * 0x1_0000;
            #[verifier::truncate] ((2 * words) as usize)
        } else {
            DEFAULT_SECTOR_SIZE
        };
        proof {
            reveal_with_fuel(le_words, 3);
        }
        ATADriveInfo { model_name, num_sectors, sector_size }
    }

    /// Returns the name of the drive
    pub fn name(&self) -> (r: &str)
        ensures
            r@ == self.spec_name(),
    {
        self.model_name.as_str()
    }

    /// Returns the number of sectors on the drive
    pub fn sectors(&self) -> (r: usize)
        ensures
            r == self.spec_sectors(),
    {
        self.num_sectors
    }

    /// Returns the size of each sector in bytes
    pub fn sector_size(&self) -> (r: usize)
        ensures
            r == self.spec_sector_size(),
    {
        self.sector_size
    }
}

} // verus!
