//! Little-endian integer decoding of on-disk structures.
use vstd::prelude::*;

verus! {

/// The little-endian `u16` stored at byte offset `off` of `s`.
pub open spec fn le_u16(s: Seq<u8>, off: int) -> int {
    s[off] + 256 * s[off + 1]
}

/// The little-endian `u32` stored at byte offset `off` of `s`.
pub open spec fn le_u32(s: Seq<u8>, off: int) -> int {
    s[off] + 256 * s[off + 1] + 65536 * s[off + 2] + 16777216 * s[off + 3]
}

/// The little-endian 24-bit value stored at byte offset `off` of `s`.
pub open spec fn le_u24(s: Seq<u8>, off: int) -> int {
    s[off] + 256 * s[off + 1] + 65536 * s[off + 2]
}

/// The little-endian `u64` stored at byte offset `off` of `s`.
pub open spec fn le_u64(s: Seq<u8>, off: int) -> int {
    le_u32(s, off) + 4294967296 * le_u32(s, off + 4)
}

/// Reads the little-endian `u16` at `off`.
pub fn read_le_u16(data: &[u8], off: usize) -> (r: u16)
    requires
        off + 2 <= data@.len(),
    ensures
        r == le_u16(data@, off as int),
{
    data[off] as u16 + (data[off + 1] as u16) * 256
}

/// Reads the little-endian `u32` at `off`.
pub fn read_le_u32(data: &[u8], off: usize) -> (r: u32)
    requires
        off + 4 <= data@.len(),
    ensures
        r == le_u32(data@, off as int),
{
    data[off] as u32 + (data[off + 1] as u32) * 256 + (data[off + 2] as u32) * 65536
        + (data[off + 3] as u32) * 16777216
}

/// Reads the little-endian 24-bit value at `off`.
pub fn read_le_u24(data: &[u8], off: usize) -> (r: u32)
    requires
        off + 3 <= data@.len(),
    ensures
        r == le_u24(data@, off as int),
        r < 0x100_0000,
{
    data[off] as u32 + (data[off + 1] as u32) * 256 + (data[off + 2] as u32) * 65536
}

/// Copies `N` bytes starting at `off` into an array.
pub fn read_array<const N: usize>(data: &[u8], off: usize) -> (r: [u8; N])
    requires
        off + N <= data@.len(),
    ensures
        r@ == data@.subrange(off as int, off + N),
{
    let mut r = [0u8; N];
    let len = data.len();
    let mut i: usize = 0;
    while i < N
        invariant
            len == data@.len(),
            off + N <= data@.len(),
            i <= N,
            r@.len() == N,
            forall|j: int| 0 <= j < i ==> r@[j] == data@[off + j],
        decreases N - i,
    {
        assert(off + i < data@.len());
        r[i] = data[off + i];
        i = i + 1;
    }
    assert(r@ =~= data@.subrange(off as int, off + N));
    r
}

} // verus!
