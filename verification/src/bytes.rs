//! Little-endian integer reads out of byte buffers, used by the boot-sector,
//! directory-entry and ELF parsers.

use vstd::prelude::*;

verus! {

/// The 16-bit little-endian integer stored at byte offset `i` of `s`.
pub open spec fn le16(s: Seq<u8>, i: int) -> int {
    s[i] + 0x100 * s[i + 1]
}

/// The 32-bit little-endian integer stored at byte offset `i` of `s`.
pub open spec fn le32(s: Seq<u8>, i: int) -> int {
    s[i] + 0x100 * s[i + 1] + 0x1_0000 * s[i + 2] + 0x100_0000 * s[i + 3]
}

/// Read the 16-bit little-endian integer at offset `i` of `b`.
pub fn read_le16(b: &Vec<u8>, i: usize) -> (r: u16)
    requires
        i + 2 <= b@.len(),
    ensures
        r == le16(b@, i as int),
{
    let _n: usize = b.len();
    b[i] as u16 + 0x100 * (b[i + 1] as u16)
}

/// Read the 32-bit little-endian integer at offset `i` of `b`.
pub fn read_le32(b: &Vec<u8>, i: usize) -> (r: u32)
    requires
        i + 4 <= b@.len(),
    ensures
        r == le32(b@, i as int),
{
    let _n: usize = b.len();
    b[i] as u32 + 0x100 * (b[i + 1] as u32) + 0x1_0000 * (b[i + 2] as u32) + 0x100_0000 * (b[i
        + 3] as u32)
}

} // verus!
