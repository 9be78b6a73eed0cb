//! Global descriptor table: the five-entry layout used by the bootloader
//! (null, 32-bit code over the program image, 32-bit data, and the 16-bit
//! code/data pair that exists solely to support the BIOS thunk).
//!
//! The table is computed as a value; the unverified runtime shell loads it
//! with `lgdt` and reloads the segment registers through the trampoline.

use vstd::prelude::*;

verus! {

/// One 8-byte GDT entry, with base and limit split across its fields.
#[derive(Clone, Copy, Debug, PartialEq, Eq, Structural)]
pub struct GDTEntry {
    pub limit_low: u16,
    pub base_low: u16,
    pub base_mid: u8,
    pub access: u8,
    pub flags_limit_high: u8,
    pub base_high: u8,
}

impl GDTEntry {
    /// The encoding of a descriptor with the given base, limit, flags nibble
    /// and access byte.
    pub open spec fn spec_new(base: u32, limit: u32, flags: u8, access: u8) -> GDTEntry {
        GDTEntry {
            limit_low: (limit % 0x1_0000) as u16,
            flags_limit_high: (((limit / 0x1_0000) % 16) as u8) | flags,
            base_low: (base % 0x1_0000) as u16,
            base_mid: ((base / 0x1_0000) % 0x100) as u8,
            base_high: ((base / 0x100_0000) % 0x100) as u8,
            access,
        }
    }

    /// Encode a descriptor: bits 0..16 of `limit` in `limit_low`, bits 16..20
    /// or-ed with `flags` in `flags_limit_high`, and `base` split over
    /// `base_low`, `base_mid` and `base_high`.
    pub fn new(base: u32, limit: u32, flags: u8, access: u8) -> (r: GDTEntry)
        ensures
            r == GDTEntry::spec_new(base, limit, flags, access),
    {
        GDTEntry {
            limit_low: (limit % 0x1_0000) as u16,
            flags_limit_high: (((limit / 0x1_0000) % 16) as u8) | flags,
            base_low: (base % 0x1_0000) as u16,
            base_mid: ((base / 0x1_0000) % 0x100) as u8,
            base_high: ((base / 0x100_0000) % 0x100) as u8,
            access,
        }
    }
}

/// Build the five-entry table: null descriptor; 32-bit code spanning
/// `[text_begin, text_end)` with byte-1 precision limit; 32-bit data at base
/// 0 with a 64 KiB limit; and the lenient 16-bit code and data descriptors
/// for the BIOS thunk. The caller loads the result with `lgdt`.
pub fn init(text_begin: u32, text_end: u32) -> (r: Vec<GDTEntry>)
    requires
        text_begin < text_end,
    ensures
        r@.len() == 5,
        r@[0] == GDTEntry::spec_new(0, 0, 0, 0),
        r@[1] == GDTEntry::spec_new(text_begin, (text_end - text_begin - 1) as u32, 0x4, 0x9b),
        r@[2] == GDTEntry::spec_new(0, 0xFFFF, 0x4, 0x93),
        r@[3] == GDTEntry::spec_new(0, 0xFFFF, 0x0, 0x9b),
        r@[4] == GDTEntry::spec_new(0, 0xFFFF, 0x0, 0x93),
{
    let mut r: Vec<GDTEntry> = Vec::new();
    /* 0x00: NULL entry */
    r.push(GDTEntry::new(0, 0, 0, 0));
    /* 0x08: 32-bit code segment (strict) */
    let base = text_begin;
    let limit = (text_end - base) - 1;
    r.push(GDTEntry::new(base, limit, 0x4, 0x9b));
    /* 0x10: 32-bit data segment (lenient) */
    r.push(GDTEntry::new(0, 0xFFFF, 0x4, 0x93));
    /* 0x18: 16-bit code segment (lenient) */
    r.push(GDTEntry::new(0, 0xFFFF, 0x0, 0x9b));
    /* 0x20: 16-bit data segment (lenient) */
    r.push(GDTEntry::new(0, 0xFFFF, 0x0, 0x93));
    r
}

} // verus!
