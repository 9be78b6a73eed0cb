//! Interrupt descriptor table: 48 entries (32 CPU exceptions plus 16 PIC
//! IRQs). The table is built as a value; the unverified runtime shell loads
//! it with `lidt`.

use vstd::prelude::*;

use crate::errors::ErrorCode;

verus! {

/// Number of IDT entries in this design: vectors 0..=31 are CPU exceptions,
/// 32..=47 the master and slave PIC IRQs.
pub const IDT_ENTRIES: usize = 48;

/// Flags byte of a 32-bit task gate.
pub const IDT_FLAGS_TASK: u8 = 0x85;

/// Flags byte of a 16-bit interrupt gate.
pub const IDT_FLAGS_INTR_16: u8 = 0x86;

/// Flags byte of a 16-bit trap gate.
pub const IDT_FLAGS_TRAP_16: u8 = 0x87;

/// Flags byte of a 32-bit interrupt gate.
pub const IDT_FLAGS_INTR_32: u8 = 0x8e;

/// Flags byte of a 32-bit trap gate.
pub const IDT_FLAGS_TRAP_32: u8 = 0x8f;

/// One 8-byte IDT entry: offset split low/high around the segment selector,
/// a reserved zero byte and the flags byte.
#[derive(Clone, Copy, Debug, PartialEq, Eq, Structural)]
pub struct IDTEntry {
    pub offset_low: u16,
    pub segment: u16,
    pub reserved: u8,
    pub flags: u8,
    pub offset_high: u16,
}

impl IDTEntry {
    /// The entry that routes a vector to handler address `offset` through
    /// selector `segment` with the given gate `flags`.
    pub open spec fn spec_new(offset: usize, segment: u16, flags: u8) -> IDTEntry {
        IDTEntry {
            offset_low: (offset % 0x1_0000) as u16,
            offset_high: ((offset / 0x1_0000) % 0x1_0000) as u16,
            segment,
            flags,
            reserved: 0,
        }
    }

    /// Build an IDT entry for handler address `offset`, selector `segment`
    /// and gate `flags`. The low and high 16 bits of the offset land in
    /// `offset_low` and `offset_high`.
    pub fn new(offset: usize, segment: u16, flags: u8) -> (r: IDTEntry)
        ensures
            r == IDTEntry::spec_new(offset, segment, flags),
    {
        IDTEntry {
            offset_low: (offset % 0x1_0000) as u16,
            offset_high: ((offset / 0x1_0000) % 0x1_0000) as u16,
            segment,
            flags,
            reserved: 0,
        }
    }
}

/// The in-memory interrupt descriptor table.
pub struct Idt {
    entries: Vec<IDTEntry>,
}

impl Idt {
    /// The entries of the table, in vector order.
    pub closed spec fn view(self) -> Seq<IDTEntry> {
        self.entries@
    }

    /// A well-formed table has exactly `IDT_ENTRIES` entries.
    pub open spec fn wf(self) -> bool {
        self.view().len() == IDT_ENTRIES
    }

    /// An empty table: every entry zeroed.
    pub fn new() -> (r: Idt)
        ensures
            r.wf(),
            forall|i: int|
                0 <= i < IDT_ENTRIES ==> r.view()[i] == (IDTEntry {
                    offset_low: 0,
                    segment: 0,
                    reserved: 0,
                    flags: 0,
                    offset_high: 0,
                }),
    {
        let mut entries: Vec<IDTEntry> = Vec::new();
        let mut i: usize = 0;
        while i < IDT_ENTRIES
            invariant
                i <= IDT_ENTRIES,
                entries@.len() == i,
                forall|j: int|
                    0 <= j < i ==> entries@[j] == (IDTEntry {
                        offset_low: 0,
                        segment: 0,
                        reserved: 0,
                        flags: 0,
                        offset_high: 0,
                    }),
            decreases IDT_ENTRIES - i,
        {
            entries.push(
                IDTEntry { offset_low: 0, segment: 0, reserved: 0, flags: 0, offset_high: 0 },
            );
            i = i + 1;
        }
        Idt { entries }
    }

    /// Store `entry` at vector `idx`; vectors outside the table yield
    /// `OutOfBounds` and leave the table unchanged.
    pub fn set_entry(&mut self, idx: usize, entry: &IDTEntry) -> (r: Result<(), ErrorCode>)
        requires
            old(self).wf(),
        ensures
            final(self).wf(),
            idx < IDT_ENTRIES ==> {
                &&& r == Result::<(), ErrorCode>::Ok(())
                &&& final(self).view() == old(self).view().update(idx as int, *entry)
            },
            idx >= IDT_ENTRIES ==> {
                &&& r == Result::<(), ErrorCode>::Err(ErrorCode::OutOfBounds)
                &&& final(self).view() == old(self).view()
            },
    {
        if idx >= IDT_ENTRIES {
            return Err(ErrorCode::OutOfBounds);
        }
        self.entries.set(idx, *entry);
        Ok(())
    }
}

} // verus!
