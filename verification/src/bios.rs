//! The BIOS-call record and the interface of the real-mode thunk.
//!
//! The protected-mode to real-mode round trip cannot be expressed in portable
//! code; it is an external collaborator provided in assembler by the runtime
//! shell. [`BiosThunk`] is its interface: the record carries the registers in
//! and out, and for INT 13h single-sector reads the contract ties the bytes
//! that come back to the drive content at the addressed CHS position. An
//! in-memory implementation for testing lives in [`crate::block_bios`].

use vstd::prelude::*;

verus! {

/// Carry flag.
pub const EFLAGS_CF: u32 = 1;

/// Parity flag.
pub const EFLAGS_PF: u32 = 4;

/// Auxiliary flag.
pub const EFLAGS_AF: u32 = 16;

/// Zero flag.
pub const EFLAGS_ZF: u32 = 64;

/// Sign flag.
pub const EFLAGS_SF: u32 = 128;

/// Trap flag.
pub const EFLAGS_TF: u32 = 256;

/// Interrupt enable flag.
pub const EFLAGS_IF: u32 = 512;

/// Direction flag.
pub const EFLAGS_DF: u32 = 1024;

/// Overflow flag.
pub const EFLAGS_OF: u32 = 2048;

/// Nested task flag.
pub const EFLAGS_NT: u32 = 16384;

/// The argument block for the real-mode thunk: the interrupt number, the
/// general-purpose registers handed to the BIOS, and EFLAGS as captured after
/// the `INT` returns. The carry flag in `eflags` is the canonical BIOS error
/// indicator.
#[derive(Clone, Copy, Debug, PartialEq, Eq, Structural)]
pub struct BiosCall {
    pub int_n: u8,
    pub eax: u32,
    pub ebx: u32,
    pub ecx: u32,
    pub edx: u32,
    pub esi: u32,
    pub edi: u32,
    pub eflags: u32,
}

impl Default for BiosCall {
    /// An all-zero record.
    fn default() -> (r: BiosCall)
        ensures
            r == (BiosCall { int_n: 0, eax: 0, ebx: 0, ecx: 0, edx: 0, esi: 0, edi: 0, eflags: 0 }),
    {
        BiosCall { int_n: 0, eax: 0, ecx: 0, ebx: 0, edx: 0, esi: 0, edi: 0, eflags: 0 }
    }
}

/// The LBA addressed by the CHS fields of an INT 13h read: CL carries the
/// 1-based sector, CH the cylinder, DH the head, with the fixed 1.44 MB
/// floppy geometry of 18 sectors per track and 2 heads.
pub open spec fn spec_chs_to_lba(ecx: u32, edx: u32) -> int {
    let sector = ecx % 0x100;
    let cylinder = (ecx / 0x100) % 0x100;
    let head = (edx / 0x100) % 0x100;
    (cylinder * 2 + head) * 18 + (sector - 1)
}

/// The real-mode thunk: drops to real mode, executes `INT int_n` with the
/// registers of the record, and captures the registers and EFLAGS back.
///
/// `buf` stands for the real-mode transfer buffer that EBX points at during
/// disk reads; the assembler implementation passes its address, an in-memory
/// implementation fills it directly. An assembler implementation must place
/// that buffer below 0xFE00, the real-mode addressability limit for INT 13h
/// transfers; the model carries the bytes by value, so the constraint falls
/// entirely on the implementation.
pub trait BiosThunk {
    /// The bytes of the drive with BIOS id `drive`, as INT 13h serves them.
    spec fn spec_disk(&self, drive: u8) -> Seq<u8>;

    /// Whether INT 13h reads of sectors that exist always succeed on this
    /// machine (true of an in-memory drive; false of real hardware, where
    /// any attempt may fail transiently).
    spec fn spec_reliable(&self) -> bool;

    /// Execute the interrupt. For an INT 13h one-sector read (AH=02, AL=01)
    /// of a floppy drive into a 512-byte buffer, a clear carry flag means the
    /// buffer now holds exactly the drive's bytes at the addressed sector.
    fn call(&self, bcall: &mut BiosCall, buf: &mut Vec<u8>)
        ensures
            final(buf)@.len() == old(buf)@.len(),
            ({
                &&& old(bcall).int_n == 0x13
                &&& old(bcall).eax == 0x0201
                &&& old(bcall).edx % 0x100 < 0x80
                &&& old(buf)@.len() == 512
                &&& final(bcall).eflags & EFLAGS_CF == 0
            }) ==> {
                let drive = (old(bcall).edx % 0x100) as u8;
                let lba = spec_chs_to_lba(old(bcall).ecx, old(bcall).edx);
                &&& 0 <= lba
                &&& 512 * lba + 512 <= self.spec_disk(drive).len()
                &&& final(buf)@ == self.spec_disk(drive).subrange(512 * lba, 512 * lba + 512)
            },
            ({
                &&& self.spec_reliable()
                &&& old(bcall).int_n == 0x13
                &&& old(bcall).eax == 0x0201
                &&& old(bcall).edx % 0x100 < 0x80
                &&& old(buf)@.len() == 512
                &&& 1 <= old(bcall).ecx % 0x100 <= 18
                &&& 512 * spec_chs_to_lba(old(bcall).ecx, old(bcall).edx) + 512 <= self.spec_disk(
                    (old(bcall).edx % 0x100) as u8,
                ).len()
            }) ==> final(bcall).eflags & EFLAGS_CF == 0,
    ;
}

} // verus!
