//! Block device backed by BIOS INT 13h through the real-mode thunk, plus an
//! in-memory thunk implementation that serves a floppy image, used by tests.

use vstd::prelude::*;

use crate::bios::{spec_chs_to_lba, BiosCall, BiosThunk, EFLAGS_CF};
use crate::block::BlockDevice;
use crate::errors::ErrorCode;

verus! {

/// Size in bytes of a standard 1.44 MB floppy: 2880 sectors of 512 bytes.
pub const FLOPPY_SIZE: usize = 2880 * 512;

/// Sectors per track of the fixed floppy geometry.
pub const FLOPPY_SECTORS_PER_TRACK: u16 = 18;

/// Number of heads of the fixed floppy geometry.
pub const FLOPPY_HEADS: u16 = 2;

/// The read `BiosCall` issued for the sector at LBA `lba` of `drive`: INT
/// 13h, AH=02 AL=01, the 1-based sector and the cylinder packed into ECX,
/// the drive and head into EDX. EBX carries the transfer-buffer address,
/// which this model leaves at 0.
pub open spec fn spec_floppy_read_call(drive: u8, lba: int) -> BiosCall {
    BiosCall {
        int_n: 0x13,
        eax: 0x0201,
        ebx: 0,
        ecx: ((lba % 18 + 1) + 0x100 * (lba / 18 / 2)) as u32,
        edx: (drive + 0x100 * ((lba / 18) % 2)) as u32,
        esi: 0,
        edi: 0,
        eflags: 0,
    }
}

/// The floppy-reset `BiosCall` issued between read attempts: INT 13h,
/// AH=00, the drive in EDX.
pub open spec fn spec_floppy_reset_call(drive: u8) -> BiosCall {
    BiosCall { int_n: 0x13, eax: 0, ebx: 0, ecx: 0, edx: drive as u32, esi: 0, edi: 0, eflags: 0 }
}

/// The calls issued by `n` failed read attempts: each a read call followed
/// by a floppy reset.
pub open spec fn spec_failed_attempts(drive: u8, lba: int, n: nat) -> Seq<BiosCall>
    decreases n,
{
    if n == 0 {
        Seq::empty()
    } else {
        spec_failed_attempts(drive, lba, (n - 1) as nat) + seq![
            spec_floppy_read_call(drive, lba),
            spec_floppy_reset_call(drive),
        ]
    }
}

/// A block device over a BIOS drive, reading one sector at a time through
/// the real-mode thunk with a 4-attempt retry budget and a floppy reset
/// between attempts.
pub struct BiosBlockDevice<T: BiosThunk> {
    bios_id: u8,
    size: usize,
    sectors_per_track: u16,
    n_heads: u16,
    thunk: T,
}

impl<T: BiosThunk> BiosBlockDevice<T> {
    /// Geometry invariant: only floppy drives with the standard 1.44 MB
    /// geometry are represented.
    #[verifier::type_invariant]
    spec fn inv(self) -> bool {
        &&& self.bios_id < 0x80
        &&& self.size == FLOPPY_SIZE
        &&& self.sectors_per_track == FLOPPY_SECTORS_PER_TRACK
        &&& self.n_heads == FLOPPY_HEADS
    }

    /// Open BIOS drive `id`. Floppy drives (`id < 0x80`) get the fixed
    /// 1.44 MB geometry; hard disks are not supported and are refused with a
    /// distinct error.
    pub fn new(id: u8, thunk: T) -> (r: Result<BiosBlockDevice<T>, ErrorCode>)
        ensures
            id < 0x80 ==> (r matches Ok(d) && (thunk.spec_disk(id).len() <= FLOPPY_SIZE
                ==> d.spec_data() == thunk.spec_disk(id)) && d.spec_size() == FLOPPY_SIZE
                && d.spec_reliable() == (thunk.spec_reliable() && thunk.spec_disk(id).len()
                == FLOPPY_SIZE)),
            id >= 0x80 ==> r == Result::<BiosBlockDevice<T>, ErrorCode>::Err(
                ErrorCode::Unsupported,
            ),
    {
        if id < 0x80 {
            /* INT 0x13, AH = 0x08 can report incorrect values for a floppy
             * disk; assume a standard 1.44 MB disk geometry. */
            Ok(
                BiosBlockDevice {
                    bios_id: id,
                    size: FLOPPY_SIZE,
                    sectors_per_track: FLOPPY_SECTORS_PER_TRACK,
                    n_heads: FLOPPY_HEADS,
                    thunk,
                },
            )
        } else {
            Err(ErrorCode::Unsupported)
        }
    }

    /// Ask the BIOS to reset the floppy subsystem, before a read is
    /// retried; the issued call is returned for the caller's call log.
    fn floppy_reset(&self) -> (c: Ghost<BiosCall>)
        ensures
            c@ == spec_floppy_reset_call(self.bios_id),
    {
        let mut bcall = BiosCall {
            int_n: 0x13,
            eax: 0,
            edx: self.bios_id as u32,
            ..Default::default()
        };
        let ghost issued = bcall;
        let mut buf: Vec<u8> = Vec::new();
        self.thunk.call(&mut bcall, &mut buf);
        Ghost(issued)
    }

    /// Read the 512-byte sector at byte offset `offset`, retrying up to 4
    /// times with a floppy reset between attempts. The second component
    /// logs the `BiosCall`s issued, in order: on success, up to 3 failed
    /// attempts (each a read then a reset) and the final read; on failure,
    /// exactly 4 failed attempts and `ReadFailure`.
    fn floppy_read_sector(&self, offset: usize) -> (r: (
        Result<Vec<u8>, ErrorCode>,
        Ghost<Seq<BiosCall>>,
    ))
        requires
            offset % 512 == 0,
            offset + 512 <= FLOPPY_SIZE,
        ensures
            r.0 matches Ok(v) ==> {
                &&& offset + 512 <= self.thunk.spec_disk(self.bios_id).len()
                &&& v@ == self.thunk.spec_disk(self.bios_id).subrange(
                    offset as int,
                    offset + 512,
                )
            },
            self.thunk.spec_reliable() && offset + 512 <= self.thunk.spec_disk(
                self.bios_id,
            ).len() ==> r.0 is Ok,
            r.0 is Ok ==> exists|k: int|
                0 <= k <= 3 && r.1@ == #[trigger] spec_failed_attempts(
                    self.bios_id,
                    offset as int / 512,
                    k as nat,
                ).push(spec_floppy_read_call(self.bios_id, offset as int / 512)),
            r.0 matches Err(e) ==> e == ErrorCode::ReadFailure && r.1@ == spec_failed_attempts(
                self.bios_id,
                offset as int / 512,
                4,
            ),
    {
        proof {
            use_type_invariant(self);
        }
        let lba = offset / 512;
        let track0 = lba / 18;
        let sector: u8 = ((lba % 18) + 1) as u8;
        let head: u8 = (track0 % 2) as u8;
        let track = track0 / 2;

        let ecx: u32 = sector as u32 + 0x100 * (track as u32);
        let edx: u32 = self.bios_id as u32 + 0x100 * (head as u32);

        proof {
            assert(lba < 2880);
            assert(track0 == 2 * track + head);
            assert(lba == 18 * track0 + (lba % 18));
            assert(track < 80);
            assert(spec_chs_to_lba(ecx, edx) == lba);
            assert(512 * lba == offset);
        }

        let ghost mut log: Seq<BiosCall> = Seq::empty();
        let mut attempts: usize = 4;
        while attempts > 0
            invariant
                offset % 512 == 0,
                offset + 512 <= FLOPPY_SIZE,
                ecx % 0x100 == (lba % 18) + 1,
                spec_chs_to_lba(ecx, edx) == lba,
                edx % 0x100 == self.bios_id,
                self.bios_id < 0x80,
                512 * lba == offset,
                lba == offset as int / 512,
                ecx == ((lba as int % 18 + 1) + 0x100 * (lba as int / 18 / 2)) as u32,
                edx == (self.bios_id + 0x100 * ((lba as int / 18) % 2)) as u32,
                attempts <= 4,
                log == spec_failed_attempts(
                    self.bios_id,
                    offset as int / 512,
                    (4 - attempts) as nat,
                ),
                self.thunk.spec_reliable() && offset + 512 <= self.thunk.spec_disk(
                    self.bios_id,
                ).len() ==> attempts == 4,
            decreases attempts,
        {
            attempts = attempts - 1;

            let mut buf: Vec<u8> = vec![0u8; 512];
            let mut bcall = BiosCall {
                int_n: 0x13,
                eax: 0x0201,
                ebx: 0,
                ecx,
                edx,
                ..Default::default()
            };
            proof {
                assert(bcall == spec_floppy_read_call(self.bios_id, offset as int / 512));
                log = log.push(bcall);
            }

            self.thunk.call(&mut bcall, &mut buf);

            if (bcall.eflags & EFLAGS_CF) == 0 {
                proof {
                    assert(0 <= 3 - attempts <= 3);
                }
                return (Ok(buf), Ghost(log));
            }
            let reset_call = self.floppy_reset();
            proof {
                log = log.push(reset_call@);
                assert(log =~= spec_failed_attempts(
                    self.bios_id,
                    offset as int / 512,
                    (4 - attempts) as nat,
                ));
            }
        }

        (Err(ErrorCode::ReadFailure), Ghost(log))
    }
}

impl<T: BiosThunk> BlockDevice for BiosBlockDevice<T> {
    /// The drive's bytes, as far as the fixed floppy geometry can address
    /// them.
    closed spec fn spec_data(&self) -> Seq<u8> {
        if self.thunk.spec_disk(self.bios_id).len() <= FLOPPY_SIZE {
            self.thunk.spec_disk(self.bios_id)
        } else {
            self.thunk.spec_disk(self.bios_id).take(FLOPPY_SIZE as int)
        }
    }

    closed spec fn spec_size(&self) -> nat {
        self.size as nat
    }

    /// Reads are deterministic only when the thunk is reliable and the drive
    /// holds a full 1.44 MB image.
    closed spec fn spec_reliable(&self) -> bool {
        self.thunk.spec_reliable() && self.thunk.spec_disk(self.bios_id).len() == FLOPPY_SIZE
    }

    fn get_size(&self) -> (r: usize) {
        proof {
            use_type_invariant(self);
        }
        self.size
    }

    fn read(&self, offset: usize, size: usize) -> (r: Result<Vec<u8>, ErrorCode>) {
        proof {
            use_type_invariant(self);
        }
        if ((offset % 512) != 0) || ((size % 512) != 0) {
            /* Only sector-aligned reads are currently supported */
            return Err(ErrorCode::Unspecified);
        }
        if offset > self.size || size > self.size - offset {
            return Err(ErrorCode::OutOfBounds);
        }

        let mut data: Vec<u8> = Vec::new();
        let mut pos: usize = 0;

        while pos < size
            invariant
                self.inv(),
                offset % 512 == 0,
                size % 512 == 0,
                pos % 512 == 0,
                pos <= size,
                offset + size <= FLOPPY_SIZE,
                data@.len() == pos,
                pos > 0 ==> offset + pos <= self.thunk.spec_disk(self.bios_id).len() && data@
                    == self.thunk.spec_disk(self.bios_id).subrange(offset as int, offset + pos),
            decreases size - pos,
        {
            let (sector, _) = self.floppy_read_sector(offset + pos);
            match sector {
                Ok(mut v) => {
                    proof {
                        assert(data@ + v@ =~= self.thunk.spec_disk(self.bios_id).subrange(
                            offset as int,
                            offset + pos + 512,
                        ));
                    }
                    data.append(&mut v);
                    pos = pos + 512;
                },
                Err(e) => {
                    return Err(e);
                },
            }
        }
        proof {
            if size > 0 {
                assert(self.thunk.spec_disk(self.bios_id).subrange(offset as int, offset + size)
                    =~= self.spec_data().subrange(offset as int, offset + size));
            }
        }
        Ok(data)
    }
}

/// An in-memory BIOS drive: a thunk that serves INT 13h single-sector reads
/// out of a floppy image held in a vector. Substituted for the assembler
/// thunk under test.
pub struct MemDiskBios {
    drive: u8,
    disk: Vec<u8>,
}

impl MemDiskBios {
    /// Serve `disk` as the content of BIOS drive `drive`.
    pub fn new(drive: u8, disk: Vec<u8>) -> (r: MemDiskBios)
        ensures
            r.spec_disk(drive) == disk@,
            r.spec_reliable(),
            forall|d: u8| d != drive ==> r.spec_disk(d) == Seq::<u8>::empty(),
    {
        MemDiskBios { drive, disk }
    }
}

impl BiosThunk for MemDiskBios {
    closed spec fn spec_disk(&self, drive: u8) -> Seq<u8> {
        if drive == self.drive {
            self.disk@
        } else {
            Seq::<u8>::empty()
        }
    }

    closed spec fn spec_reliable(&self) -> bool {
        true
    }

    fn call(&self, bcall: &mut BiosCall, buf: &mut Vec<u8>) {
        if bcall.int_n == 0x13 && bcall.eax == 0x0201 && (bcall.edx % 0x100) as u8 == self.drive
            && buf.len() == 512 {
            let sector: u32 = bcall.ecx % 0x100;
            let cylinder: u32 = (bcall.ecx / 0x100) % 0x100;
            let head: u32 = (bcall.edx / 0x100) % 0x100;
            if sector >= 1 {
                let lba: u32 = (cylinder * 2 + head) * 18 + (sector - 1);
                let off64: u64 = 512u64 * (lba as u64);
                if off64 + 512 <= self.disk.len() as u64 {
                    proof {
                        assert(off64 + 512 <= self.disk@.len());
                        assert(off64 <= usize::MAX);
                    }
                    let off: usize = off64 as usize;
                    let mut i: usize = 0;
                    while i < 512
                        invariant
                            i <= 512,
                            off + 512 <= usize::MAX,
                            off + 512 <= self.disk@.len(),
                            buf@.len() == 512,
                            forall|j: int| 0 <= j < i ==> buf@[j] == self.disk@[off + j],
                        decreases 512 - i,
                    {
                        let b = self.disk[off + i];
                        buf.set(i, b);
                        i = i + 1;
                    }
                    bcall.eflags = 0;
                    proof {
                        assert(0u32 & 1u32 == 0) by (bit_vector);
                        assert(buf@ =~= self.disk@.subrange(off as int, off + 512));
                        assert(spec_chs_to_lba(bcall.ecx, bcall.edx) == lba);
                    }
                    return ;
                }
            }
        }
        bcall.eflags = EFLAGS_CF;
        proof {
            assert(1u32 & 1u32 == 1) by (bit_vector);
        }
    }
}

} // verus!
