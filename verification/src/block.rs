//! Block-device abstraction: sector-aligned byte reads out of a storage
//! device, together with an in-memory device used by tests and by the
//! filesystem laws.

use vstd::prelude::*;

use crate::errors::ErrorCode;

verus! {

/// A read-only storage device addressed in bytes. Reads must be aligned to
/// 512-byte sectors, in both offset and size.
pub trait BlockDevice: Sized {
    /// The bytes the device holds.
    spec fn spec_data(&self) -> Seq<u8>;

    /// The device size that `get_size` reports.
    spec fn spec_size(&self) -> nat;

    /// Whether aligned in-range reads always succeed (true of an in-memory
    /// device, false of one backed by real hardware).
    spec fn spec_reliable(&self) -> bool;

    /// Total size of the device in bytes.
    fn get_size(&self) -> (r: usize)
        ensures
            r == self.spec_size(),
    ;

    /// Read `size` bytes starting at `offset`. Unaligned requests are
    /// refused; a successful read returns exactly the device bytes of the
    /// requested range.
    fn read(&self, offset: usize, size: usize) -> (r: Result<Vec<u8>, ErrorCode>)
        ensures
            (offset % 512 != 0 || size % 512 != 0) ==> r == Result::<Vec<u8>, ErrorCode>::Err(
                ErrorCode::Unspecified,
            ),
            r matches Ok(v) ==> {
                &&& offset % 512 == 0
                &&& size % 512 == 0
                &&& v@.len() == size
                &&& (size > 0 ==> offset + size <= self.spec_data().len() && v@
                    == self.spec_data().subrange(offset as int, offset + size))
            },
            ({
                &&& self.spec_reliable()
                &&& offset % 512 == 0
                &&& size % 512 == 0
                &&& offset + size <= self.spec_data().len()
            }) ==> r is Ok,
            ({
                &&& self.spec_reliable()
                &&& offset % 512 == 0
                &&& size % 512 == 0
                &&& offset + size > self.spec_data().len()
            }) ==> r == Result::<Vec<u8>, ErrorCode>::Err(ErrorCode::OutOfBounds),
    ;
}

/// A block device over a byte vector. Used by tests in place of the
/// BIOS-backed device, and by the filesystem laws, which hold of any
/// reliable device.
pub struct MemBlockDevice {
    data: Vec<u8>,
}

impl MemBlockDevice {
    /// Wrap `data` as a block device.
    pub fn new(data: Vec<u8>) -> (r: MemBlockDevice)
        ensures
            r.spec_data() == data@,
    {
        MemBlockDevice { data }
    }
}

impl BlockDevice for MemBlockDevice {
    closed spec fn spec_data(&self) -> Seq<u8> {
        self.data@
    }

    closed spec fn spec_size(&self) -> nat {
        self.data@.len()
    }

    closed spec fn spec_reliable(&self) -> bool {
        true
    }

    fn get_size(&self) -> (r: usize) {
        self.data.len()
    }

    fn read(&self, offset: usize, size: usize) -> (r: Result<Vec<u8>, ErrorCode>) {
        if (offset % 512 != 0) || (size % 512 != 0) {
            /* Only sector-aligned reads are supported */
            return Err(ErrorCode::Unspecified);
        }
        let n = self.data.len();
        if offset > n || size > n - offset {
            return Err(ErrorCode::OutOfBounds);
        }
        let mut out: Vec<u8> = Vec::new();
        let mut i: usize = 0;
        while i < size
            invariant
                i <= size,
                offset + size <= usize::MAX,
                offset + size <= self.data@.len(),
                out@ =~= self.data@.subrange(offset as int, offset + i),
            decreases size - i,
        {
            out.push(self.data[offset + i]);
            i = i + 1;
        }
        proof {
            assert(out@ =~= self.spec_data().subrange(offset as int, offset + size));
        }
        Ok(out)
    }
}

/// Read-concatenation law: for any two adjacent sector-aligned ranges of a
/// device, the bytes of the two reads concatenated equal the bytes of the
/// single read spanning both, as each read returns exactly
/// `spec_data().subrange(..)` by `BlockDevice::read`'s contract.
pub proof fn lemma_read_concat(data: Seq<u8>, offset: int, size1: int, size2: int)
    requires
        offset % 512 == 0,
        size1 % 512 == 0,
        size2 % 512 == 0,
        0 <= offset,
        0 <= size1,
        0 <= size2,
        offset + size1 + size2 <= data.len(),
    ensures
        data.subrange(offset, offset + size1) + data.subrange(
            offset + size1,
            offset + size1 + size2,
        ) == data.subrange(offset, offset + size1 + size2),
{
    assert(data.subrange(offset, offset + size1) + data.subrange(
        offset + size1,
        offset + size1 + size2,
    ) =~= data.subrange(offset, offset + size1 + size2));
}

} // verus!
