//! Read-only FAT12 filesystem: boot-sector parsing, FAT cluster-chain
//! traversal through a small LRU cluster cache, 8.3 path resolution, and
//! file reads.
//!
//! All byte offsets are relative to the start of the filesystem (the
//! partition offset into the block device). A `FATFile` carries the byte
//! offset of its first data cluster, its size and its attribute bits; file
//! data is read through the owning filesystem.

use vstd::prelude::*;

use crate::block::BlockDevice;
use crate::bytes::{le16, le32, read_le16, read_le32};
use crate::errors::ErrorCode;
use crate::fat_cache::{FATFilesystemCache, CACHE_EMPTY};
use crate::fs::{File, Filesystem, ATTR_DIRECTORY, ATTR_FILE};

verus! {

use vstd::arithmetic::mul::lemma_mul_upper_bound;

/// Number of slots in the cluster cache.
pub const FAT_CACHE_SLOTS: usize = 4;

/// The boot-sector fields this driver reads, in parsed form. The on-disk
/// record is 512 bytes; the reserved, FAT32-specific and code regions are
/// not represented.
#[derive(Clone, Copy, Debug, PartialEq, Eq, Structural)]
pub struct FatDataBootsector {
    pub bytes_per_sector: u16,
    pub sectors_per_cluster: u8,
    pub reserved_sectors: u16,
    pub fat_copies: u8,
    pub root_dir_entries: u16,
    pub total_sectors: u16,
    pub media_desc_type: u8,
    pub sectors_per_fat: u16,
    pub sectors_per_track: u16,
    pub heads: u16,
    pub stage2_map_sector: u16,
    pub stage2_addr: u16,
    pub signature: u16,
}

/// The parse of a 512-byte boot sector: each field read little-endian at its
/// fixed offset.
pub open spec fn spec_parse_bootsector(b: Seq<u8>) -> FatDataBootsector {
    FatDataBootsector {
        bytes_per_sector: le16(b, 11) as u16,
        sectors_per_cluster: b[13],
        reserved_sectors: le16(b, 14) as u16,
        fat_copies: b[16],
        root_dir_entries: le16(b, 17) as u16,
        total_sectors: le16(b, 19) as u16,
        media_desc_type: b[21],
        sectors_per_fat: le16(b, 22) as u16,
        sectors_per_track: le16(b, 24) as u16,
        heads: le16(b, 26) as u16,
        stage2_map_sector: le16(b, 506) as u16,
        stage2_addr: le16(b, 508) as u16,
        signature: le16(b, 510) as u16,
    }
}

/// Parse a 512-byte boot sector.
pub fn parse_bootsector(b: &Vec<u8>) -> (r: FatDataBootsector)
    requires
        b@.len() == 512,
    ensures
        r == spec_parse_bootsector(b@),
{
    FatDataBootsector {
        bytes_per_sector: read_le16(b, 11),
        sectors_per_cluster: b[13],
        reserved_sectors: read_le16(b, 14),
        fat_copies: b[16],
        root_dir_entries: read_le16(b, 17),
        total_sectors: read_le16(b, 19),
        media_desc_type: b[21],
        sectors_per_fat: read_le16(b, 22),
        sectors_per_track: read_le16(b, 24),
        heads: read_le16(b, 26),
        stage2_map_sector: read_le16(b, 506),
        stage2_addr: read_le16(b, 508),
        signature: read_le16(b, 510),
    }
}

/// An open file on a FAT filesystem: byte offset of its first data cluster
/// into the filesystem, size in bytes, and attribute bits (`ATTR_FILE` or
/// `ATTR_DIRECTORY`). The first-cluster offset is signed because directory
/// entries with a start cluster below 2 (such as empty files) map below the
/// data region.
#[derive(Clone, Copy, Debug, PartialEq, Eq, Structural)]
pub struct FATFile {
    pub first_cluster: i64,
    pub size: usize,
    pub attr: u32,
}

impl File for FATFile {
    open spec fn spec_size(&self) -> nat {
        self.size as nat
    }

    open spec fn spec_attr(&self) -> u32 {
        self.attr
    }

    fn get_size(&self) -> (r: usize) {
        self.size
    }

    fn get_attr(&self) -> (r: u32) {
        self.attr
    }
}

/// A mounted FAT12 filesystem over a block device.
pub struct FATFilesystem<D: BlockDevice> {
    /// Byte offset of the filesystem into the block device.
    pub offset: u64,
    /// Bytes per sector.
    pub sector_size: u64,
    /// Bytes per cluster.
    pub cluster_size: u64,
    /// Offset into the filesystem of the first FAT.
    pub fat_offset: u64,
    /// Size of one FAT in bytes.
    pub fat_size: u64,
    /// Offset into the filesystem of the first data cluster.
    pub data_offset: u64,
    /// Descriptor of the contiguous root directory.
    pub rootdir: FATFile,
    /// The FAT cluster cache.
    pub cache: FATFilesystemCache,
    /// The underlying block device.
    pub block: D,
}

impl<D: BlockDevice> FATFilesystem<D> {
    /// Cache coherence: every occupied cache slot holds exactly the bytes a
    /// device read of its keyed region returns.
    pub open spec fn cache_ok(&self) -> bool {
        forall|i: int|
            0 <= i < self.cache.len() && #[trigger] self.cache.key_at(i) != CACHE_EMPTY
                ==> self.spec_block_read(self.cache.key_at(i) as int, self.cluster_size as int)
                == Result::<Seq<u8>, ErrorCode>::Ok(self.cache.data_at(i))
    }

    /// Well-formedness: geometry bounds as mount derives them, the root
    /// descriptor consistent with the data-region offset, and a coherent
    /// cache.
    pub open spec fn wf(&self) -> bool {
        &&& 1 <= self.sector_size <= 0xFFFF
        &&& 1 <= self.cluster_size <= 0x100_0000
        &&& self.sector_size <= self.cluster_size
        &&& self.cluster_size % self.sector_size == 0
        &&& self.fat_offset <= 0x1_0000_0000
        &&& self.fat_size <= 0x1_0000_0000
        &&& 0 <= self.rootdir.first_cluster <= 0x101_0000_0000
        &&& self.rootdir.size <= 0x20_0000
        &&& self.data_offset == self.rootdir.first_cluster + self.rootdir.size
        &&& self.rootdir.attr == ATTR_DIRECTORY
        &&& self.offset <= 0x1_0000_0000_0000
        &&& self.cache.wf()
        &&& self.cache_ok()
    }

    /// The filesystem identity that every operation preserves: the device,
    /// the mount offset, the derived geometry and the root descriptor (the
    /// cache may change).
    pub open spec fn same_fs(self, other: Self) -> bool {
        &&& self.block == other.block
        &&& self.offset == other.offset
        &&& self.sector_size == other.sector_size
        &&& self.cluster_size == other.cluster_size
        &&& self.fat_offset == other.fat_offset
        &&& self.fat_size == other.fat_size
        &&& self.data_offset == other.data_offset
        &&& self.rootdir == other.rootdir
    }

    /// The outcome of a device read of `len` bytes at filesystem offset
    /// `off`, on a device whose aligned in-range reads succeed: refused when
    /// unaligned, out of bounds when past the device or not addressable,
    /// otherwise exactly the device bytes.
    pub open spec fn spec_block_read(&self, off: int, len: int) -> Result<Seq<u8>, ErrorCode> {
        if self.offset + off + len > usize::MAX {
            Result::Err(ErrorCode::OutOfBounds)
        } else if (self.offset + off) % 512 != 0 || len % 512 != 0 {
            Result::Err(ErrorCode::Unspecified)
        } else if self.offset + off + len > self.block.spec_data().len() {
            Result::Err(ErrorCode::OutOfBounds)
        } else {
            Result::Ok(self.block.spec_data().subrange(self.offset + off, self.offset + off + len))
        }
    }

    /// The outcome of reading the FAT byte at filesystem offset `off`
    /// through the cluster cache: the byte of the sector-aligned,
    /// cluster-sized region that covers it.
    pub open spec fn spec_read_fat_byte(&self, off: int) -> Result<u8, ErrorCode> {
        let ra = off - (off % (self.sector_size as int));
        match self.spec_block_read(ra, self.cluster_size as int) {
            Result::Err(e) => Result::Err(e),
            Result::Ok(b) => Result::Ok(b[off - ra]),
        }
    }

    /// The outcome of reading `sz` bytes (1 to 4) little-endian from the FAT
    /// region at filesystem offset `off`.
    pub open spec fn spec_read_fat_data(&self, off: int, sz: int) -> Result<u32, ErrorCode> {
        if sz < 1 || sz > 4 {
            Result::Err(ErrorCode::Unspecified)
        } else {
            match self.spec_read_fat_byte(off) {
                Result::Err(e) => Result::Err(e),
                Result::Ok(b0) => if sz == 1 {
                    Result::Ok(b0 as u32)
                } else {
                    match self.spec_read_fat_byte(off + 1) {
                        Result::Err(e) => Result::Err(e),
                        Result::Ok(b1) => if sz == 2 {
                            Result::Ok((b0 + 0x100 * b1) as u32)
                        } else {
                            match self.spec_read_fat_byte(off + 2) {
                                Result::Err(e) => Result::Err(e),
                                Result::Ok(b2) => if sz == 3 {
                                    Result::Ok((b0 + 0x100 * b1 + 0x1_0000 * b2) as u32)
                                } else {
                                    match self.spec_read_fat_byte(off + 3) {
                                        Result::Err(e) => Result::Err(e),
                                        Result::Ok(b3) => Result::Ok(
                                            (b0 + 0x100 * b1 + 0x1_0000 * b2 + 0x100_0000
                                                * b3) as u32,
                                        ),
                                    }
                                },
                            }
                        },
                    }
                },
            }
        }
    }

    /// The 12-bit FAT entry of cluster number `cn`: two bytes at FAT offset
    /// `(cn * 3) / 2`, shifted right a nibble for odd clusters, masked to 12
    /// bits.
    pub open spec fn spec_fat_entry(&self, cn: int) -> Result<u32, ErrorCode> {
        let off = self.fat_offset + (cn * 3) / 2;
        match self.spec_read_fat_data(off, 2) {
            Result::Err(e) => Result::Err(e),
            Result::Ok(e16) => {
                let v = if cn % 2 == 1 {
                    e16 as int / 16
                } else {
                    e16 as int
                };
                Result::Ok((v % 0x1000) as u32)
            },
        }
    }

    /// The successor of the cluster at byte offset `clust` in a chain.
    /// Inside the contiguous root directory the successor is the next
    /// cluster-sized step until the data region begins; in the data region
    /// the FAT entry decides: a value in `[0x002, 0xFF0]` points at the next
    /// cluster's byte offset, anything else ends the chain.
    pub open spec fn spec_next_cluster(&self, clust: int) -> Result<Option<i64>, ErrorCode> {
        if clust < self.data_offset {
            if clust < self.rootdir.first_cluster {
                Result::Err(ErrorCode::OutOfBounds)
            } else if clust + self.cluster_size < self.data_offset {
                Result::Ok(Some((clust + self.cluster_size) as i64))
            } else {
                Result::Ok(None)
            }
        } else {
            let cn = (clust - self.data_offset) / (self.cluster_size as int) + 2;
            if cn > 0xFFFF {
                Result::Err(ErrorCode::OutOfBounds)
            } else {
                match self.spec_fat_entry(cn) {
                    Result::Err(e) => Result::Err(e),
                    Result::Ok(entry) => if 0x002 <= entry <= 0xff0 {
                        Result::Ok(
                            Some((self.data_offset + (entry - 2) * self.cluster_size) as i64),
                        )
                    } else {
                        Result::Ok(None)
                    },
                }
            }
        }
    }

    /// Mount a FAT12 filesystem found at byte offset `offset` of `block`.
    /// The 512-byte boot sector at that offset yields the geometry; a boot
    /// sector whose sector or cluster size is zero is refused.
    pub fn init(block: D, offset: usize) -> (r: Result<FATFilesystem<D>, ErrorCode>)
        ensures
            r matches Ok(fs) ==> {
                let b = block.spec_data().subrange(offset as int, offset + 512);
                &&& fs.wf()
                &&& fs.block == block
                &&& fs.offset == offset
                &&& offset + 512 <= block.spec_data().len()
                &&& fs.sector_size == le16(b, 11)
                &&& fs.cluster_size == b[13] * le16(b, 11)
                &&& fs.fat_offset == le16(b, 14) * le16(b, 11)
                &&& fs.fat_size == le16(b, 22) * le16(b, 11)
                &&& fs.rootdir.first_cluster == fs.fat_offset + fs.fat_size * b[16]
                &&& fs.rootdir.size == 32 * le16(b, 17)
                &&& fs.data_offset == fs.rootdir.first_cluster + fs.rootdir.size
                &&& fs.rootdir.attr == ATTR_DIRECTORY
            },
            block.spec_reliable() ==> (r is Ok <==> spec_mountable(block, offset as int)),
            block.spec_reliable() ==> (match r {
                Ok(fs) => spec_mount_outcome(block, offset as int) == Result::<(), ErrorCode>::Ok(
                    (),
                ),
                Err(e) => spec_mount_outcome(block, offset as int) == Result::<
                    (),
                    ErrorCode,
                >::Err(e),
            }),
    {
        if offset as u64 > 0x1_0000_0000_0000u64 {
            return Err(ErrorCode::OutOfBounds);
        }
        let bs = match block.read(offset, 512) {
            Ok(data) => data,
            Err(e) => { return Err(e) },
        };
        let bs = parse_bootsector(&bs);

        if bs.bytes_per_sector == 0 || bs.sectors_per_cluster == 0 {
            return Err(ErrorCode::Unspecified);
        }

        let ss: u64 = bs.bytes_per_sector as u64;
        proof {
            lemma_mul_upper_bound(bs.sectors_per_cluster as int, 0xFF, ss as int, 0xFFFF);
            lemma_mul_upper_bound(bs.reserved_sectors as int, 0xFFFF, ss as int, 0xFFFF);
            lemma_mul_upper_bound(bs.sectors_per_fat as int, 0xFFFF, ss as int, 0xFFFF);
        }
        let cluster_size: u64 = bs.sectors_per_cluster as u64 * ss;
        let fat_offset: u64 = bs.reserved_sectors as u64 * ss;
        let fat_size: u64 = bs.sectors_per_fat as u64 * ss;
        proof {
            lemma_mul_upper_bound(fat_size as int, 0x1_0000_0000, bs.fat_copies as int, 0xFF);
        }
        let root_first_cluster: u64 = fat_offset + fat_size * bs.fat_copies as u64;
        let root_size: u64 = bs.root_dir_entries as u64 * 32;
        proof {
            assert(ss <= cluster_size && cluster_size % ss == 0 && cluster_size >= 1) by (
            nonlinear_arith)
                requires
                    cluster_size == bs.sectors_per_cluster as u64 * ss,
                    1 <= bs.sectors_per_cluster as u64,
                    1 <= ss,
            ;
        }

        Ok(
            FATFilesystem {
                offset: offset as u64,
                sector_size: ss,
                cluster_size,
                fat_offset,
                fat_size,
                data_offset: root_first_cluster + root_size,
                rootdir: FATFile {
                    first_cluster: root_first_cluster as i64,
                    size: root_size as usize,
                    attr: ATTR_DIRECTORY,
                },
                cache: FATFilesystemCache::new(FAT_CACHE_SLOTS),
                block,
            },
        )
    }

    /// Size in bytes of one cluster.
    pub fn get_cluster_size(&self) -> (r: usize)
        requires
            self.wf(),
        ensures
            r == self.cluster_size,
    {
        self.cluster_size as usize
    }

    /// Issue a device read of `len` bytes at filesystem offset `off`.
    fn blk_read(&self, off: u64, len: u64) -> (r: Result<Vec<u8>, ErrorCode>)
        requires
            len > 0,
        ensures
            r matches Ok(v) ==> self.spec_block_read(off as int, len as int) == Result::<
                Seq<u8>,
                ErrorCode,
            >::Ok(v@),
            self.block.spec_reliable() ==> (match r {
                Ok(v) => self.spec_block_read(off as int, len as int) == Result::<
                    Seq<u8>,
                    ErrorCode,
                >::Ok(v@),
                Err(e) => self.spec_block_read(off as int, len as int) == Result::<
                    Seq<u8>,
                    ErrorCode,
                >::Err(e),
            }),
    {
        let total: u128 = self.offset as u128 + off as u128 + len as u128;
        if total > usize::MAX as u128 {
            return Err(ErrorCode::OutOfBounds);
        }
        let dev_off: usize = (self.offset + off) as usize;
        let dev_len: usize = len as usize;
        self.block.read(dev_off, dev_len)
    }

    /// Read one byte of the FAT region at filesystem offset `off`, through
    /// the cluster cache: on a miss the covering sector-aligned,
    /// cluster-sized region is fetched from the device and cached.
    fn read_fat_byte(&mut self, off: u64) -> (r: Result<u8, ErrorCode>)
        requires
            old(self).wf(),
        ensures
            final(self).wf(),
            final(self).same_fs(*old(self)),
            r matches Ok(v) ==> old(self).spec_read_fat_byte(off as int) == Result::<
                u8,
                ErrorCode,
            >::Ok(v),
            old(self).block.spec_reliable() ==> (match r {
                Ok(v) => old(self).spec_read_fat_byte(off as int) == Result::<u8, ErrorCode>::Ok(
                    v,
                ),
                Err(e) => old(self).spec_read_fat_byte(off as int) == Result::<u8, ErrorCode>::Err(
                    e,
                ),
            }),
    {
        proof {
            vstd::arithmetic::div_mod::lemma_mod_decreases(off as nat, self.sector_size as nat);
        }
        let ra: u64 = off - (off % self.sector_size);
        let total: u128 = self.offset as u128 + ra as u128 + self.cluster_size as u128;
        if total > usize::MAX as u128 {
            return Err(ErrorCode::OutOfBounds);
        }
        let pos: usize = (off - ra) as usize;
        proof {
            assert(ra as usize != CACHE_EMPTY);
            assert(pos < self.cluster_size);
        }

        let hit = self.cache.find(ra as usize);
        match hit {
            Some(data) => {
                proof {
                    let i = choose|i: int|
                        0 <= i < old(self).cache.len() && old(self).cache.key_at(i) == ra as usize
                            && data@ == old(self).cache.data_at(i);
                    assert(old(self).cache.key_at(i) != CACHE_EMPTY);
                    assert(old(self).spec_block_read(ra as int, self.cluster_size as int)
                        == Result::<Seq<u8>, ErrorCode>::Ok(data@));
                }
                Ok(data[pos])
            },
            None => {
                let ghost mid = *self;
                proof {
                    assert forall|i: int|
                        0 <= i < mid.cache.len() && #[trigger] mid.cache.key_at(i)
                            != CACHE_EMPTY implies mid.spec_block_read(
                        mid.cache.key_at(i) as int,
                        mid.cluster_size as int,
                    ) == Result::<Seq<u8>, ErrorCode>::Ok(mid.cache.data_at(i)) by {
                        assert(old(self).cache.key_at(i) != CACHE_EMPTY);
                        assert(old(self).spec_block_read(
                            old(self).cache.key_at(i) as int,
                            old(self).cluster_size as int,
                        ) == Result::<Seq<u8>, ErrorCode>::Ok(old(self).cache.data_at(i)));
                    }
                    assert(mid.cache_ok());
                }
                match self.blk_read(ra, self.cluster_size) {
                    Ok(data) => {
                        let ghost dview = data@;
                        let b = data[pos];
                        proof {
                            assert(!self.cache.contains_key(ra as usize));
                        }
                        self.cache.add(ra as usize, data);
                        proof {
                            assert(mid.spec_block_read(ra as int, mid.cluster_size as int)
                                == Result::<Seq<u8>, ErrorCode>::Ok(dview));
                            lemma_cache_ok_after_add(mid, *self, ra as usize);
                        }
                        Ok(b)
                    },
                    Err(e) => Err(e),
                }
            },
        }
    }

    /// Read `sz` bytes (1 to 4) little-endian from the FAT region at
    /// filesystem offset `off`, through the cluster cache.
    fn read_fat_data(&mut self, off: u64, sz: u64) -> (r: Result<u32, ErrorCode>)
        requires
            old(self).wf(),
            off <= 0xFFFF_FFFF_FFFF,
        ensures
            final(self).wf(),
            final(self).same_fs(*old(self)),
            r matches Ok(v) ==> old(self).spec_read_fat_data(off as int, sz as int) == Result::<
                u32,
                ErrorCode,
            >::Ok(v),
            old(self).block.spec_reliable() ==> (match r {
                Ok(v) => old(self).spec_read_fat_data(off as int, sz as int) == Result::<
                    u32,
                    ErrorCode,
                >::Ok(v),
                Err(e) => old(self).spec_read_fat_data(off as int, sz as int) == Result::<
                    u32,
                    ErrorCode,
                >::Err(e),
            }),
    {
        if sz < 1 || sz > 4 {
            return Err(ErrorCode::Unspecified);
        }
        let b0 = match self.read_fat_byte(off) {
            Ok(b) => b,
            Err(e) => { return Err(e) },
        };
        let mut value: u32 = b0 as u32;
        if sz >= 2 {
            match self.read_fat_byte(off + 1) {
                Ok(b) => {
                    value = value + 0x100 * (b as u32);
                },
                Err(e) => { return Err(e) },
            }
        }
        if sz >= 3 {
            match self.read_fat_byte(off + 2) {
                Ok(b) => {
                    value = value + 0x1_0000 * (b as u32);
                },
                Err(e) => { return Err(e) },
            }
        }
        if sz >= 4 {
            match self.read_fat_byte(off + 3) {
                Ok(b) => {
                    value = value + 0x100_0000 * (b as u32);
                },
                Err(e) => { return Err(e) },
            }
        }
        Ok(value)
    }

    /// The 12-bit FAT entry of cluster number `cluster`.
    fn get_fat_entry(&mut self, cluster: u64) -> (r: Result<u32, ErrorCode>)
        requires
            old(self).wf(),
            cluster <= 0xFFFF,
        ensures
            final(self).wf(),
            final(self).same_fs(*old(self)),
            r matches Ok(v) ==> old(self).spec_fat_entry(cluster as int) == Result::<
                u32,
                ErrorCode,
            >::Ok(v),
            old(self).block.spec_reliable() ==> (match r {
                Ok(v) => old(self).spec_fat_entry(cluster as int) == Result::<u32, ErrorCode>::Ok(
                    v,
                ),
                Err(e) => old(self).spec_fat_entry(cluster as int) == Result::<
                    u32,
                    ErrorCode,
                >::Err(e),
            }),
    {
        let offset: u64 = self.fat_offset + (cluster * 3) / 2;

        let entry = match self.read_fat_data(offset, 2) {
            Ok(v) => v,
            Err(e) => { return Err(e) },
        };

        let entry = if cluster % 2 == 1 {
            entry / 16
        } else {
            entry
        };

        Ok(entry % 0x1000)
    }

    /// The successor of the cluster at byte offset `clust` in a chain, or
    /// `None` at the end of the chain. Offsets below the root directory are
    /// refused.
    fn get_next_cluster(&mut self, clust: i64) -> (r: Result<Option<i64>, ErrorCode>)
        requires
            old(self).wf(),
        ensures
            final(self).wf(),
            final(self).same_fs(*old(self)),
            r matches Ok(v) ==> old(self).spec_next_cluster(clust as int) == Result::<
                Option<i64>,
                ErrorCode,
            >::Ok(v),
            old(self).block.spec_reliable() ==> (match r {
                Ok(v) => old(self).spec_next_cluster(clust as int) == Result::<
                    Option<i64>,
                    ErrorCode,
                >::Ok(v),
                Err(e) => old(self).spec_next_cluster(clust as int) == Result::<
                    Option<i64>,
                    ErrorCode,
                >::Err(e),
            }),
    {
        if clust < self.data_offset as i64 {
            if clust < self.rootdir.first_cluster {
                return Err(ErrorCode::OutOfBounds);
            }
            return if clust + (self.cluster_size as i64) < self.data_offset as i64 {
                /* Root directory is contiguous */
                Ok(Some(clust + self.cluster_size as i64))
            } else {
                /* End of root directory */
                Ok(None)
            };
        }

        let diff: u64 = (clust - self.data_offset as i64) as u64;
        let q: u64 = diff / self.cluster_size;
        if q > 0xFFFD {
            return Err(ErrorCode::OutOfBounds);
        }
        let cluster_num: u64 = q + 2;
        let fat_entry = match self.get_fat_entry(cluster_num) {
            Ok(v) => v,
            Err(e) => { return Err(e) },
        };

        if 0x002 <= fat_entry && fat_entry <= 0xff0 {
            proof {
                lemma_mul_upper_bound(
                    fat_entry - 2,
                    0xfee,
                    self.cluster_size as int,
                    0x100_0000,
                );
            }
            Ok(Some(self.data_offset as i64 + (fat_entry as i64 - 2) * (self.cluster_size as i64)))
        } else {
            Ok(None)
        }
    }
}

impl<D: BlockDevice> FATFilesystem<D> {
    /// The file descriptor a 32-byte directory entry `ent` denotes: first
    /// cluster at `data_offset + (start_cluster - 2) * cluster_size`, the
    /// entry's file size, and the directory or file attribute bit.
    pub open spec fn spec_populate(&self, ent: Seq<u8>) -> FATFile {
        FATFile {
            first_cluster: (self.data_offset + (le16(ent, 26) - 2) * self.cluster_size) as i64,
            size: le32(ent, 28) as usize,
            attr: if (ent[11] / 16) % 2 == 1 {
                ATTR_DIRECTORY
            } else {
                ATTR_FILE
            },
        }
    }

    /// Scan the 32-byte entries of one directory cluster `buf` from entry
    /// `i` on for the first live entry whose 8.3 name matches `name`.
    /// Entries whose first byte is NUL and volume labels are skipped.
    pub open spec fn spec_scan_cluster(
        &self,
        buf: Seq<u8>,
        name: Seq<u8>,
        i: int,
        nent: int,
    ) -> Option<FATFile>
        decreases nent - i,
    {
        if i < 0 || i >= nent {
            None
        } else {
            let ent = buf.subrange(32 * i, 32 * i + 32);
            if ent[0] == 0 || (ent[11] / 8) % 2 == 1 {
                self.spec_scan_cluster(buf, name, i + 1, nent)
            } else if spec_name_matches(ent.subrange(0, 11), name) {
                Some(self.spec_populate(ent))
            } else {
                self.spec_scan_cluster(buf, name, i + 1, nent)
            }
        }
    }

    /// Scan the directory whose current cluster is at byte offset
    /// `dent_off` for a name match, following the cluster chain with at most
    /// `fuel` steps (a FAT12 chain cannot be longer without a cycle).
    pub open spec fn spec_scan_chain(
        &self,
        dent_off: int,
        name: Seq<u8>,
        fuel: nat,
    ) -> Result<Option<FATFile>, ErrorCode>
        decreases fuel,
    {
        if dent_off <= 0 {
            Result::Ok(None)
        } else if fuel == 0 {
            Result::Err(ErrorCode::Unspecified)
        } else {
            match self.spec_block_read(dent_off, self.cluster_size as int) {
                Result::Err(e) => Result::Err(e),
                Result::Ok(buf) => match self.spec_scan_cluster(
                    buf,
                    name,
                    0,
                    self.cluster_size as int / 32,
                ) {
                    Some(f) => Result::Ok(Some(f)),
                    None => match self.spec_next_cluster(dent_off) {
                        Result::Err(e) => Result::Err(e),
                        Result::Ok(None) => Result::Ok(None),
                        Result::Ok(Some(nx)) => self.spec_scan_chain(
                            nx as int,
                            name,
                            (fuel - 1) as nat,
                        ),
                    },
                },
            }
        }
    }

    /// Chain budget that covers both the contiguous root directory and the
    /// longest possible FAT12 cluster chain.
    pub open spec fn spec_scan_fuel(&self) -> nat {
        (self.rootdir.size as int / (self.cluster_size as int) + 4081) as nat
    }

    /// The outcome of looking `name` up in the directory `dir`: the file of
    /// the first matching live entry, `FileNotFound` past the end of the
    /// directory, `FileUnsupported` for names over 11 bytes.
    pub open spec fn spec_scan_dir(&self, dir: FATFile, name: Seq<u8>) -> Result<
        FATFile,
        ErrorCode,
    > {
        if name.len() > 11 {
            Result::Err(ErrorCode::FileUnsupported)
        } else {
            match self.spec_scan_chain(dir.first_cluster as int, name, self.spec_scan_fuel()) {
                Result::Err(e) => Result::Err(e),
                Result::Ok(Some(f)) => Result::Ok(f),
                Result::Ok(None) => Result::Err(ErrorCode::FileNotFound),
            }
        }
    }

    /// Parse the directory entry at `base` of cluster buffer `buf` into a
    /// file descriptor.
    fn populate_file(&self, buf: &Vec<u8>, base: usize) -> (r: FATFile)
        requires
            self.wf(),
            base + 32 <= buf@.len(),
        ensures
            r == self.spec_populate(buf@.subrange(base as int, base + 32)),
    {
        let _n: usize = buf.len();
        let start_cluster = read_le16(buf, base + 26);
        let filesize = read_le32(buf, base + 28);
        let attr_byte = buf[base + 11];

        proof {
            let ent = buf@.subrange(base as int, base + 32);
            assert(le16(ent, 26) == le16(buf@, base + 26));
            assert(le32(ent, 28) == le32(buf@, base + 28));
            assert(ent[11] == buf@[base + 11]);
            assert((start_cluster as int - 2) * (self.cluster_size as int) <= 0xFFFD
                * 0x100_0000 && (start_cluster as int - 2) * (self.cluster_size as int) >= (-2)
                * 0x100_0000) by (nonlinear_arith)
                requires
                    -2 <= start_cluster as int - 2 <= 0xFFFD,
                    1 <= self.cluster_size as int <= 0x100_0000,
            ;
        }
        let attr: u32 = if (attr_byte / 16) % 2 == 1 {
            ATTR_DIRECTORY
        } else {
            ATTR_FILE
        };
        FATFile {
            first_cluster: self.data_offset as i64 + (start_cluster as i64 - 2)
                * (self.cluster_size as i64),
            size: filesize as usize,
            attr,
        }
    }

    /// Look `name` (one path component, no `/`) up in the directory `dir`.
    #[verifier::rlimit(100)]
    #[verifier::spinoff_prover]
    pub fn scan_dir(&mut self, dir: &FATFile, name: &Vec<u8>) -> (r: Result<FATFile, ErrorCode>)
        requires
            old(self).wf(),
        ensures
            final(self).wf(),
            final(self).same_fs(*old(self)),
            r matches Ok(f) ==> old(self).spec_scan_dir(*dir, name@) == Result::<
                FATFile,
                ErrorCode,
            >::Ok(f),
            old(self).block.spec_reliable() ==> (match r {
                Ok(f) => old(self).spec_scan_dir(*dir, name@) == Result::<
                    FATFile,
                    ErrorCode,
                >::Ok(f),
                Err(e) => old(self).spec_scan_dir(*dir, name@) == Result::<
                    FATFile,
                    ErrorCode,
                >::Err(e),
            }),
    {
        if name.len() > 11 {
            /* Long filenames not yet supported */
            return Err(ErrorCode::FileUnsupported);
        }

        let mut dent_off: i64 = dir.first_cluster;
        let mut fuel: u64 = self.rootdir.size as u64 / self.cluster_size + 4081;
        proof {
            assert(fuel as nat == old(self).spec_scan_fuel());
        }

        while dent_off > 0
            invariant
                self.wf(),
                self.same_fs(*old(self)),
                name@.len() <= 11,
                fuel <= 0x20_0000 + 4081,
                old(self).spec_scan_chain(
                    dir.first_cluster as int,
                    name@,
                    old(self).spec_scan_fuel(),
                ) == old(self).spec_scan_chain(dent_off as int, name@, fuel as nat),
            decreases fuel,
        {
            if fuel == 0 {
                return Err(ErrorCode::Unspecified);
            }
            fuel = fuel - 1;

            let buf = match self.blk_read(dent_off as u64, self.cluster_size) {
                Ok(data) => data,
                Err(e) => {
                    proof {
                        lemma_cong_block_read(
                            *self,
                            *old(self),
                            dent_off as int,
                            self.cluster_size as int,
                        );
                    }
                    return Err(e);
                },
            };
            proof {
                lemma_cong_block_read(
                    *self,
                    *old(self),
                    dent_off as int,
                    self.cluster_size as int,
                );
                assert(old(self).spec_block_read(dent_off as int, old(self).cluster_size as int)
                    == Result::<Seq<u8>, ErrorCode>::Ok(buf@));
            }

            let nent: usize = (self.cluster_size / 32) as usize;
            proof {
                vstd::arithmetic::div_mod::lemma_mod_decreases(
                    self.cluster_size as nat,
                    32,
                );
                assert(32 * (nent as int) <= self.cluster_size as int) by (nonlinear_arith)
                    requires
                        nent as int == self.cluster_size as int / 32,
                        1 <= self.cluster_size as int <= 0x100_0000,
                ;
            }
            let mut i: usize = 0;
            while i < nent
                invariant
                    self.wf(),
                    self.same_fs(*old(self)),
                    name@.len() <= 11,
                    i <= nent,
                    dent_off > 0,
                    fuel < 0x20_0000 + 4081,
                    nent as int == old(self).cluster_size as int / 32,
                    32 * (nent as int) <= buf@.len(),
                    buf@.len() == old(self).cluster_size,
                    old(self).spec_block_read(dent_off as int, old(self).cluster_size as int)
                        == Result::<Seq<u8>, ErrorCode>::Ok(buf@),
                    old(self).spec_scan_chain(
                        dir.first_cluster as int,
                        name@,
                        old(self).spec_scan_fuel(),
                    ) == old(self).spec_scan_chain(dent_off as int, name@, (fuel + 1) as nat),
                    old(self).spec_scan_cluster(buf@, name@, 0, nent as int) == old(
                        self,
                    ).spec_scan_cluster(buf@, name@, i as int, nent as int),
                decreases nent - i,
            {
                let base: usize = i * 32;
                let first = buf[base];
                let attr_byte = buf[base + 11];
                proof {
                    let ent = buf@.subrange(base as int, base + 32);
                    assert(ent[0] == buf@[base as int]);
                    assert(ent[11] == buf@[base + 11]);
                }

                if first != 0 && (attr_byte / 8) % 2 != 1 {
                    let fname = subvec(&buf, base, base + 11);
                    proof {
                        assert(fname@ =~= buf@.subrange(base as int, base + 32).subrange(0, 11));
                    }
                    if fat_filename_eq(&fname, name) {
                        let f = self.populate_file(&buf, base);
                        proof {
                            let ent = buf@.subrange(base as int, base + 32);
                            lemma_cong_populate(*self, *old(self), ent);
                            assert(old(self).spec_scan_cluster(
                                buf@,
                                name@,
                                i as int,
                                nent as int,
                            ) == Some(old(self).spec_populate(ent)));
                            assert(old(self).spec_scan_chain(
                                dent_off as int,
                                name@,
                                (fuel + 1) as nat,
                            ) == Result::<Option<FATFile>, ErrorCode>::Ok(
                                Some(old(self).spec_populate(ent)),
                            ));
                        }
                        return Ok(f);
                    }
                }
                i = i + 1;
            }

            let ghost pre_next = *self;
            match self.get_next_cluster(dent_off) {
                Ok(Some(off)) => {
                    proof {
                        lemma_cong_next_cluster(pre_next, *old(self), dent_off as int);
                    }
                    dent_off = off;
                },
                Ok(None) => {
                    proof {
                        lemma_cong_next_cluster(pre_next, *old(self), dent_off as int);
                    }
                    return Err(ErrorCode::FileNotFound);
                },
                Err(e) => {
                    proof {
                        if old(self).block.spec_reliable() {
                            lemma_cong_next_cluster(pre_next, *old(self), dent_off as int);
                        }
                    }
                    return Err(e);
                },
            }
        }

        Err(ErrorCode::FileNotFound)
    }
}

impl<D: BlockDevice> FATFilesystem<D> {
    /// The outcome of resolving `path` from directory `dir`: the path is
    /// split on `/`; every non-terminal component must resolve to a
    /// directory, the terminal component to any entry.
    #[verifier::opaque]
    pub open spec fn spec_find_file(&self, dir: FATFile, path: Seq<u8>) -> Result<
        FATFile,
        ErrorCode,
    >
        decreases path.len(),
    {
        match spec_find_byte(path, 0, 47) {
            None => self.spec_scan_dir(dir, path),
            Some(idx) => if !(0 <= idx < path.len()) {
                Result::Err(ErrorCode::Unspecified)
            } else {
                match self.spec_scan_dir(dir, path.subrange(0, idx)) {
                    Result::Err(e) => Result::Err(e),
                    Result::Ok(f) => if (f.attr / 2) % 2 == 0 {
                        Result::Err(ErrorCode::FileNotFound)
                    } else {
                        self.spec_find_file(f, path.subrange(idx + 1, path.len() as int))
                    },
                }
            },
        }
    }

    /// The starting directory of a resolution: the root when the path is
    /// absolute or no directory is given, else the given directory.
    pub open spec fn spec_start_dir(&self, start: Option<FATFile>, path: Seq<u8>) -> FATFile {
        if (path.len() >= 1 && path[0] == 47) || start is None {
            self.rootdir
        } else {
            start.unwrap()
        }
    }

    /// The outcome of `find_file`.
    pub open spec fn spec_resolve(&self, start: Option<FATFile>, path: Seq<u8>) -> Result<
        FATFile,
        ErrorCode,
    > {
        self.spec_find_file(self.spec_start_dir(start, path), path)
    }

    /// Resolve `path` to a file, starting from `start_dir` (or the root for
    /// absolute paths or when no directory is given). Components are split
    /// on `/`; every intermediate component must name a directory.
    pub fn find_file(&mut self, start_dir: Option<&FATFile>, path: &Vec<u8>) -> (r: Result<
        FATFile,
        ErrorCode,
    >)
        requires
            old(self).wf(),
        ensures
            final(self).wf(),
            final(self).same_fs(*old(self)),
            r matches Ok(f) ==> old(self).spec_resolve(spec_opt_file(start_dir), path@)
                == Result::<FATFile, ErrorCode>::Ok(f),
            old(self).block.spec_reliable() ==> (match r {
                Ok(f) => old(self).spec_resolve(spec_opt_file(start_dir), path@) == Result::<
                    FATFile,
                    ErrorCode,
                >::Ok(f),
                Err(e) => old(self).spec_resolve(spec_opt_file(start_dir), path@) == Result::<
                    FATFile,
                    ErrorCode,
                >::Err(e),
            }),
    {
        let n = path.len();
        let is_abs = n >= 1 && path[0] == 47;
        let mut dir: FATFile = if is_abs {
            self.rootdir
        } else {
            match start_dir {
                Some(f) => *f,
                None => self.rootdir,
            }
        };
        proof {
            reveal(FATFilesystem::spec_find_file);
            assert(path@.subrange(0, n as int) =~= path@);
            assert(dir == old(self).spec_start_dir(spec_opt_file(start_dir), path@));
        }

        let mut lo: usize = 0;
        loop
            invariant
                self.wf(),
                self.same_fs(*old(self)),
                lo <= n,
                n == path@.len(),
                old(self).spec_resolve(spec_opt_file(start_dir), path@) == old(
                    self,
                ).spec_find_file(dir, path@.subrange(lo as int, n as int)),
            decreases n - lo,
        {
            let ghost sub = path@.subrange(lo as int, n as int);
            proof {
                reveal(FATFilesystem::spec_find_file);
                lemma_find_byte_sub(path@, lo as int, 0, 47);
                lemma_find_byte_bounds(path@, lo as int, 47);
            }
            match find_byte(path, lo, 47) {
                None => {
                    let comp = subvec(path, lo, n);
                    let ghost pre = *self;
                    let r = self.scan_dir(&dir, &comp);
                    proof {
                        lemma_cong_scan_dir(pre, *old(self), dir, comp@);
                        assert(comp@ =~= sub);
                    }
                    return r;
                },
                Some(idx) => {
                    let comp = subvec(path, lo, idx);
                    proof {
                        assert(comp@ =~= sub.subrange(0, idx - lo));
                    }
                    let ghost pre = *self;
                    match self.scan_dir(&dir, &comp) {
                        Err(e) => {
                            proof {
                                lemma_cong_scan_dir(pre, *old(self), dir, comp@);
                            }
                            return Err(e);
                        },
                        Ok(f) => {
                            proof {
                                lemma_cong_scan_dir(pre, *old(self), dir, comp@);
                            }
                            if (f.attr / 2) % 2 == 0 {
                                return Err(ErrorCode::FileNotFound);
                            }
                            proof {
                                assert(path@.subrange(idx + 1, n as int) =~= sub.subrange(
                                    idx - lo + 1,
                                    sub.len() as int,
                                ));
                            }
                            dir = f;
                            lo = idx + 1;
                        },
                    }
                },
            }
        }
    }

    /// Clusters skipped to reach byte `off` of a file whose current cluster
    /// is at byte offset `clust`: whole clusters are stepped over until the
    /// remaining offset is inside one cluster.
    pub open spec fn spec_skip_clusters(&self, clust: int, off: int) -> Result<
        (int, int),
        ErrorCode,
    >
        decreases off,
    {
        if self.cluster_size <= 0 {
            Result::Err(ErrorCode::Unspecified)
        } else if off < self.cluster_size {
            Result::Ok((clust, off))
        } else {
            match self.spec_next_cluster(clust) {
                Result::Err(e) => Result::Err(e),
                Result::Ok(None) => Result::Err(ErrorCode::Unspecified),
                Result::Ok(Some(nx)) => self.spec_skip_clusters(
                    nx as int,
                    off - self.cluster_size,
                ),
            }
        }
    }

    /// Bytes gathered from the cluster chain: `remaining` bytes starting at
    /// in-cluster offset `off` of the cluster at byte offset `clust`,
    /// following the chain cluster by cluster.
    pub open spec fn spec_gather(&self, clust: int, off: int, remaining: int) -> Result<
        Seq<u8>,
        ErrorCode,
    >
        decreases remaining,
    {
        if remaining <= 0 {
            Result::Ok(Seq::empty())
        } else if self.cluster_size <= 0 || !(0 <= off < self.cluster_size) {
            Result::Err(ErrorCode::Unspecified)
        } else if clust < 0 {
            Result::Err(ErrorCode::OutOfBounds)
        } else {
            match self.spec_block_read(clust, self.cluster_size as int) {
                Result::Err(e) => Result::Err(e),
                Result::Ok(buf) => {
                    let avail = self.cluster_size - off;
                    if remaining <= avail {
                        Result::Ok(buf.subrange(off, off + remaining))
                    } else {
                        match self.spec_next_cluster(clust) {
                            Result::Err(e) => Result::Err(e),
                            Result::Ok(None) => Result::Err(ErrorCode::Unspecified),
                            Result::Ok(Some(nx)) => match self.spec_gather(
                                nx as int,
                                0,
                                remaining - avail,
                            ) {
                                Result::Err(e) => Result::Err(e),
                                Result::Ok(rest) => Result::Ok(
                                    buf.subrange(off, self.cluster_size as int) + rest,
                                ),
                            },
                        }
                    }
                },
            }
        }
    }

    /// The outcome of `read_file`: reads past the end of a regular file are
    /// refused; otherwise the bytes `[offset, offset + size)` of the file's
    /// cluster chain.
    #[verifier::opaque]
    pub open spec fn spec_read_file(&self, f: FATFile, offset: int, size: int) -> Result<
        Seq<u8>,
        ErrorCode,
    > {
        if (f.attr / 2) % 2 == 0 && offset + size > f.size {
            Result::Err(ErrorCode::OutOfBounds)
        } else {
            match self.spec_skip_clusters(f.first_cluster as int, offset) {
                Result::Err(e) => Result::Err(e),
                Result::Ok((c, o)) => self.spec_gather(c, o, size),
            }
        }
    }

    /// Read `size` bytes of `file` starting at byte `offset`, walking the
    /// cluster chain. Reading past the end of a regular file yields
    /// `OutOfBounds`; a chain that ends before the requested range is an
    /// internal inconsistency reported as `Unspecified`.
    /// Step over whole clusters until the remaining offset `off` lies
    /// inside the cluster at `clust`.
    #[verifier::spinoff_prover]
    fn skip_to(&mut self, clust0: i64, off0: u64) -> (r: Result<(i64, u64), ErrorCode>)
        requires
            old(self).wf(),
        ensures
            final(self).wf(),
            final(self).same_fs(*old(self)),
            r matches Ok(p) ==> old(self).spec_skip_clusters(clust0 as int, off0 as int)
                == Result::<(int, int), ErrorCode>::Ok((p.0 as int, p.1 as int)) && p.1 < old(
                self,
            ).cluster_size,
            old(self).block.spec_reliable() ==> (match r {
                Ok(p) => old(self).spec_skip_clusters(clust0 as int, off0 as int) == Result::<
                    (int, int),
                    ErrorCode,
                >::Ok((p.0 as int, p.1 as int)),
                Err(e) => old(self).spec_skip_clusters(clust0 as int, off0 as int) == Result::<
                    (int, int),
                    ErrorCode,
                >::Err(e),
            }),
    {
        let cs: u64 = self.cluster_size;
        let mut clust: i64 = clust0;
        let mut off: u64 = off0;
        while off >= cs
            invariant
                self.wf(),
                self.same_fs(*old(self)),
                cs == old(self).cluster_size,
                old(self).spec_skip_clusters(clust0 as int, off0 as int) == old(
                    self,
                ).spec_skip_clusters(clust as int, off as int),
            decreases off,
        {
            let ghost pre = *self;
            match self.get_next_cluster(clust) {
                Ok(Some(c)) => {
                    proof {
                        lemma_cong_next_cluster(pre, *old(self), clust as int);
                    }
                    clust = c;
                },
                Ok(None) => {
                    proof {
                        lemma_cong_next_cluster(pre, *old(self), clust as int);
                    }
                    return Err(ErrorCode::Unspecified);
                },
                Err(e) => {
                    proof {
                        lemma_cong_next_cluster(pre, *old(self), clust as int);
                    }
                    return Err(e);
                },
            }
            off = off - cs;
        }
        Ok((clust, off))
    }

    /// Gather `size` bytes starting at in-cluster offset `off` of the
    /// cluster at byte offset `clust`, following the chain.
    #[verifier::rlimit(100)]
    #[verifier::spinoff_prover]
    fn gather_bytes(&mut self, clust0: i64, off0: u64, size: usize) -> (r: Result<
        Vec<u8>,
        ErrorCode,
    >)
        requires
            old(self).wf(),
            size > 0 ==> off0 < old(self).cluster_size,
        ensures
            final(self).wf(),
            final(self).same_fs(*old(self)),
            r matches Ok(v) ==> v@.len() == size && old(self).spec_gather(
                clust0 as int,
                off0 as int,
                size as int,
            ) == Result::<Seq<u8>, ErrorCode>::Ok(v@),
            old(self).block.spec_reliable() ==> (match r {
                Ok(v) => old(self).spec_gather(clust0 as int, off0 as int, size as int)
                    == Result::<Seq<u8>, ErrorCode>::Ok(v@),
                Err(e) => old(self).spec_gather(clust0 as int, off0 as int, size as int)
                    == Result::<Seq<u8>, ErrorCode>::Err(e),
            }),
    {
        let cs: u64 = self.cluster_size;
        let mut clust: i64 = clust0;
        let mut off: u64 = off0;
        let mut read_data: Vec<u8> = Vec::new();
        let mut pos: usize = 0;

        while pos < size
            invariant
                self.wf(),
                self.same_fs(*old(self)),
                cs == old(self).cluster_size,
                pos <= size,
                read_data@.len() == pos,
                pos < size ==> off < cs,
                old(self).spec_gather(clust0 as int, off0 as int, size as int) == (match old(
                    self,
                ).spec_gather(clust as int, off as int, size - pos) {
                    Result::Ok(rest) => Result::<Seq<u8>, ErrorCode>::Ok(read_data@ + rest),
                    Result::Err(e) => Result::<Seq<u8>, ErrorCode>::Err(e),
                }),
            decreases size - pos,
        {
            if clust < 0 {
                return Err(ErrorCode::OutOfBounds);
            }
            let buf = match self.blk_read(clust as u64, cs) {
                Ok(data) => data,
                Err(e) => {
                    proof {
                        lemma_cong_block_read(*self, *old(self), clust as int, cs as int);
                    }
                    return Err(e);
                },
            };
            proof {
                lemma_cong_block_read(*self, *old(self), clust as int, cs as int);
                assert(old(self).spec_block_read(clust as int, cs as int) == Result::<
                    Seq<u8>,
                    ErrorCode,
                >::Ok(buf@));
            }

            let offu: usize = off as usize;
            let remaining: usize = size - pos;
            let avail: usize = (cs as usize) - offu;

            let ghost rd0 = read_data@;
            if remaining <= avail {
                extend_from(&mut read_data, &buf, offu, offu + remaining);
                pos = size;
                proof {
                    assert(old(self).spec_gather(clust as int, off as int, remaining as int)
                        == Result::<Seq<u8>, ErrorCode>::Ok(
                        buf@.subrange(off as int, off + remaining),
                    ));
                }
            } else {
                extend_from(&mut read_data, &buf, offu, cs as usize);
                let ghost pos0 = pos as int;
                let ghost clust_prev = clust as int;
                pos = pos + avail;
                let ghost pre = *self;
                match self.get_next_cluster(clust) {
                    Ok(Some(c)) => {
                        proof {
                            lemma_cong_next_cluster(pre, *old(self), clust as int);
                        }
                        clust = c;
                        proof {
                            let sub = buf@.subrange(off as int, cs as int);
                            match old(self).spec_gather(clust as int, 0, size - pos) {
                                Result::Ok(rest) => {
                                    assert((rd0 + sub) + rest =~= rd0 + (sub + rest));
                                },
                                Result::Err(_) => {},
                            }
                            assert(old(self).spec_gather(clust_prev, off as int, size - pos0)
                                == (match old(self).spec_gather(clust as int, 0, size - pos) {
                                Result::Ok(rest) => Result::<Seq<u8>, ErrorCode>::Ok(sub + rest),
                                Result::Err(e) => Result::<Seq<u8>, ErrorCode>::Err(e),
                            }));
                        }
                    },
                    Ok(None) => {
                        proof {
                            lemma_cong_next_cluster(pre, *old(self), clust as int);
                        }
                        return Err(ErrorCode::Unspecified);
                    },
                    Err(e) => {
                        proof {
                            lemma_cong_next_cluster(pre, *old(self), clust as int);
                        }
                        return Err(e);
                    },
                }
            }
            off = 0;
        }
        proof {
            assert(read_data@ + Seq::<u8>::empty() =~= read_data@);
        }
        Ok(read_data)
    }

    /// Read `size` bytes of `file` starting at byte `offset`, walking the
    /// cluster chain. Reading past the end of a regular file yields
    /// `OutOfBounds`; a chain that ends before the requested range is an
    /// internal inconsistency reported as `Unspecified`.
    #[verifier::spinoff_prover]
    pub fn read_file(&mut self, file: &FATFile, offset: usize, size: usize) -> (r: Result<
        Vec<u8>,
        ErrorCode,
    >)
        requires
            old(self).wf(),
        ensures
            final(self).wf(),
            final(self).same_fs(*old(self)),
            r matches Ok(v) ==> v@.len() == size && old(self).spec_read_file(
                *file,
                offset as int,
                size as int,
            ) == Result::<Seq<u8>, ErrorCode>::Ok(v@),
            old(self).block.spec_reliable() ==> (match r {
                Ok(v) => old(self).spec_read_file(*file, offset as int, size as int) == Result::<
                    Seq<u8>,
                    ErrorCode,
                >::Ok(v@),
                Err(e) => old(self).spec_read_file(*file, offset as int, size as int) == Result::<
                    Seq<u8>,
                    ErrorCode,
                >::Err(e),
            }),
    {
        proof {
            reveal(FATFilesystem::spec_read_file);
        }
        let is_dir = (file.attr / 2) % 2 == 1;
        if !is_dir && offset as u128 + size as u128 > file.size as u128 {
            return Err(ErrorCode::OutOfBounds);
        }

        let (clust, off) = match self.skip_to(file.first_cluster, offset as u64) {
            Ok(p) => p,
            Err(e) => { return Err(e) },
        };
        let ghost mid = *self;
        let r = self.gather_bytes(clust, off, size);
        proof {
            lemma_cong_skip_clusters(mid, *old(self), file.first_cluster as int, offset as int);
            lemma_cong_gather(mid, *old(self), clust as int, off as int, size as int);
        }
        r
    }
}

/// The dereference of an optional file reference.
pub open spec fn spec_opt_file(o: Option<&FATFile>) -> Option<FATFile> {
    match o {
        Some(f) => Some(*f),
        None => None,
    }
}

/// `spec_find_byte` over a tail subrange mirrors it over the full sequence,
/// shifted.
pub proof fn lemma_find_byte_sub(s: Seq<u8>, lo: int, k: int, b: u8)
    requires
        0 <= lo <= s.len(),
        0 <= k,
    ensures
        spec_find_byte(s.subrange(lo, s.len() as int), k, b) == (match spec_find_byte(
            s,
            lo + k,
            b,
        ) {
            Some(i) => Some(i - lo),
            None => None,
        }),
    decreases s.len() - lo - k,
{
    let sub = s.subrange(lo, s.len() as int);
    if k >= sub.len() {
    } else {
        lemma_find_byte_sub(s, lo, k + 1, b);
    }
}

/// A found byte lies within the sequence at or after the start position.
pub proof fn lemma_find_byte_bounds(s: Seq<u8>, from: int, b: u8)
    ensures
        match spec_find_byte(s, from, b) {
            Some(i) => from <= i < s.len() && s[i] == b,
            None => true,
        },
    decreases s.len() - from,
{
    if from < 0 || from >= s.len() {
    } else if s[from] == b {
    } else {
        lemma_find_byte_bounds(s, from + 1, b);
    }
}

/// Congruence of the whole-cluster skip.
proof fn lemma_cong_skip_clusters<D: BlockDevice>(
    a: FATFilesystem<D>,
    b: FATFilesystem<D>,
    clust: int,
    off: int,
)
    requires
        a.same_fs(b),
    ensures
        a.spec_skip_clusters(clust, off) == b.spec_skip_clusters(clust, off),
    decreases off,
{
    if a.cluster_size <= 0 || off < a.cluster_size {
    } else {
        lemma_cong_next_cluster(a, b, clust);
        match a.spec_next_cluster(clust) {
            Result::Err(_) => {},
            Result::Ok(None) => {},
            Result::Ok(Some(nx)) => {
                lemma_cong_skip_clusters(a, b, nx as int, off - a.cluster_size);
            },
        }
    }
}

/// Congruence of the chain gather.
proof fn lemma_cong_gather<D: BlockDevice>(
    a: FATFilesystem<D>,
    b: FATFilesystem<D>,
    clust: int,
    off: int,
    remaining: int,
)
    requires
        a.same_fs(b),
    ensures
        a.spec_gather(clust, off, remaining) == b.spec_gather(clust, off, remaining),
    decreases remaining,
{
    if remaining <= 0 || a.cluster_size <= 0 || !(0 <= off < a.cluster_size) || clust < 0 {
    } else {
        lemma_cong_block_read(a, b, clust, a.cluster_size as int);
        match a.spec_block_read(clust, a.cluster_size as int) {
            Result::Err(_) => {},
            Result::Ok(_) => {
                lemma_cong_next_cluster(a, b, clust);
                match a.spec_next_cluster(clust) {
                    Result::Err(_) => {},
                    Result::Ok(None) => {},
                    Result::Ok(Some(nx)) => {
                        if remaining > a.cluster_size - off {
                            lemma_cong_gather(
                                a,
                                b,
                                nx as int,
                                0,
                                remaining - (a.cluster_size - off),
                            );
                        }
                    },
                }
            },
        }
    }
}

/// Congruence of the file read outcome across cache-only filesystem
/// changes.
pub proof fn lemma_cong_read_file<D: BlockDevice>(
    a: FATFilesystem<D>,
    b: FATFilesystem<D>,
    f: FATFile,
    offset: int,
    size: int,
)
    requires
        a.same_fs(b),
    ensures
        a.spec_read_file(f, offset, size) == b.spec_read_file(f, offset, size),
{
    reveal(FATFilesystem::spec_read_file);
    lemma_cong_skip_clusters(a, b, f.first_cluster as int, offset);
    match a.spec_skip_clusters(f.first_cluster as int, offset) {
        Result::Err(_) => {},
        Result::Ok(p) => {
            lemma_cong_gather(a, b, p.0, p.1, size);
        },
    }
}

/// Congruence of the one-cluster directory scan.
proof fn lemma_cong_scan_cluster<D: BlockDevice>(
    a: FATFilesystem<D>,
    b: FATFilesystem<D>,
    buf: Seq<u8>,
    name: Seq<u8>,
    i: int,
    nent: int,
)
    requires
        a.same_fs(b),
    ensures
        a.spec_scan_cluster(buf, name, i, nent) == b.spec_scan_cluster(buf, name, i, nent),
    decreases nent - i,
{
    if i < 0 || i >= nent {
    } else {
        lemma_cong_populate(a, b, buf.subrange(32 * i, 32 * i + 32));
        lemma_cong_scan_cluster(a, b, buf, name, i + 1, nent);
    }
}

/// Congruence of the chain-following directory scan.
proof fn lemma_cong_scan_chain<D: BlockDevice>(
    a: FATFilesystem<D>,
    b: FATFilesystem<D>,
    off: int,
    name: Seq<u8>,
    fuel: nat,
)
    requires
        a.same_fs(b),
    ensures
        a.spec_scan_chain(off, name, fuel) == b.spec_scan_chain(off, name, fuel),
    decreases fuel,
{
    if off <= 0 || fuel == 0 {
    } else {
        lemma_cong_block_read(a, b, off, a.cluster_size as int);
        match a.spec_block_read(off, a.cluster_size as int) {
            Result::Err(_) => {},
            Result::Ok(buf) => {
                lemma_cong_scan_cluster(a, b, buf, name, 0, a.cluster_size as int / 32);
                match a.spec_scan_cluster(buf, name, 0, a.cluster_size as int / 32) {
                    Some(_) => {},
                    None => {
                        lemma_cong_next_cluster(a, b, off);
                        match a.spec_next_cluster(off) {
                            Result::Err(_) => {},
                            Result::Ok(None) => {},
                            Result::Ok(Some(nx)) => {
                                lemma_cong_scan_chain(a, b, nx as int, name, (fuel - 1) as nat);
                            },
                        }
                    },
                }
            },
        }
    }
}

/// Congruence of the directory lookup.
proof fn lemma_cong_scan_dir<D: BlockDevice>(
    a: FATFilesystem<D>,
    b: FATFilesystem<D>,
    dir: FATFile,
    name: Seq<u8>,
)
    requires
        a.same_fs(b),
    ensures
        a.spec_scan_dir(dir, name) == b.spec_scan_dir(dir, name),
{
    if name.len() > 11 {
    } else {
        lemma_cong_scan_chain(a, b, dir.first_cluster as int, name, a.spec_scan_fuel());
    }
}

/// Congruence of the path resolution over two filesystem values that share
/// the same device, offset and geometry.
pub proof fn lemma_cong_find_file<D: BlockDevice>(
    a: FATFilesystem<D>,
    b: FATFilesystem<D>,
    dir: FATFile,
    path: Seq<u8>,
)
    requires
        a.same_fs(b),
    ensures
        a.spec_find_file(dir, path) == b.spec_find_file(dir, path),
    decreases path.len(),
{
    reveal(FATFilesystem::spec_find_file);
    match spec_find_byte(path, 0, 47) {
        None => {
            lemma_cong_scan_dir(a, b, dir, path);
        },
        Some(idx) => {
            if 0 <= idx < path.len() {
                lemma_cong_scan_dir(a, b, dir, path.subrange(0, idx));
                match a.spec_scan_dir(dir, path.subrange(0, idx)) {
                    Result::Err(_) => {},
                    Result::Ok(f) => {
                        if (f.attr / 2) % 2 == 0 {
                        } else {
                            lemma_cong_find_file(
                                a,
                                b,
                                f,
                                path.subrange(idx + 1, path.len() as int),
                            );
                        }
                    },
                }
            }
        },
    }
}

/// Congruence of `find_file`'s outcome over two filesystem values that
/// share the same device, offset and geometry.
pub proof fn lemma_cong_resolve<D: BlockDevice>(
    a: FATFilesystem<D>,
    b: FATFilesystem<D>,
    start: Option<FATFile>,
    path: Seq<u8>,
)
    requires
        a.same_fs(b),
    ensures
        a.spec_resolve(start, path) == b.spec_resolve(start, path),
{
    lemma_cong_find_file(a, b, a.spec_start_dir(start, path), path);
}

/// Congruence of the device-read outcome over two filesystem values that
/// share the same device, offset and geometry.
proof fn lemma_cong_block_read<D: BlockDevice>(
    a: FATFilesystem<D>,
    b: FATFilesystem<D>,
    off: int,
    len: int,
)
    requires
        a.same_fs(b),
    ensures
        a.spec_block_read(off, len) == b.spec_block_read(off, len),
{
}

/// Congruence of the cached FAT byte read over two filesystem values that
/// share the same device, offset and geometry.
proof fn lemma_cong_fat_byte<D: BlockDevice>(a: FATFilesystem<D>, b: FATFilesystem<D>, off: int)
    requires
        a.same_fs(b),
    ensures
        a.spec_read_fat_byte(off) == b.spec_read_fat_byte(off),
{
    lemma_cong_block_read(
        a,
        b,
        off - (off % (a.sector_size as int)),
        a.cluster_size as int,
    );
}

/// Congruence of the multi-byte FAT read.
proof fn lemma_cong_fat_data<D: BlockDevice>(
    a: FATFilesystem<D>,
    b: FATFilesystem<D>,
    off: int,
    sz: int,
)
    requires
        a.same_fs(b),
    ensures
        a.spec_read_fat_data(off, sz) == b.spec_read_fat_data(off, sz),
{
    lemma_cong_fat_byte(a, b, off);
    lemma_cong_fat_byte(a, b, off + 1);
    lemma_cong_fat_byte(a, b, off + 2);
    lemma_cong_fat_byte(a, b, off + 3);
}

/// Congruence of the FAT-entry lookup.
proof fn lemma_cong_fat_entry<D: BlockDevice>(a: FATFilesystem<D>, b: FATFilesystem<D>, cn: int)
    requires
        a.same_fs(b),
    ensures
        a.spec_fat_entry(cn) == b.spec_fat_entry(cn),
{
    lemma_cong_fat_data(a, b, a.fat_offset + (cn * 3) / 2, 2);
}

/// Congruence of the cluster-chain successor.
proof fn lemma_cong_next_cluster<D: BlockDevice>(
    a: FATFilesystem<D>,
    b: FATFilesystem<D>,
    clust: int,
)
    requires
        a.same_fs(b),
    ensures
        a.spec_next_cluster(clust) == b.spec_next_cluster(clust),
{
    lemma_cong_fat_entry(a, b, (clust - a.data_offset) / (a.cluster_size as int) + 2);
}

/// Congruence of directory-entry population.
proof fn lemma_cong_populate<D: BlockDevice>(
    a: FATFilesystem<D>,
    b: FATFilesystem<D>,
    ent: Seq<u8>,
)
    requires
        a.same_fs(b),
    ensures
        a.spec_populate(ent) == b.spec_populate(ent),
{
}

impl<D: BlockDevice> Filesystem for FATFilesystem<D> {
    type FileT = FATFile;

    open spec fn spec_root(&self) -> FATFile {
        self.rootdir
    }

    fn get_root(&self) -> (r: FATFile) {
        self.rootdir
    }
}

/// Append `src[from..to]` to `dst`.
pub fn extend_from(dst: &mut Vec<u8>, src: &Vec<u8>, from: usize, to: usize)
    requires
        from <= to <= src@.len(),
    ensures
        final(dst)@ == old(dst)@ + src@.subrange(from as int, to as int),
{
    let mut k: usize = from;
    while k < to
        invariant
            from <= k <= to <= src@.len(),
            dst@ == old(dst)@ + src@.subrange(from as int, k as int),
        decreases to - k,
    {
        proof {
            assert(dst@ + seq![src@[k as int]] =~= old(dst)@ + src@.subrange(
                from as int,
                k + 1,
            ));
        }
        dst.push(src[k]);
        k = k + 1;
    }
    proof {
        assert(dst@ =~= old(dst)@ + src@.subrange(from as int, to as int));
    }
}

/// Copy `src[from..to]` into a fresh vector.
pub fn subvec(src: &Vec<u8>, from: usize, to: usize) -> (r: Vec<u8>)
    requires
        from <= to <= src@.len(),
    ensures
        r@ == src@.subrange(from as int, to as int),
{
    let mut r: Vec<u8> = Vec::new();
    extend_from(&mut r, src, from, to);
    proof {
        assert(r@ =~= src@.subrange(from as int, to as int));
    }
    r
}

/// The position of the first occurrence of `b` in `s` at or after `from`.
pub open spec fn spec_find_byte(s: Seq<u8>, from: int, b: u8) -> Option<int>
    decreases s.len() - from,
{
    if from < 0 || from >= s.len() {
        None
    } else if s[from] == b {
        Some(from)
    } else {
        spec_find_byte(s, from + 1, b)
    }
}

/// Find the first occurrence of `b` in `v` at or after `from`.
pub fn find_byte(v: &Vec<u8>, from: usize, b: u8) -> (r: Option<usize>)
    ensures
        match r {
            Some(i) => spec_find_byte(v@, from as int, b) == Some(i as int),
            None => spec_find_byte(v@, from as int, b) is None,
        },
{
    let n = v.len();
    let mut j: usize = from;
    while j < n
        invariant
            from <= j,
            n == v@.len(),
            spec_find_byte(v@, from as int, b) == spec_find_byte(v@, j as int, b),
        decreases n - j,
    {
        if v[j] == b {
            return Some(j);
        }
        j = j + 1;
    }
    None
}

/// Whether the tail of an 11-byte 8.3 name from position `fidx` on is all
/// padding spaces.
pub open spec fn spec_all_spaces(fat: Seq<u8>, fidx: int) -> bool {
    forall|k: int| fidx <= k < 11 ==> fat[k] == 32
}

/// The first position at or after `fidx` in an 11-byte 8.3 name that is not
/// a padding space (or 11 if all padding).
pub open spec fn spec_skip_spaces(fat: Seq<u8>, fidx: int) -> int
    decreases 11 - fidx,
{
    if 0 <= fidx < 11 && fat[fidx] == 32 {
        spec_skip_spaces(fat, fidx + 1)
    } else {
        fidx
    }
}

/// The 8.3 name-match rule, from request position `ridx` and 8.3-name
/// position `fidx`: a `.` in the request advances past the padding spaces of
/// the 8-byte base; every other byte must match exactly; when the request is
/// exhausted the rest of the 8.3 name must be padding.
pub open spec fn spec_name_matches_at(fat: Seq<u8>, req: Seq<u8>, ridx: int, fidx: int) -> bool
    decreases req.len() - ridx,
{
    if ridx < 0 || ridx >= req.len() {
        spec_all_spaces(fat, fidx)
    } else if fidx >= 11 {
        false
    } else if req[ridx] == 46 {
        spec_name_matches_at(fat, req, ridx + 1, spec_skip_spaces(fat, fidx))
    } else if fat[fidx] == req[ridx] {
        spec_name_matches_at(fat, req, ridx + 1, fidx + 1)
    } else {
        false
    }
}

/// Whether the requested name `req` denotes the 11-byte 8.3 name `fat`.
pub open spec fn spec_name_matches(fat: Seq<u8>, req: Seq<u8>) -> bool {
    spec_name_matches_at(fat, req, 0, 0)
}

/// Compare a requested filename against an on-disk 11-byte 8.3 name: a `.`
/// in the request skips the padding spaces of the base name, any other byte
/// must match exactly, and trailing 8.3 bytes must be padding spaces.
pub fn fat_filename_eq(fat_name: &Vec<u8>, filename: &Vec<u8>) -> (r: bool)
    requires
        fat_name@.len() == 11,
    ensures
        r == spec_name_matches(fat_name@, filename@),
{
    let mut fidx: usize = 0;
    let mut ridx: usize = 0;
    let n = filename.len();
    while ridx < n
        invariant
            fat_name@.len() == 11,
            n == filename@.len(),
            ridx <= n,
            fidx <= 11,
            spec_name_matches(fat_name@, filename@) == spec_name_matches_at(
                fat_name@,
                filename@,
                ridx as int,
                fidx as int,
            ),
        decreases n - ridx,
    {
        let ch = filename[ridx];
        if fidx >= 11 {
            /* Requested filename longer than FAT filename */
            return false;
        }
        if ch == 46 {
            let ghost fidx0 = fidx as int;
            while fidx < 11 && fat_name[fidx] == 32
                invariant
                    fat_name@.len() == 11,
                    fidx <= 11,
                    spec_skip_spaces(fat_name@, fidx as int) == spec_skip_spaces(
                        fat_name@,
                        fidx0,
                    ),
                decreases 11 - fidx,
            {
                fidx = fidx + 1;
            }
            proof {
                assert(spec_skip_spaces(fat_name@, fidx as int) == fidx as int);
            }
            ridx = ridx + 1;
        } else {
            if fat_name[fidx] != ch {
                return false;
            }
            fidx = fidx + 1;
            ridx = ridx + 1;
        }
    }

    while fidx < 11
        invariant
            fat_name@.len() == 11,
            fidx <= 11,
            spec_name_matches(fat_name@, filename@) == spec_all_spaces(fat_name@, fidx as int),
        decreases 11 - fidx,
    {
        if fat_name[fidx] != 32 {
            /* FAT filename longer than requested filename */
            return false;
        }
        fidx = fidx + 1;
    }
    true
}

/// The outcome of a mount at `offset` of `block` when the device is
/// reliable: the partition offset must be addressable and sector-aligned,
/// the 512-byte boot sector must lie within the device, and it must claim
/// a nonzero sector and cluster size. A failing boot-sector read's own
/// error is the mount's error.
pub open spec fn spec_mount_outcome<D: BlockDevice>(block: D, offset: int) -> Result<
    (),
    ErrorCode,
> {
    if offset > 0x1_0000_0000_0000 {
        Result::Err(ErrorCode::OutOfBounds)
    } else if offset % 512 != 0 {
        Result::Err(ErrorCode::Unspecified)
    } else if offset + 512 > block.spec_data().len() {
        Result::Err(ErrorCode::OutOfBounds)
    } else if le16(block.spec_data().subrange(offset, offset + 512), 11) == 0 || block.spec_data(
    ).subrange(offset, offset + 512)[13] == 0 {
        Result::Err(ErrorCode::Unspecified)
    } else {
        Result::Ok(())
    }
}

/// Whether a mount at `offset` of `block` succeeds when the device is
/// reliable: the boot sector must be readable and claim a nonzero sector and
/// cluster size.
pub open spec fn spec_mountable<D: BlockDevice>(block: D, offset: int) -> bool {
    &&& offset <= 0x1_0000_0000_0000
    &&& offset % 512 == 0
    &&& offset + 512 <= block.spec_data().len()
    &&& le16(block.spec_data().subrange(offset, offset + 512), 11) >= 1
    &&& block.spec_data().subrange(offset, offset + 512)[13] >= 1
}

/// Re-establishes cache coherence after a fetched region is inserted:
/// `pre` and `post` are the filesystem before and after `cache.add(key, ..)`
/// of bytes that a successful device read of `key` returned.
proof fn lemma_cache_ok_after_add<D: BlockDevice>(
    pre: FATFilesystem<D>,
    post: FATFilesystem<D>,
    key: usize,
)
    requires
        pre.cache_ok(),
        post.same_fs(pre),
        post.cache.len() == pre.cache.len(),
        FATFilesystemCache::add_transition(
            pre.cache,
            post.cache,
            key,
            match pre.spec_block_read(key as int, pre.cluster_size as int) {
                Result::Ok(b) => b,
                Result::Err(_) => Seq::empty(),
            },
        ),
        pre.spec_block_read(key as int, pre.cluster_size as int) is Ok,
    ensures
        post.cache_ok(),
{
    let e = choose|e: int|
        {
            &&& 0 <= e < pre.cache.len()
            &&& pre.cache.rank_at(e) == pre.cache.len() - 1
            &&& #[trigger] post.cache.key_at(e) == key
            &&& post.cache.data_at(e) == (match pre.spec_block_read(
                key as int,
                pre.cluster_size as int,
            ) {
                Result::Ok(b) => b,
                Result::Err(_) => Seq::empty(),
            })
            &&& post.cache.rank_at(e) == 0
            &&& forall|i: int|
                0 <= i < pre.cache.len() && i != e ==> #[trigger] post.cache.key_at(i)
                    == pre.cache.key_at(i) && post.cache.data_at(i) == pre.cache.data_at(i)
                    && post.cache.rank_at(i) == pre.cache.rank_at(i) + 1
        };
    assert forall|i: int|
        0 <= i < post.cache.len() && #[trigger] post.cache.key_at(i) != CACHE_EMPTY implies post
        .spec_block_read(post.cache.key_at(i) as int, post.cluster_size as int) == Result::<
        Seq<u8>,
        ErrorCode,
    >::Ok(post.cache.data_at(i)) by {
        if i != e {
            assert(pre.cache.key_at(i) != CACHE_EMPTY);
        }
    }
}

/// Whether the 32-byte directory entry at index `j` of cluster buffer `buf`
/// is live (not end-of-directory, not a volume label) and its 8.3 name
/// matches `name`.
pub open spec fn spec_entry_matches(buf: Seq<u8>, j: int, name: Seq<u8>) -> bool {
    let ent = buf.subrange(32 * j, 32 * j + 32);
    &&& ent[0] != 0
    &&& (ent[11] / 8) % 2 != 1
    &&& spec_name_matches(ent.subrange(0, 11), name)
}

/// Lookup-completeness law, within one directory cluster: if entry `j` of
/// cluster buffer `buf` is live and matches `name`, and no earlier entry
/// from `i` on does, the cluster scan finds exactly entry `j`.
pub proof fn lemma_scan_cluster_finds<D: BlockDevice>(
    fs: FATFilesystem<D>,
    buf: Seq<u8>,
    name: Seq<u8>,
    i: int,
    nent: int,
    j: int,
)
    requires
        0 <= i <= j < nent,
        spec_entry_matches(buf, j, name),
        forall|k: int| i <= k < j ==> !spec_entry_matches(buf, k, name),
    ensures
        fs.spec_scan_cluster(buf, name, i, nent) == Some(
            fs.spec_populate(buf.subrange(32 * j, 32 * j + 32)),
        ),
    decreases j - i,
{
    if i == j {
    } else {
        assert(!spec_entry_matches(buf, i, name));
        lemma_scan_cluster_finds(fs, buf, name, i + 1, nent, j);
    }
}

/// Lookup-completeness law, at the head of a directory chain: if the
/// cluster at `off` is readable and holds a first matching live entry `j`,
/// the chain scan returns that entry's file.
pub proof fn lemma_scan_chain_finds<D: BlockDevice>(
    fs: FATFilesystem<D>,
    off: int,
    name: Seq<u8>,
    fuel: nat,
    buf: Seq<u8>,
    j: int,
)
    requires
        off > 0,
        fuel > 0,
        fs.spec_block_read(off, fs.cluster_size as int) == Result::<Seq<u8>, ErrorCode>::Ok(buf),
        0 <= j < fs.cluster_size as int / 32,
        spec_entry_matches(buf, j, name),
        forall|k: int| 0 <= k < j ==> !spec_entry_matches(buf, k, name),
    ensures
        fs.spec_scan_chain(off, name, fuel) == Result::<Option<FATFile>, ErrorCode>::Ok(
            Some(fs.spec_populate(buf.subrange(32 * j, 32 * j + 32))),
        ),
{
    lemma_scan_cluster_finds(fs, buf, name, 0, fs.cluster_size as int / 32, j);
}

/// Chain-walk law: when the cluster at `off` holds no matching entry and
/// the FAT names a successor, the scan continues there. Together with
/// `lemma_scan_chain_finds` this lets a match anywhere along a chain be
/// traced to a `find_file` success.
pub proof fn lemma_scan_chain_step<D: BlockDevice>(
    fs: FATFilesystem<D>,
    off: int,
    name: Seq<u8>,
    fuel: nat,
    buf: Seq<u8>,
    nx: i64,
)
    requires
        off > 0,
        fuel > 0,
        fs.spec_block_read(off, fs.cluster_size as int) == Result::<Seq<u8>, ErrorCode>::Ok(buf),
        fs.spec_scan_cluster(buf, name, 0, fs.cluster_size as int / 32) is None,
        fs.spec_next_cluster(off) == Result::<Option<i64>, ErrorCode>::Ok(Some(nx)),
    ensures
        fs.spec_scan_chain(off, name, fuel) == fs.spec_scan_chain(
            nx as int,
            name,
            (fuel - 1) as nat,
        ),
{
}

/// Path-walk law: resolving a path whose first component names a directory
/// continues from that directory with the rest of the path.
pub proof fn lemma_find_file_step<D: BlockDevice>(
    fs: FATFilesystem<D>,
    dir: FATFile,
    path: Seq<u8>,
    idx: int,
    f: FATFile,
)
    requires
        spec_find_byte(path, 0, 47) == Some(idx),
        0 <= idx < path.len(),
        fs.spec_scan_dir(dir, path.subrange(0, idx)) == Result::<FATFile, ErrorCode>::Ok(f),
        crate::fs::spec_is_directory(f.attr),
    ensures
        fs.spec_find_file(dir, path) == fs.spec_find_file(
            f,
            path.subrange(idx + 1, path.len() as int),
        ),
{
    reveal(FATFilesystem::spec_find_file);
}

/// Whether resolving `path` from `dir` walks into an intermediate component
/// that resolves to a non-directory.
pub open spec fn spec_hits_non_directory<D: BlockDevice>(
    fs: FATFilesystem<D>,
    dir: FATFile,
    path: Seq<u8>,
) -> bool
    decreases path.len(),
{
    match spec_find_byte(path, 0, 47) {
        None => false,
        Some(idx) => if !(0 <= idx < path.len()) {
            false
        } else {
            match fs.spec_scan_dir(dir, path.subrange(0, idx)) {
                Result::Err(_) => false,
                Result::Ok(f) => if (f.attr / 2) % 2 == 0 {
                    true
                } else {
                    spec_hits_non_directory(fs, f, path.subrange(idx + 1, path.len() as int))
                },
            }
        },
    }
}

/// Non-directory-component law: a path in which some intermediate component
/// resolves to a non-directory fails with `FileNotFound`.
pub proof fn lemma_non_directory_component<D: BlockDevice>(
    fs: FATFilesystem<D>,
    dir: FATFile,
    path: Seq<u8>,
)
    requires
        spec_hits_non_directory(fs, dir, path),
    ensures
        fs.spec_find_file(dir, path) == Result::<FATFile, ErrorCode>::Err(
            ErrorCode::FileNotFound,
        ),
    decreases path.len(),
{
    reveal(FATFilesystem::spec_find_file);
    match spec_find_byte(path, 0, 47) {
        None => {},
        Some(idx) => {
            if 0 <= idx < path.len() {
                match fs.spec_scan_dir(dir, path.subrange(0, idx)) {
                    Result::Err(_) => {},
                    Result::Ok(f) => {
                        if (f.attr / 2) % 2 == 0 {
                        } else {
                            lemma_non_directory_component(
                                fs,
                                f,
                                path.subrange(idx + 1, path.len() as int),
                            );
                        }
                    },
                }
            }
        },
    }
}

/// Whether the directory chain at byte offset `off` lists `f` for query
/// `name` within `fuel` chain steps: some readable cluster along the chain
/// holds a first matching live entry that populates to `f`, and every
/// earlier cluster scans clean and names a successor.
pub open spec fn spec_dir_lists<D: BlockDevice>(
    fs: FATFilesystem<D>,
    off: int,
    name: Seq<u8>,
    f: FATFile,
    fuel: nat,
) -> bool
    decreases fuel,
{
    &&& off > 0
    &&& fuel > 0
    &&& match fs.spec_block_read(off, fs.cluster_size as int) {
        Result::Err(_) => false,
        Result::Ok(buf) => match fs.spec_scan_cluster(
            buf,
            name,
            0,
            fs.cluster_size as int / 32,
        ) {
            Some(g) => g == f,
            None => match fs.spec_next_cluster(off) {
                Result::Ok(Some(nx)) => spec_dir_lists(fs, nx as int, name, f, (fuel - 1) as nat),
                _ => false,
            },
        },
    }
}

/// Lookup-completeness law, for a whole directory: a file listed anywhere
/// along the directory's cluster chain is exactly what the chain scan
/// returns. Together with `find_file`'s contract and `lemma_find_file_step`
/// this traces every listed entry of a mounted image to a `find_file`
/// success.
pub proof fn lemma_dir_lists_found<D: BlockDevice>(
    fs: FATFilesystem<D>,
    off: int,
    name: Seq<u8>,
    f: FATFile,
    fuel: nat,
)
    requires
        spec_dir_lists(fs, off, name, f, fuel),
    ensures
        fs.spec_scan_chain(off, name, fuel) == Result::<Option<FATFile>, ErrorCode>::Ok(Some(f)),
    decreases fuel,
{
    match fs.spec_block_read(off, fs.cluster_size as int) {
        Result::Err(_) => {},
        Result::Ok(buf) => {
            match fs.spec_scan_cluster(buf, name, 0, fs.cluster_size as int / 32) {
                Some(_) => {},
                None => {
                    match fs.spec_next_cluster(off) {
                        Result::Ok(Some(nx)) => {
                            lemma_dir_lists_found(fs, nx as int, name, f, (fuel - 1) as nat);
                        },
                        _ => {},
                    }
                },
            }
        },
    }
}

/// `spec_skip_spaces` lands just past a run of spaces.
proof fn lemma_skip_spaces_run(fat: Seq<u8>, i: int, j: int)
    requires
        fat.len() == 11,
        0 <= i <= j <= 11,
        forall|k: int| i <= k < j ==> fat[k] == 32,
        j == 11 || fat[j] != 32,
    ensures
        spec_skip_spaces(fat, i) == j,
    decreases j - i,
{
    if i < j {
        lemma_skip_spaces_run(fat, i + 1, j);
    }
}

/// Matching consumes a literal dot-free segment byte for byte.
proof fn lemma_match_literal(fat: Seq<u8>, q: Seq<u8>, ridx: int, fidx: int, k: int)
    requires
        fat.len() == 11,
        0 <= k,
        0 <= ridx && ridx + k <= q.len(),
        0 <= fidx && fidx + k <= 11,
        forall|t: int| 0 <= t < k ==> q[ridx + t] == fat[fidx + t] && #[trigger] q[ridx + t] != 46,
    ensures
        spec_name_matches_at(fat, q, ridx, fidx) == spec_name_matches_at(
            fat,
            q,
            ridx + k,
            fidx + k,
        ),
    decreases k,
{
    if k > 0 {
        assert(q[ridx + 0] == fat[fidx + 0] && q[ridx + 0] != 46);
        assert forall|t: int| 0 <= t < k - 1 implies q[(ridx + 1) + t] == fat[(fidx + 1) + t]
            && #[trigger] q[(ridx + 1) + t] != 46 by {
            assert(q[ridx + (t + 1)] == fat[fidx + (t + 1)] && q[ridx + (t + 1)] != 46);
        }
        lemma_match_literal(fat, q, ridx + 1, fidx + 1, k - 1);
    }
}

/// The canonical dotted form of an 8.3 name with a `bl`-byte base and an
/// `el`-byte extension: the base, then a dot and the extension when the
/// extension is nonempty.
pub open spec fn spec_canonical_name(fat: Seq<u8>, bl: int, el: int) -> Seq<u8> {
    if el > 0 {
        fat.subrange(0, bl) + seq![46u8] + fat.subrange(8, 8 + el)
    } else {
        fat.subrange(0, bl)
    }
}

/// Canonical-name law: every well-formed 8.3 name (a nonempty base padded
/// with spaces to 8 bytes, an extension padded to 3, neither containing
/// spaces or dots) is matched by its own canonical dotted form. With the
/// chain-completeness laws this gives, for each entry listed in an image, a
/// query under which the lookup succeeds.
pub proof fn lemma_canonical_name_matches(fat: Seq<u8>, bl: int, el: int)
    requires
        fat.len() == 11,
        1 <= bl <= 8,
        0 <= el <= 3,
        forall|i: int| 0 <= i < bl ==> fat[i] != 32 && #[trigger] fat[i] != 46,
        forall|i: int| bl <= i < 8 ==> fat[i] == 32,
        forall|i: int| 8 <= i < 8 + el ==> fat[i] != 32 && #[trigger] fat[i] != 46,
        forall|i: int| 8 + el <= i < 11 ==> fat[i] == 32,
    ensures
        spec_name_matches(fat, spec_canonical_name(fat, bl, el)),
{
    let q = spec_canonical_name(fat, bl, el);
    if el > 0 {
        assert forall|t: int| 0 <= t < bl implies q[0 + t] == fat[0 + t] && #[trigger] q[0 + t]
            != 46 by {}
        lemma_match_literal(fat, q, 0, 0, bl);
        assert(q[bl] == 46);
        lemma_skip_spaces_run(fat, bl, 8);
        assert(spec_name_matches_at(fat, q, bl, bl) == spec_name_matches_at(fat, q, bl + 1, 8));
        assert forall|t: int| 0 <= t < el implies q[bl + 1 + t] == fat[8 + t] && #[trigger] q[bl
            + 1 + t] != 46 by {
            assert(q[bl + 1 + t] == fat.subrange(8, 8 + el)[t]);
        }
        lemma_match_literal(fat, q, bl + 1, 8, el);
        assert(spec_name_matches_at(fat, q, bl + 1 + el, 8 + el) == spec_all_spaces(
            fat,
            8 + el,
        ));
    } else {
        assert forall|t: int| 0 <= t < bl implies q[0 + t] == fat[0 + t] && #[trigger] q[0 + t]
            != 46 by {}
        lemma_match_literal(fat, q, 0, 0, bl);
        assert(spec_name_matches_at(fat, q, bl, bl) == spec_all_spaces(fat, bl));
        assert(spec_all_spaces(fat, bl));
    }
}

/// Whether `path`, split on `/`, is listed along a walk from `dir`: every
/// non-terminal component (at most 11 bytes) is listed in its directory's
/// chain as a directory, and the terminal component is listed as `f`.
pub open spec fn spec_path_lists<D: BlockDevice>(
    fs: FATFilesystem<D>,
    dir: FATFile,
    path: Seq<u8>,
    f: FATFile,
) -> bool
    decreases path.len(),
{
    match spec_find_byte(path, 0, 47) {
        None => path.len() <= 11 && spec_dir_lists(
            fs,
            dir.first_cluster as int,
            path,
            f,
            fs.spec_scan_fuel(),
        ),
        Some(idx) => 0 <= idx < path.len() && idx <= 11 && exists|g: FATFile|
            {
                &&& #[trigger] spec_dir_lists(
                    fs,
                    dir.first_cluster as int,
                    path.subrange(0, idx),
                    g,
                    fs.spec_scan_fuel(),
                )
                &&& (g.attr / 2) % 2 == 1
                &&& spec_path_lists(fs, g, path.subrange(idx + 1, path.len() as int), f)
            },
    }
}

/// Path-level lookup-completeness law: a path listed along a walk from
/// `dir` — each intermediate component a directory — resolves to exactly
/// its terminal file. With `init`'s mount equations this covers every
/// directory entry of a mounted image under the path that lists it.
pub proof fn lemma_path_lists_found<D: BlockDevice>(
    fs: FATFilesystem<D>,
    dir: FATFile,
    path: Seq<u8>,
    f: FATFile,
)
    requires
        spec_path_lists(fs, dir, path, f),
    ensures
        fs.spec_find_file(dir, path) == Result::<FATFile, ErrorCode>::Ok(f),
    decreases path.len(),
{
    reveal(FATFilesystem::spec_find_file);
    match spec_find_byte(path, 0, 47) {
        None => {
            lemma_dir_lists_found(fs, dir.first_cluster as int, path, f, fs.spec_scan_fuel());
        },
        Some(idx) => {
            let g = choose|g: FATFile|
                {
                    &&& #[trigger] spec_dir_lists(
                        fs,
                        dir.first_cluster as int,
                        path.subrange(0, idx),
                        g,
                        fs.spec_scan_fuel(),
                    )
                    &&& (g.attr / 2) % 2 == 1
                    &&& spec_path_lists(fs, g, path.subrange(idx + 1, path.len() as int), f)
                };
            lemma_dir_lists_found(
                fs,
                dir.first_cluster as int,
                path.subrange(0, idx),
                g,
                fs.spec_scan_fuel(),
            );
            lemma_path_lists_found(fs, g, path.subrange(idx + 1, path.len() as int), f);
        },
    }
}

} // verus!
