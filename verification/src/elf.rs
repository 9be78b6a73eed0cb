//! ELF32 executable loader: header validation, program-header
//! interpretation, and placement of `PT_LOAD` segments into physical memory
//! above 1 MiB.

use vstd::prelude::*;

use crate::block::BlockDevice;
use crate::bytes::{le16, le32, read_le16, read_le32};
use crate::config::Config;
use crate::errors::ErrorCode;
use crate::fat::{FATFile, FATFilesystem};
use crate::mem::{spec_store, PhysMemory};
use vstd::arithmetic::mul::lemma_mul_upper_bound;

verus! {

/// The 32-bit ELF magic, little-endian: 0x7F 'E' 'L' 'F'.
pub const ELF_IDENT: u32 = 0x464c457f;

/// Identification byte of a 32-bit ELF image.
pub const ELF_CLASS_32: u8 = 1;

/// Identification byte of a little-endian ELF image.
pub const ELF_DATA_LE: u8 = 1;

/// Machine word of an i386 image.
pub const ELF_MACHINE_X86: u16 = 3;

/// Type word of an executable image.
pub const ELF_TYPE_EXEC: u16 = 2;

/// Program-header type of a loadable segment.
pub const ELF_PT_LOAD: u32 = 1;

/// Lowest address an entry point or loadable segment may use.
pub const ELF_MIN_ADDR: u32 = 0x100000;

/// Size in bytes of blocks to read from the file while loading a segment.
pub const BLOCK_READ_SZ: u32 = 1024;

/// The parsed 52-byte ELF32 header.
#[derive(Clone, Copy, Debug, PartialEq, Eq, Structural)]
pub struct ElfHeader {
    pub magic: u32,
    pub class: u8,
    pub data: u8,
    pub ident_version: u8,
    pub osabi: u8,
    pub abiversion: u8,
    pub etype: u16,
    pub machine: u16,
    pub version: u32,
    pub entry: u32,
    pub phoff: u32,
    pub shoff: u32,
    pub flags: u32,
    pub ehsize: u16,
    pub phentsize: u16,
    pub phnum: u16,
    pub shentsize: u16,
    pub shnum: u16,
    pub shstrndx: u16,
}

/// One parsed 32-byte ELF32 program header.
#[derive(Clone, Copy, Debug, PartialEq, Eq, Structural)]
pub struct Elf32ProgramHeader {
    pub htype: u32,
    pub offset: u32,
    pub vaddr: u32,
    pub paddr: u32,
    pub filesz: u32,
    pub memsz: u32,
    pub flags: u32,
    pub align: u32,
}

/// The parse of the first 52 bytes of an ELF32 image.
pub open spec fn spec_parse_ehdr(b: Seq<u8>) -> ElfHeader {
    ElfHeader {
        magic: le32(b, 0) as u32,
        class: b[4],
        data: b[5],
        ident_version: b[6],
        osabi: b[7],
        abiversion: b[8],
        etype: le16(b, 16) as u16,
        machine: le16(b, 18) as u16,
        version: le32(b, 20) as u32,
        entry: le32(b, 24) as u32,
        phoff: le32(b, 28) as u32,
        shoff: le32(b, 32) as u32,
        flags: le32(b, 36) as u32,
        ehsize: le16(b, 40) as u16,
        phentsize: le16(b, 42) as u16,
        phnum: le16(b, 44) as u16,
        shentsize: le16(b, 46) as u16,
        shnum: le16(b, 48) as u16,
        shstrndx: le16(b, 50) as u16,
    }
}

/// Parse the 52-byte ELF32 header.
pub fn parse_ehdr(b: &Vec<u8>) -> (r: ElfHeader)
    requires
        b@.len() >= 52,
    ensures
        r == spec_parse_ehdr(b@),
{
    ElfHeader {
        magic: read_le32(b, 0),
        class: b[4],
        data: b[5],
        ident_version: b[6],
        osabi: b[7],
        abiversion: b[8],
        etype: read_le16(b, 16),
        machine: read_le16(b, 18),
        version: read_le32(b, 20),
        entry: read_le32(b, 24),
        phoff: read_le32(b, 28),
        shoff: read_le32(b, 32),
        flags: read_le32(b, 36),
        ehsize: read_le16(b, 40),
        phentsize: read_le16(b, 42),
        phnum: read_le16(b, 44),
        shentsize: read_le16(b, 46),
        shnum: read_le16(b, 48),
        shstrndx: read_le16(b, 50),
    }
}

/// The parse of one 32-byte program-header record.
pub open spec fn spec_parse_phdr(b: Seq<u8>) -> Elf32ProgramHeader {
    Elf32ProgramHeader {
        htype: le32(b, 0) as u32,
        offset: le32(b, 4) as u32,
        vaddr: le32(b, 8) as u32,
        paddr: le32(b, 12) as u32,
        filesz: le32(b, 16) as u32,
        memsz: le32(b, 20) as u32,
        flags: le32(b, 24) as u32,
        align: le32(b, 28) as u32,
    }
}

/// Parse the 32-byte program header at offset `base` of `b`.
pub fn parse_phdr(b: &Vec<u8>, base: usize) -> (r: Elf32ProgramHeader)
    requires
        base + 32 <= b@.len(),
        base + 32 <= usize::MAX,
    ensures
        r == spec_parse_phdr(b@.subrange(base as int, base + 32)),
{
    let r = Elf32ProgramHeader {
        htype: read_le32(b, base),
        offset: read_le32(b, base + 4),
        vaddr: read_le32(b, base + 8),
        paddr: read_le32(b, base + 12),
        filesz: read_le32(b, base + 16),
        memsz: read_le32(b, base + 20),
        flags: read_le32(b, base + 24),
        align: read_le32(b, base + 28),
    };
    proof {
        let ent = b@.subrange(base as int, base + 32);
        assert(le32(ent, 0) == le32(b@, base as int));
        assert(le32(ent, 4) == le32(b@, base + 4));
        assert(le32(ent, 8) == le32(b@, base + 8));
        assert(le32(ent, 12) == le32(b@, base + 12));
        assert(le32(ent, 16) == le32(b@, base + 16));
        assert(le32(ent, 20) == le32(b@, base + 20));
        assert(le32(ent, 24) == le32(b@, base + 24));
        assert(le32(ent, 28) == le32(b@, base + 28));
    }
    r
}

/// Whether every loadable segment lies at or above 1 MiB.
pub open spec fn spec_phdrs_ok(phdrs: Seq<Elf32ProgramHeader>) -> bool {
    forall|k: int|
        0 <= k < phdrs.len() && (#[trigger] phdrs[k]).htype == ELF_PT_LOAD ==> phdrs[k].vaddr
            >= ELF_MIN_ADDR
}

/// Result of testing an executable image against a format.
#[derive(Debug, PartialEq, Eq, Structural)]
pub enum ExecFmtTestResult {
    /// The executable is almost definitely of this type.
    Yes,
    /// The executable is definitely not of this type.
    No,
    /// The executable could be of this type.
    Maybe,
}

/// The ELF32 executable format: holds the parsed header and program headers
/// between `prepare` and `load`, and the union of the loaded data range.
pub struct ExecFmtELF {
    pub ehdr: Option<ElfHeader>,
    pub phdr: Vec<Elf32ProgramHeader>,
    pub data_begin: u32,
    pub data_end: u32,
}

impl ExecFmtELF {
    /// An ELF loader with nothing prepared yet.
    pub fn new() -> (r: ExecFmtELF)
        ensures
            r.ehdr is None,
            r.phdr@ == Seq::<Elf32ProgramHeader>::empty(),
            r.data_begin == u32::MAX,
            r.data_end == 0,
    {
        let r = ExecFmtELF { ehdr: None, phdr: Vec::new(), data_begin: u32::MAX, data_end: 0 };
        proof {
            assert(r.phdr@ =~= Seq::<Elf32ProgramHeader>::empty());
        }
        r
    }

    /// Test if an executable is of this type, from its initial chunk: the
    /// first four bytes must hold the ELF magic.
    pub fn test(chunk: &Vec<u8>) -> (r: ExecFmtTestResult)
        requires
            chunk@.len() >= 4,
        ensures
            r == (if le32(chunk@, 0) == ELF_IDENT {
                ExecFmtTestResult::Yes
            } else {
                ExecFmtTestResult::No
            }),
    {
        if read_le32(chunk, 0) == ELF_IDENT {
            ExecFmtTestResult::Yes
        } else {
            ExecFmtTestResult::No
        }
    }

    /// Check that the program headers are compatible with this loader's
    /// constraints: no loadable segment below 1 MiB.
    pub fn check_phdr(&self) -> (r: bool)
        ensures
            r == spec_phdrs_ok(self.phdr@),
    {
        let n = self.phdr.len();
        let mut k: usize = 0;
        while k < n
            invariant
                n == self.phdr@.len(),
                k <= n,
                forall|q: int|
                    0 <= q < k && (#[trigger] self.phdr@[q]).htype == ELF_PT_LOAD
                        ==> self.phdr@[q].vaddr >= ELF_MIN_ADDR,
            decreases n - k,
        {
            let ph = self.phdr[k];
            if ph.htype == ELF_PT_LOAD {
                if ph.vaddr < ELF_MIN_ADDR {
                    return false;
                }
            }
            k = k + 1;
        }
        true
    }

    /// The entry point recorded by `prepare`, if any.
    pub fn get_entrypoint(&self) -> (r: Option<usize>)
        ensures
            r == (match self.ehdr {
                Some(h) => Some(h.entry as usize),
                None => None,
            }),
    {
        match self.ehdr {
            Some(ehdr) => Some(ehdr.entry as usize),
            None => None,
        }
    }
}

/// The outcome of reading and validating the 52-byte ELF header of `file`:
/// the image must be 32-bit, little-endian, i386, an executable entered at
/// or above 1 MiB, with program-header entries of at least 32 bytes.
pub open spec fn spec_prep_hdr<D: BlockDevice>(fs: FATFilesystem<D>, f: FATFile) -> Result<
    ElfHeader,
    ErrorCode,
> {
    match fs.spec_read_file(f, 0, 52) {
        Result::Err(e) => Result::Err(e),
        Result::Ok(b) => {
            let h = spec_parse_ehdr(b);
            if h.class != ELF_CLASS_32 || h.data != ELF_DATA_LE || h.machine != ELF_MACHINE_X86 {
                Result::Err(ErrorCode::UnsupportedExecOptions)
            } else if h.etype != ELF_TYPE_EXEC {
                Result::Err(ErrorCode::UnsupportedExecOptions)
            } else if h.entry < ELF_MIN_ADDR {
                Result::Err(ErrorCode::UnsupportedExecOptions)
            } else if h.phentsize < 32 {
                Result::Err(ErrorCode::UnsupportedExecOptions)
            } else {
                Result::Ok(h)
            }
        },
    }
}

/// The outcome of reading and validating the program-header table named by
/// header `h`: every loadable segment must lie at or above 1 MiB.
pub open spec fn spec_prep_phdrs<D: BlockDevice>(
    fs: FATFilesystem<D>,
    f: FATFile,
    h: ElfHeader,
) -> Result<Seq<Elf32ProgramHeader>, ErrorCode> {
    match fs.spec_read_file(f, h.phoff as int, h.phentsize * h.phnum) {
        Result::Err(e) => Result::Err(e),
        Result::Ok(pb) => {
            let phdrs = Seq::new(
                h.phnum as nat,
                |i: int| spec_parse_phdr(pb.subrange(i * h.phentsize, i * h.phentsize + 32)),
            );
            if !spec_phdrs_ok(phdrs) {
                Result::Err(ErrorCode::UnsupportedExecOptions)
            } else {
                Result::Ok(phdrs)
            }
        },
    }
}

/// The outcome of preparing the ELF in `file`: the validated header and
/// program headers.
pub open spec fn spec_elf_prepare<D: BlockDevice>(fs: FATFilesystem<D>, f: FATFile) -> Result<
    (ElfHeader, Seq<Elf32ProgramHeader>),
    ErrorCode,
> {
    match spec_prep_hdr(fs, f) {
        Result::Err(e) => Result::Err(e),
        Result::Ok(h) => match spec_prep_phdrs(fs, f, h) {
            Result::Err(e) => Result::Err(e),
            Result::Ok(phdrs) => Result::Ok((h, phdrs)),
        },
    }
}

impl ExecFmtELF {
    /// Read and validate the ELF header of `file`, recording it.
    #[verifier::spinoff_prover]
    fn prepare_header<D: BlockDevice>(
        &mut self,
        fs: &mut FATFilesystem<D>,
        file: &FATFile,
    ) -> (r: Result<ElfHeader, ErrorCode>)
        requires
            old(fs).wf(),
        ensures
            final(fs).wf(),
            final(fs).same_fs(*old(fs)),
            final(self).phdr == old(self).phdr,
            final(self).data_begin == old(self).data_begin,
            final(self).data_end == old(self).data_end,
            r matches Ok(h) ==> spec_prep_hdr(*old(fs), *file) == Result::<
                ElfHeader,
                ErrorCode,
            >::Ok(h) && final(self).ehdr == Some(h),
            old(fs).block.spec_reliable() ==> (match r {
                Ok(h) => spec_prep_hdr(*old(fs), *file) == Result::<ElfHeader, ErrorCode>::Ok(h),
                Err(e) => spec_prep_hdr(*old(fs), *file) == Result::<ElfHeader, ErrorCode>::Err(
                    e,
                ),
            }),
    {
        let hbytes = match fs.read_file(file, 0, 52) {
            Ok(data) => data,
            Err(e) => { return Err(e) },
        };
        let ehdr = parse_ehdr(&hbytes);
        self.ehdr = Some(ehdr);

        if (ehdr.class != ELF_CLASS_32) || (ehdr.data != ELF_DATA_LE) || (ehdr.machine
            != ELF_MACHINE_X86) {
            return Err(ErrorCode::UnsupportedExecOptions);
        }
        if ehdr.etype != ELF_TYPE_EXEC {
            return Err(ErrorCode::UnsupportedExecOptions);
        }
        if ehdr.entry < ELF_MIN_ADDR {
            /* No support for an entry point below 1 MiB */
            return Err(ErrorCode::UnsupportedExecOptions);
        }
        if ehdr.phentsize < 32 {
            return Err(ErrorCode::UnsupportedExecOptions);
        }
        Ok(ehdr)
    }

    /// Read, parse and validate the program-header table named by `ehdr`,
    /// recording it.
    #[verifier::rlimit(100)]
    #[verifier::spinoff_prover]
    fn prepare_phdrs<D: BlockDevice>(
        &mut self,
        fs: &mut FATFilesystem<D>,
        file: &FATFile,
        ehdr: ElfHeader,
    ) -> (r: Result<(), ErrorCode>)
        requires
            old(fs).wf(),
            ehdr.phentsize >= 32,
        ensures
            final(fs).wf(),
            final(fs).same_fs(*old(fs)),
            final(self).ehdr == old(self).ehdr,
            final(self).data_begin == old(self).data_begin,
            final(self).data_end == old(self).data_end,
            r is Ok ==> spec_prep_phdrs(*old(fs), *file, ehdr) == Result::<
                Seq<Elf32ProgramHeader>,
                ErrorCode,
            >::Ok(final(self).phdr@),
            old(fs).block.spec_reliable() ==> (match r {
                Ok(p) => spec_prep_phdrs(*old(fs), *file, ehdr) == Result::<
                    Seq<Elf32ProgramHeader>,
                    ErrorCode,
                >::Ok(final(self).phdr@),
                Err(e) => spec_prep_phdrs(*old(fs), *file, ehdr) == Result::<
                    Seq<Elf32ProgramHeader>,
                    ErrorCode,
                >::Err(e),
            }),
    {
        proof {
            lemma_mul_upper_bound(ehdr.phentsize as int, 0xFFFF, ehdr.phnum as int, 0xFFFF);
        }
        let phdr_sz: u32 = ehdr.phentsize as u32 * ehdr.phnum as u32;
        let pbytes = match fs.read_file(file, ehdr.phoff as usize, phdr_sz as usize) {
            Ok(data) => data,
            Err(e) => { return Err(e) },
        };

        let pz: usize = ehdr.phentsize as usize;
        let pn: usize = ehdr.phnum as usize;
        let mut phdr: Vec<Elf32ProgramHeader> = Vec::new();
        let mut i: usize = 0;
        proof {
            assert(pbytes@.len() == pz * pn);
        }
        while i < pn
            invariant
                pz >= 32,
                pbytes@.len() == pz * pn,
                pz * pn <= u32::MAX,
                i <= pn,
                phdr@.len() == i,
                forall|q: int|
                    0 <= q < i ==> #[trigger] phdr@[q] == spec_parse_phdr(
                        pbytes@.subrange(q * (pz as int), q * (pz as int) + 32),
                    ),
            decreases pn - i,
        {
            proof {
                assert((i + 1) * (pz as int) <= pn * (pz as int)) by (nonlinear_arith)
                    requires
                        i < pn,
                        pz >= 32,
                ;
                assert(i * (pz as int) + pz == (i + 1) * (pz as int)) by (nonlinear_arith);
            }
            let base: usize = i * pz;
            phdr.push(parse_phdr(&pbytes, base));
            i = i + 1;
        }
        self.phdr = phdr;
        proof {
            assert(self.phdr@ =~= Seq::new(
                pn as nat,
                |q: int|
                    spec_parse_phdr(pbytes@.subrange(q * (pz as int), q * (pz as int) + 32)),
            ));
        }

        if !self.check_phdr() {
            return Err(ErrorCode::UnsupportedExecOptions);
        }

        Ok(())
    }

    /// Read and validate the ELF header and program-header table of `file`.
    #[verifier::spinoff_prover]
    pub fn prepare<D: BlockDevice>(
        &mut self,
        fs: &mut FATFilesystem<D>,
        file: &FATFile,
        config: &Config,
    ) -> (r: Result<(), ErrorCode>)
        requires
            old(fs).wf(),
        ensures
            final(fs).wf(),
            final(fs).same_fs(*old(fs)),
            final(self).data_begin == old(self).data_begin,
            final(self).data_end == old(self).data_end,
            r is Ok ==> (spec_elf_prepare(*old(fs), *file) matches Ok(hp) && final(self).ehdr
                == Some(hp.0) && final(self).phdr@ == hp.1),
            old(fs).block.spec_reliable() ==> (match r {
                Ok(p) => spec_elf_prepare(*old(fs), *file) matches Ok(hp) && final(self).ehdr
                    == Some(hp.0) && final(self).phdr@ == hp.1,
                Err(e) => spec_elf_prepare(*old(fs), *file) == Result::<
                    (ElfHeader, Seq<Elf32ProgramHeader>),
                    ErrorCode,
                >::Err(e),
            }),
    {
        let ehdr = match self.prepare_header(fs, file) {
            Ok(h) => h,
            Err(e) => { return Err(e) },
        };
        let ghost mid = *fs;
        let r = self.prepare_phdrs(fs, file, ehdr);
        proof {
            lemma_cong_prep_phdrs(mid, *old(fs), *file, ehdr);
        }
        match r {
            Ok(p) => Ok(()),
            Err(e) => Err(e),
        }
    }
}

/// Congruence of the program-header preparation outcome across cache-only
/// filesystem changes.
pub proof fn lemma_cong_prep_phdrs<D: BlockDevice>(
    a: FATFilesystem<D>,
    b: FATFilesystem<D>,
    f: FATFile,
    h: ElfHeader,
)
    requires
        a.same_fs(b),
    ensures
        spec_prep_phdrs(a, f, h) == spec_prep_phdrs(b, f, h),
{
    crate::fat::lemma_cong_read_file(a, b, f, h.phoff as int, h.phentsize * h.phnum);
}

/// The bytes of the segment region of `file`: `remaining` bytes from file
/// offset `off`, read in blocks of up to 1024 bytes.
pub open spec fn spec_seg_content<D: BlockDevice>(
    fs: FATFilesystem<D>,
    f: FATFile,
    off: int,
    remaining: int,
) -> Result<Seq<u8>, ErrorCode>
    decreases remaining,
{
    if remaining <= 0 {
        Result::Ok(Seq::empty())
    } else {
        let step = if remaining < 1024 {
            remaining
        } else {
            1024
        };
        match fs.spec_read_file(f, off, step) {
            Result::Err(e) => Result::Err(e),
            Result::Ok(c) => match spec_seg_content(fs, f, off + step, remaining - step) {
                Result::Err(e) => Result::Err(e),
                Result::Ok(rest) => Result::Ok(c + rest),
            },
        }
    }
}

/// The effect of loading one program header on the state
/// `(memory bytes, data_begin, data_end)`: non-loadable segments change
/// nothing; a loadable segment extends the data range to cover it, copies
/// `filesz` file bytes to its physical address and zeroes the remaining
/// `memsz - filesz` bytes. Segments that overflow the 32-bit address space
/// or fall outside the memory window are refused.
pub open spec fn spec_load_seg<D: BlockDevice>(
    fs: FATFilesystem<D>,
    f: FATFile,
    ph: Elf32ProgramHeader,
    base: int,
    st: (Seq<u8>, int, int),
) -> Result<(Seq<u8>, int, int), ErrorCode> {
    if ph.htype != ELF_PT_LOAD {
        Result::Ok(st)
    } else if ph.paddr + ph.memsz > u32::MAX {
        Result::Err(ErrorCode::UnsupportedExecOptions)
    } else {
        let nb = if ph.paddr < st.1 {
            ph.paddr as int
        } else {
            st.1
        };
        let ne = if ph.paddr + ph.memsz > st.2 {
            ph.paddr + ph.memsz
        } else {
            st.2
        };
        if ph.offset + ph.filesz > u32::MAX {
            Result::Err(ErrorCode::OutOfBounds)
        } else if !(base <= ph.paddr && ph.paddr + ph.filesz <= base + st.0.len()) {
            Result::Err(ErrorCode::OutOfBounds)
        } else {
            match spec_seg_content(fs, f, ph.offset as int, ph.filesz as int) {
                Result::Err(e) => Result::Err(e),
                Result::Ok(content) => {
                    let m1 = spec_store(st.0, ph.paddr - base, content);
                    if ph.memsz > ph.filesz {
                        if !(ph.paddr + ph.memsz <= base + m1.len()) {
                            Result::Err(ErrorCode::OutOfBounds)
                        } else {
                            Result::Ok(
                                (
                                    spec_store(
                                        m1,
                                        ph.paddr + ph.filesz - base,
                                        Seq::new((ph.memsz - ph.filesz) as nat, |i: int| 0u8),
                                    ),
                                    nb,
                                    ne,
                                ),
                            )
                        }
                    } else {
                        Result::Ok((m1, nb, ne))
                    }
                },
            }
        }
    }
}

/// The effect of loading the program headers from index `i` on.
pub open spec fn spec_load_segs<D: BlockDevice>(
    fs: FATFilesystem<D>,
    f: FATFile,
    phdrs: Seq<Elf32ProgramHeader>,
    i: int,
    base: int,
    st: (Seq<u8>, int, int),
) -> Result<(Seq<u8>, int, int), ErrorCode>
    decreases phdrs.len() - i,
{
    if i < 0 || i >= phdrs.len() {
        Result::Ok(st)
    } else {
        match spec_load_seg(fs, f, phdrs[i], base, st) {
            Result::Err(e) => Result::Err(e),
            Result::Ok(st2) => spec_load_segs(fs, f, phdrs, i + 1, base, st2),
        }
    }
}

/// Read the `remaining` bytes of a segment from file offset `off`, in
/// blocks of up to 1024 bytes.
#[verifier::rlimit(100)]
#[verifier::spinoff_prover]
fn read_seg_content<D: BlockDevice>(
    fs: &mut FATFilesystem<D>,
    file: &FATFile,
    off: u32,
    remaining: u32,
) -> (r: Result<Vec<u8>, ErrorCode>)
    requires
        old(fs).wf(),
        off + remaining <= u32::MAX,
    ensures
        final(fs).wf(),
        final(fs).same_fs(*old(fs)),
        r matches Ok(v) ==> v@.len() == remaining && spec_seg_content(
            *old(fs),
            *file,
            off as int,
            remaining as int,
        ) == Result::<Seq<u8>, ErrorCode>::Ok(v@),
        old(fs).block.spec_reliable() ==> (match r {
            Ok(v) => spec_seg_content(*old(fs), *file, off as int, remaining as int)
                == Result::<Seq<u8>, ErrorCode>::Ok(v@),
            Err(e) => spec_seg_content(*old(fs), *file, off as int, remaining as int)
                == Result::<Seq<u8>, ErrorCode>::Err(e),
        }),
{
    let mut content: Vec<u8> = Vec::new();
    let mut pos: u32 = 0;
    while pos < remaining
        invariant
            fs.wf(),
            fs.same_fs(*old(fs)),
            off + remaining <= u32::MAX,
            pos <= remaining,
            content@.len() == pos,
            spec_seg_content(*old(fs), *file, off as int, remaining as int) == (match
                spec_seg_content(*old(fs), *file, off + pos, remaining - pos) {
                Result::Ok(rest) => Result::<Seq<u8>, ErrorCode>::Ok(content@ + rest),
                Result::Err(e) => Result::<Seq<u8>, ErrorCode>::Err(e),
            }),
        decreases remaining - pos,
    {
        let left: u32 = remaining - pos;
        let step: u32 = if left < BLOCK_READ_SZ {
            left
        } else {
            BLOCK_READ_SZ
        };
        let ghost pre = *fs;
        match fs.read_file(file, (off + pos) as usize, step as usize) {
            Ok(mut data) => {
                proof {
                    crate::fat::lemma_cong_read_file(
                        pre,
                        *old(fs),
                        *file,
                        off + pos,
                        step as int,
                    );
                    match spec_seg_content(
                        *old(fs),
                        *file,
                        off + pos + step,
                        remaining - pos - step,
                    ) {
                        Result::Ok(rest) => {
                            assert((content@ + data@) + rest =~= content@ + (data@ + rest));
                        },
                        Result::Err(_) => {},
                    }
                }
                content.append(&mut data);
                pos = pos + step;
            },
            Err(e) => {
                proof {
                    crate::fat::lemma_cong_read_file(
                        pre,
                        *old(fs),
                        *file,
                        off + pos,
                        step as int,
                    );
                }
                return Err(e);
            },
        }
    }
    proof {
        assert(content@ + Seq::<u8>::empty() =~= content@);
    }
    Ok(content)
}

/// Congruence of the segment-content read across cache-only filesystem
/// changes.
proof fn lemma_cong_seg_content<D: BlockDevice>(
    a: FATFilesystem<D>,
    b: FATFilesystem<D>,
    f: FATFile,
    off: int,
    remaining: int,
)
    requires
        a.same_fs(b),
    ensures
        spec_seg_content(a, f, off, remaining) == spec_seg_content(b, f, off, remaining),
    decreases remaining,
{
    if remaining <= 0 {
    } else {
        let step = if remaining < 1024 {
            remaining
        } else {
            1024
        };
        crate::fat::lemma_cong_read_file(a, b, f, off, step);
        lemma_cong_seg_content(a, b, f, off + step, remaining - step);
    }
}

/// Congruence of the one-segment load effect across cache-only filesystem
/// changes.
proof fn lemma_cong_load_seg<D: BlockDevice>(
    a: FATFilesystem<D>,
    b: FATFilesystem<D>,
    f: FATFile,
    ph: Elf32ProgramHeader,
    base: int,
    st: (Seq<u8>, int, int),
)
    requires
        a.same_fs(b),
    ensures
        spec_load_seg(a, f, ph, base, st) == spec_load_seg(b, f, ph, base, st),
{
    lemma_cong_seg_content(a, b, f, ph.offset as int, ph.filesz as int);
}

/// Congruence of the whole prepare outcome across cache-only filesystem
/// changes.
pub proof fn lemma_cong_elf_prepare<D: BlockDevice>(
    a: FATFilesystem<D>,
    b: FATFilesystem<D>,
    f: FATFile,
)
    requires
        a.same_fs(b),
    ensures
        spec_elf_prepare(a, f) == spec_elf_prepare(b, f),
{
    crate::fat::lemma_cong_read_file(a, b, f, 0, 52);
    match a.spec_read_file(f, 0, 52) {
        Result::Err(_) => {},
        Result::Ok(hb) => {
            lemma_cong_prep_phdrs(a, b, f, spec_parse_ehdr(hb));
        },
    }
}

/// Congruence of the segment-fold outcome across cache-only filesystem
/// changes.
pub proof fn lemma_cong_load_segs<D: BlockDevice>(
    a: FATFilesystem<D>,
    b: FATFilesystem<D>,
    f: FATFile,
    phdrs: Seq<Elf32ProgramHeader>,
    i: int,
    base: int,
    st: (Seq<u8>, int, int),
)
    requires
        a.same_fs(b),
    ensures
        spec_load_segs(a, f, phdrs, i, base, st) == spec_load_segs(b, f, phdrs, i, base, st),
    decreases phdrs.len() - i,
{
    if i < 0 || i >= phdrs.len() {
    } else {
        lemma_cong_load_seg(a, b, f, phdrs[i], base, st);
        match spec_load_seg(a, f, phdrs[i], base, st) {
            Result::Err(_) => {},
            Result::Ok(st2) => {
                lemma_cong_load_segs(a, b, f, phdrs, i + 1, base, st2);
            },
        }
    }
}

impl ExecFmtELF {
    /// Load the prepared program headers: copy each loadable segment's file
    /// bytes to its physical address in `mem` and zero its remaining
    /// in-memory size, extending the recorded data range. On failure `mem`
    /// may hold the partial work of earlier segments.
    #[verifier::rlimit(100)]
    #[verifier::spinoff_prover]
    pub fn load<D: BlockDevice>(
        &mut self,
        fs: &mut FATFilesystem<D>,
        file: &FATFile,
        config: &Config,
        mem: &mut PhysMemory,
    ) -> (r: Result<(), ErrorCode>)
        requires
            old(fs).wf(),
        ensures
            final(fs).wf(),
            final(fs).same_fs(*old(fs)),
            final(self).ehdr == old(self).ehdr,
            final(self).phdr == old(self).phdr,
            final(mem).base == old(mem).base,
            r is Ok ==> spec_load_segs(
                *old(fs),
                *file,
                old(self).phdr@,
                0,
                old(mem).base as int,
                (old(mem).data@, old(self).data_begin as int, old(self).data_end as int),
            ) == Result::<(Seq<u8>, int, int), ErrorCode>::Ok(
                (final(mem).data@, final(self).data_begin as int, final(self).data_end as int),
            ),
            old(fs).block.spec_reliable() ==> (r matches Err(e) ==> spec_load_segs(
                *old(fs),
                *file,
                old(self).phdr@,
                0,
                old(mem).base as int,
                (old(mem).data@, old(self).data_begin as int, old(self).data_end as int),
            ) == Result::<(Seq<u8>, int, int), ErrorCode>::Err(e)),
    {
        let n = self.phdr.len();
        let mut p: usize = 0;
        while p < n
            invariant
                fs.wf(),
                fs.same_fs(*old(fs)),
                self.ehdr == old(self).ehdr,
                self.phdr == old(self).phdr,
                mem.base == old(mem).base,
                n == self.phdr@.len(),
                p <= n,
                spec_load_segs(
                    *old(fs),
                    *file,
                    old(self).phdr@,
                    0,
                    old(mem).base as int,
                    (old(mem).data@, old(self).data_begin as int, old(self).data_end as int),
                ) == spec_load_segs(
                    *old(fs),
                    *file,
                    old(self).phdr@,
                    p as int,
                    old(mem).base as int,
                    (mem.data@, self.data_begin as int, self.data_end as int),
                ),
            decreases n - p,
        {
            let ph = self.phdr[p];
            let ghost st0 = (mem.data@, self.data_begin as int, self.data_end as int);
            if ph.htype == ELF_PT_LOAD {
                if ph.paddr as u64 + ph.memsz as u64 > u32::MAX as u64 {
                    return Err(ErrorCode::UnsupportedExecOptions);
                }
                if ph.paddr < self.data_begin {
                    self.data_begin = ph.paddr;
                }
                if ph.paddr + ph.memsz > self.data_end {
                    self.data_end = ph.paddr + ph.memsz;
                }
                if ph.offset as u64 + ph.filesz as u64 > u32::MAX as u64 {
                    return Err(ErrorCode::OutOfBounds);
                }
                if !(mem.contains(ph.paddr, ph.filesz)) {
                    return Err(ErrorCode::OutOfBounds);
                }
                let ghost pre = *fs;
                let content = match read_seg_content(fs, file, ph.offset, ph.filesz) {
                    Ok(c) => c,
                    Err(e) => {
                        proof {
                            lemma_cong_seg_content(
                                pre,
                                *old(fs),
                                *file,
                                ph.offset as int,
                                ph.filesz as int,
                            );
                        }
                        return Err(e);
                    },
                };
                proof {
                    lemma_cong_seg_content(
                        pre,
                        *old(fs),
                        *file,
                        ph.offset as int,
                        ph.filesz as int,
                    );
                }
                let clen = content.len();
                mem.write_bytes(ph.paddr, &content, 0, clen);
                proof {
                    assert(content@.subrange(0, clen as int) =~= content@);
                }
                if ph.memsz > ph.filesz {
                    if !(mem.contains(ph.paddr + ph.filesz, ph.memsz - ph.filesz)) {
                        return Err(ErrorCode::OutOfBounds);
                    }
                    mem.zero_range(ph.paddr + ph.filesz, ph.memsz - ph.filesz);
                }
            }
            p = p + 1;
        }
        Ok(())
    }
}

} // verus!
