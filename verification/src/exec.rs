//! Executable-file handling: format detection from the initial chunk, and
//! the prepare/load interface over a file on the filesystem.

use vstd::prelude::*;

use crate::block::BlockDevice;
use crate::bytes::le32;
use crate::config::Config;
use crate::elf::{spec_elf_prepare, Elf32ProgramHeader, ExecFmtELF, ExecFmtTestResult, ELF_IDENT};
use crate::errors::ErrorCode;
use crate::fat::{FATFile, FATFilesystem};
use crate::mem::PhysMemory;

verus! {

/// Size of the initial chunk used to detect the executable format.
pub const EXECFMT_INITIAL_CHUNK_SZ: usize = 512;

/// An executable format: validation and placement of an image read from a
/// file. `ExecFmtELF` is the one format this design provides.
pub trait ExecFmt<D: BlockDevice>: Sized {
    /// Read and validate the image's headers.
    fn prepare(&mut self, fs: &mut FATFilesystem<D>, file: &FATFile, config: &Config) -> (r:
        Result<(), ErrorCode>)
        requires
            old(fs).wf(),
        ensures
            final(fs).wf(),
            final(fs).same_fs(*old(fs)),
    ;

    /// Place the image's segments in physical memory.
    fn load(
        &mut self,
        fs: &mut FATFilesystem<D>,
        file: &FATFile,
        config: &Config,
        mem: &mut PhysMemory,
    ) -> (r: Result<(), ErrorCode>)
        requires
            old(fs).wf(),
        ensures
            final(fs).wf(),
            final(fs).same_fs(*old(fs)),
    ;

    /// Get the executable's entry point, once prepared.
    fn get_entrypoint(&self) -> Option<usize>;
}

impl<D: BlockDevice> ExecFmt<D> for ExecFmtELF {
    fn prepare(&mut self, fs: &mut FATFilesystem<D>, file: &FATFile, config: &Config) -> (r:
        Result<(), ErrorCode>) {
        ExecFmtELF::prepare(self, fs, file, config)
    }

    fn load(
        &mut self,
        fs: &mut FATFilesystem<D>,
        file: &FATFile,
        config: &Config,
        mem: &mut PhysMemory,
    ) -> (r: Result<(), ErrorCode>) {
        ExecFmtELF::load(self, fs, file, config, mem)
    }

    fn get_entrypoint(&self) -> Option<usize> {
        ExecFmtELF::get_entrypoint(self)
    }
}

/// Find the executable format matching an initial chunk: only ELF is
/// known, detected by its magic.
pub fn find_exec_fmt(chunk: &Vec<u8>) -> (r: Result<ExecFmtELF, ErrorCode>)
    requires
        chunk@.len() >= 4,
    ensures
        le32(chunk@, 0) == ELF_IDENT ==> (r matches Ok(f) && f.ehdr is None && f.phdr@
            == Seq::<crate::elf::Elf32ProgramHeader>::empty() && f.data_begin == u32::MAX
            && f.data_end == 0),
        le32(chunk@, 0) != ELF_IDENT ==> r == Result::<ExecFmtELF, ErrorCode>::Err(
            ErrorCode::UnsupportedExecFmt,
        ),
{
    if ExecFmtELF::test(chunk) == ExecFmtTestResult::Yes {
        return Ok(ExecFmtELF::new());
    }
    Err(ErrorCode::UnsupportedExecFmt)
}

/// The outcome of opening a file as an executable: its initial chunk must
/// be readable and carry a known format's magic.
pub open spec fn spec_exec_open<D: BlockDevice>(fs: FATFilesystem<D>, f: FATFile) -> Result<
    (),
    ErrorCode,
> {
    match fs.spec_read_file(f, 0, 512) {
        Result::Err(e) => Result::Err(e),
        Result::Ok(b) => if le32(b, 0) == ELF_IDENT {
            Result::Ok(())
        } else {
            Result::Err(ErrorCode::UnsupportedExecFmt)
        },
    }
}

/// An open executable: the underlying file and its detected format.
pub struct ExecFile {
    pub file: FATFile,
    pub fmt: ExecFmtELF,
}

impl ExecFile {
    /// Open `file` as an executable, detecting its format from the first
    /// 512 bytes.
    pub fn open<D: BlockDevice>(fs: &mut FATFilesystem<D>, file: FATFile) -> (r: Result<
        ExecFile,
        ErrorCode,
    >)
        requires
            old(fs).wf(),
        ensures
            final(fs).wf(),
            final(fs).same_fs(*old(fs)),
            r matches Ok(x) ==> spec_exec_open(*old(fs), file) == Result::<(), ErrorCode>::Ok(())
                && x.file == file && x.fmt.ehdr is None && x.fmt.phdr@ == Seq::<
                Elf32ProgramHeader,
            >::empty() && x.fmt.data_begin == u32::MAX && x.fmt.data_end == 0,
            old(fs).block.spec_reliable() ==> (match r {
                Ok(x) => spec_exec_open(*old(fs), file) == Result::<(), ErrorCode>::Ok(()),
                Err(e) => spec_exec_open(*old(fs), file) == Result::<(), ErrorCode>::Err(e),
            }),
    {
        let chunk = match fs.read_file(&file, 0, EXECFMT_INITIAL_CHUNK_SZ) {
            Ok(data) => data,
            Err(e) => { return Err(e) },
        };

        match find_exec_fmt(&chunk) {
            Ok(fmt) => Ok(ExecFile { file, fmt }),
            Err(e) => Err(e),
        }
    }

    /// Read and validate the executable's headers.
    pub fn prepare<D: BlockDevice>(&mut self, fs: &mut FATFilesystem<D>, config: &Config) -> (r:
        Result<(), ErrorCode>)
        requires
            old(fs).wf(),
        ensures
            final(fs).wf(),
            final(fs).same_fs(*old(fs)),
            final(self).file == old(self).file,
            final(self).fmt.data_begin == old(self).fmt.data_begin,
            final(self).fmt.data_end == old(self).fmt.data_end,
            r is Ok ==> (spec_elf_prepare(*old(fs), old(self).file) matches Ok(hp)
                && final(self).fmt.ehdr == Some(hp.0) && final(self).fmt.phdr@ == hp.1),
            old(fs).block.spec_reliable() ==> (r matches Err(e) ==> spec_elf_prepare(
                *old(fs),
                old(self).file,
            ) == Result::<
                (crate::elf::ElfHeader, Seq<crate::elf::Elf32ProgramHeader>),
                ErrorCode,
            >::Err(e)),
    {
        let file = self.file;
        self.fmt.prepare(fs, &file, config)
    }

    /// Place the executable's segments in physical memory.
    pub fn load<D: BlockDevice>(
        &mut self,
        fs: &mut FATFilesystem<D>,
        config: &Config,
        mem: &mut PhysMemory,
    ) -> (r: Result<(), ErrorCode>)
        requires
            old(fs).wf(),
        ensures
            final(fs).wf(),
            final(fs).same_fs(*old(fs)),
            final(self).file == old(self).file,
            final(self).fmt.ehdr == old(self).fmt.ehdr,
            final(self).fmt.phdr == old(self).fmt.phdr,
            final(mem).base == old(mem).base,
            r is Ok ==> crate::elf::spec_load_segs(
                *old(fs),
                old(self).file,
                old(self).fmt.phdr@,
                0,
                old(mem).base as int,
                (
                    old(mem).data@,
                    old(self).fmt.data_begin as int,
                    old(self).fmt.data_end as int,
                ),
            ) == Result::<(Seq<u8>, int, int), ErrorCode>::Ok(
                (
                    final(mem).data@,
                    final(self).fmt.data_begin as int,
                    final(self).fmt.data_end as int,
                ),
            ),
            old(fs).block.spec_reliable() ==> (r matches Err(e) ==> crate::elf::spec_load_segs(
                *old(fs),
                old(self).file,
                old(self).fmt.phdr@,
                0,
                old(mem).base as int,
                (
                    old(mem).data@,
                    old(self).fmt.data_begin as int,
                    old(self).fmt.data_end as int,
                ),
            ) == Result::<(Seq<u8>, int, int), ErrorCode>::Err(e)),
    {
        let file = self.file;
        self.fmt.load(fs, &file, config, mem)
    }

    /// The entry point recorded by `prepare`, if any.
    pub fn get_entrypoint(&self) -> (r: Option<usize>)
        ensures
            r == (match self.fmt.ehdr {
                Some(h) => Some(h.entry as usize),
                None => None,
            }),
    {
        self.fmt.get_entrypoint()
    }
}

/// Congruence of the executable-open outcome across cache-only filesystem
/// changes.
pub proof fn lemma_cong_exec_open<D: BlockDevice>(
    a: FATFilesystem<D>,
    b: FATFilesystem<D>,
    f: FATFile,
)
    requires
        a.same_fs(b),
    ensures
        spec_exec_open(a, f) == spec_exec_open(b, f),
{
    crate::fat::lemma_cong_read_file(a, b, f, 0, 512);
}

} // verus!
