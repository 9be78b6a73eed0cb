//! The boot orchestrator: the fixed sequence that mounts the boot volume,
//! loads the configuration, and prepares and loads the kernel. Every step
//! is fatal on error: the failure is reported as the last event and the
//! sequence stops. The unverified runtime shell prints the events and, on
//! success, jumps to the returned entry point.

use vstd::prelude::*;

use crate::bios::BiosThunk;
use crate::block::BlockDevice;
use crate::block_bios::{BiosBlockDevice, FLOPPY_SIZE};
use crate::bytes::le16;
use crate::config::{spec_config, Config};
use crate::elf::{spec_elf_prepare, spec_load_segs};
use crate::errors::ErrorCode;
use crate::exec::{spec_exec_open, ExecFile};
use crate::fat::{subvec, FATFile, FATFilesystem};
use crate::fs::ATTR_DIRECTORY;
use crate::mem::PhysMemory;

verus! {

/// One step of the boot sequence, reported for diagnostics. Error events
/// carry the error that stopped the boot.
#[derive(Debug, PartialEq)]
pub enum BootEvent {
    BlockDeviceCreated,
    CouldNotCreateBlockDevice(ErrorCode),
    FilesystemCreated,
    CouldNotOpenFilesystem(ErrorCode),
    ConfigFileOpened,
    CouldNotFindConfigFile(ErrorCode),
    ConfigLoaded,
    ErrorLoadingConfig(ErrorCode),
    LoadingKernel(Vec<u8>),
    CouldNotFindKernel(ErrorCode),
    CouldNotOpenKernel(ErrorCode),
    CouldNotPrepareKernel(ErrorCode),
    CouldNotLoadKernel(ErrorCode),
    KernelLoaded(usize),
}

/// The fixed path of the configuration file, `RLBOOT/RLBOOT.CFG`.
pub open spec fn spec_cfg_path() -> Seq<u8> {
    seq![
        82u8,
        76u8,
        66u8,
        79u8,
        79u8,
        84u8,
        47u8,
        82u8,
        76u8,
        66u8,
        79u8,
        79u8,
        84u8,
        46u8,
        67u8,
        70u8,
        71u8,
    ]
}

/// The fixed path of the configuration file, `RLBOOT/RLBOOT.CFG`.
pub fn cfg_path() -> (r: Vec<u8>)
    ensures
        r@ == spec_cfg_path(),
{
    let mut v: Vec<u8> = Vec::new();
    v.push(82);
    v.push(76);
    v.push(66);
    v.push(79);
    v.push(79);
    v.push(84);
    v.push(47);
    v.push(82);
    v.push(76);
    v.push(66);
    v.push(79);
    v.push(79);
    v.push(84);
    v.push(46);
    v.push(67);
    v.push(70);
    v.push(71);
    proof {
        assert(v@ =~= spec_cfg_path());
    }
    v
}

/// Whether the boot premises hold: a floppy drive number, a thunk whose
/// reads always succeed, and a full-size disk behind it. Under these the
/// whole boot outcome is a function of the disk content.
pub open spec fn spec_boot_ready<T: BiosThunk>(thunk: T, boot_drive: u8) -> bool {
    &&& boot_drive < 0x80
    &&& thunk.spec_reliable()
    &&& thunk.spec_disk(boot_drive).len() == FLOPPY_SIZE
}

/// Whether the drive served by `thunk` mounts as a FAT12 volume at offset
/// 0: it must span a full floppy and its boot sector must claim a nonzero
/// sector and cluster size.
pub open spec fn spec_floppy_mountable<T: BiosThunk>(thunk: T, drive: u8) -> bool {
    &&& thunk.spec_disk(drive).len() == FLOPPY_SIZE
    &&& le16(thunk.spec_disk(drive).subrange(0, 512), 11) >= 1
    &&& thunk.spec_disk(drive).subrange(0, 512)[13] >= 1
}

/// The geometry equations of a filesystem mounted over `disk` at offset 0,
/// as the boot-sector fields derive them.
pub open spec fn spec_fs_geometry<D: BlockDevice>(fs: FATFilesystem<D>, disk: Seq<u8>) -> bool {
    let b = disk.subrange(0, 512);
    &&& fs.sector_size == le16(b, 11)
    &&& fs.cluster_size == b[13] * le16(b, 11)
    &&& fs.fat_offset == le16(b, 14) * le16(b, 11)
    &&& fs.fat_size == le16(b, 22) * le16(b, 11)
    &&& fs.rootdir.first_cluster == fs.fat_offset + fs.fat_size * b[16]
    &&& fs.rootdir.size == 32 * le16(b, 17)
    &&& fs.data_offset == fs.rootdir.first_cluster + fs.rootdir.size
    &&& fs.rootdir.attr == ATTR_DIRECTORY
}

/// The outcome of reading and parsing the configuration file `cfgf`.
pub open spec fn spec_cfg_result<D: BlockDevice>(fs: FATFilesystem<D>, cfgf: FATFile) -> Result<
    (u8, Seq<u8>, Seq<u8>, Seq<Seq<u8>>),
    ErrorCode,
> {
    match fs.spec_read_file(cfgf, 0, cfgf.size as int) {
        Result::Err(e) => Result::Err(e),
        Result::Ok(d) => spec_config(d),
    }
}

/// The event log and outcome the boot sequence owes over the mounted
/// filesystem `fs`: each stage's event is fixed by the stage's spec
/// outcome, the first failure is the last event, and on full success the
/// entry point is returned and `mem` holds the loaded segments.
#[verifier::opaque]
pub open spec fn spec_boot_stages<D: BlockDevice>(
    fs: FATFilesystem<D>,
    events: Seq<BootEvent>,
    outcome: Option<usize>,
    mem0: PhysMemory,
    mem1: PhysMemory,
) -> bool {
    &&& events.len() >= 2
    &&& events[0] == BootEvent::BlockDeviceCreated
    &&& events[1] == BootEvent::FilesystemCreated
    &&& match fs.spec_resolve(None, spec_cfg_path()) {
        Result::Err(e) => {
            &&& events.len() == 3
            &&& events[2] == BootEvent::CouldNotFindConfigFile(e)
            &&& outcome is None
            &&& mem1 == mem0
        },
        Result::Ok(cfgf) => {
            &&& events.len() >= 3
            &&& events[2] == BootEvent::ConfigFileOpened
            &&& match spec_cfg_result(fs, cfgf) {
                Result::Err(e) => {
                    &&& events.len() == 4
                    &&& events[3] == BootEvent::ErrorLoadingConfig(e)
                    &&& outcome is None
                    &&& mem1 == mem0
                },
                Result::Ok(m) => {
                    &&& events.len() == 6
                    &&& events[3] == BootEvent::ConfigLoaded
                    &&& (events[4] matches BootEvent::LoadingKernel(p) && p@ == m.1)
                    &&& match fs.spec_resolve(None, m.1) {
                        Result::Err(e) => {
                            &&& events[5] == BootEvent::CouldNotFindKernel(e)
                            &&& outcome is None
                            &&& mem1 == mem0
                        },
                        Result::Ok(kf) => match spec_exec_open(fs, kf) {
                            Result::Err(e) => {
                                &&& events[5] == BootEvent::CouldNotOpenKernel(e)
                                &&& outcome is None
                                &&& mem1 == mem0
                            },
                            Result::Ok(u) => match spec_elf_prepare(fs, kf) {
                                Result::Err(e) => {
                                    &&& events[5] == BootEvent::CouldNotPrepareKernel(e)
                                    &&& outcome is None
                                    &&& mem1 == mem0
                                },
                                Result::Ok(hp) => match spec_load_segs(
                                    fs,
                                    kf,
                                    hp.1,
                                    0,
                                    mem0.base as int,
                                    (mem0.data@, u32::MAX as int, 0int),
                                ) {
                                    Result::Err(e) => {
                                        &&& events[5] == BootEvent::CouldNotLoadKernel(e)
                                        &&& outcome is None
                                    },
                                    Result::Ok(st) => {
                                        &&& events[5] == BootEvent::KernelLoaded(
                                            hp.0.entry as usize,
                                        )
                                        &&& outcome == Some(hp.0.entry as usize)
                                        &&& mem1.base == mem0.base
                                        &&& mem1.data@ == st.0
                                    },
                                },
                            },
                        },
                    }
                },
            }
        },
    }
}

/// Run the boot sequence over BIOS drive `boot_drive`, loading the kernel
/// into `mem`: open the drive, mount FAT12 at offset 0, read and parse
/// `RLBOOT/RLBOOT.CFG`, resolve the kernel it names, and prepare and load
/// it. The returned events record each step; the entry point is returned
/// when every step succeeded. Under the boot premises on a mountable disk
/// the whole outcome — every event, the entry point and the loaded memory —
/// is fixed by the disk content, through a mounted filesystem whose
/// geometry the boot sector determines.
#[verifier::rlimit(100)]
#[verifier::spinoff_prover]
pub fn boot<T: BiosThunk>(boot_drive: u8, thunk: T, mem: &mut PhysMemory) -> (r: (
    Vec<BootEvent>,
    Option<usize>,
))
    ensures
        r.0@.len() > 0,
        (match r.1 {
            Some(e) => r.0@.last() == BootEvent::KernelLoaded(e),
            None => !(r.0@.last() is KernelLoaded),
        }),
        boot_drive >= 0x80 ==> r.0@.len() == 1 && r.0@[0]
            == BootEvent::CouldNotCreateBlockDevice(ErrorCode::Unsupported),
        spec_boot_ready(thunk, boot_drive) ==> (spec_floppy_mountable(thunk, boot_drive) <==> (
        r.0@.len() >= 2 && r.0@[1] == BootEvent::FilesystemCreated)),
        spec_boot_ready(thunk, boot_drive) && spec_floppy_mountable(thunk, boot_drive)
            ==> exists|fs: FATFilesystem<BiosBlockDevice<T>>|
            {
                &&& #[trigger] fs.wf()
                &&& fs.offset == 0
                &&& fs.block.spec_data() == thunk.spec_disk(boot_drive)
                &&& fs.block.spec_reliable()
                &&& spec_fs_geometry(fs, thunk.spec_disk(boot_drive))
                &&& spec_boot_stages(fs, r.0@, r.1, *old(mem), *final(mem))
            },
{
    let ghost ready = spec_boot_ready(thunk, boot_drive) && spec_floppy_mountable(
        thunk,
        boot_drive,
    );
    let mut events: Vec<BootEvent> = Vec::new();

    let blk = match BiosBlockDevice::new(boot_drive, thunk) {
        Ok(bbd) => bbd,
        Err(e) => {
            events.push(BootEvent::CouldNotCreateBlockDevice(e));
            return (events, None);
        },
    };
    events.push(BootEvent::BlockDeviceCreated);

    let ghost disk = blk.spec_data();
    let mut fs = match FATFilesystem::init(blk, 0) {
        Ok(fs) => fs,
        Err(e) => {
            events.push(BootEvent::CouldNotOpenFilesystem(e));
            return (events, None);
        },
    };
    events.push(BootEvent::FilesystemCreated);
    let ghost fs0 = fs;
    proof {
        if ready {
            assert(fs0.block.spec_data() == thunk.spec_disk(boot_drive));
            assert(fs0.block.spec_reliable());
            assert(spec_fs_geometry(fs0, thunk.spec_disk(boot_drive)));
        }
    }

    let path = cfg_path();
    let cfg_file = match fs.find_file(None, &path) {
        Ok(file) => file,
        Err(e) => {
            events.push(BootEvent::CouldNotFindConfigFile(e));
            proof {
                if ready {
                    reveal(spec_boot_stages);
                    assert(spec_boot_stages(fs0, events@, None, *old(mem), *mem));
                }
            }
            return (events, None);
        },
    };
    events.push(BootEvent::ConfigFileOpened);
    proof {
        if ready {
            assert(fs0.spec_resolve(None, spec_cfg_path()) == Result::<FATFile, ErrorCode>::Ok(
                cfg_file,
            ));
        }
    }

    let ghost fs1 = fs;
    let cfg_size = cfg_file.size;
    let config = match fs.read_file(&cfg_file, 0, cfg_size) {
        Ok(data) => {
            proof {
                if ready {
                    crate::fat::lemma_cong_read_file(fs1, fs0, cfg_file, 0, cfg_size as int);
                }
            }
            match Config::load(&data) {
                Ok(cfg) => cfg,
                Err(e) => {
                    events.push(BootEvent::ErrorLoadingConfig(e));
                    proof {
                        if ready {
                            reveal(spec_boot_stages);
                            assert(spec_cfg_result(fs0, cfg_file) == Result::<
                                (u8, Seq<u8>, Seq<u8>, Seq<Seq<u8>>),
                                ErrorCode,
                            >::Err(e));
                            assert(spec_boot_stages(fs0, events@, None, *old(mem), *mem));
                        }
                    }
                    return (events, None);
                },
            }
        },
        Err(e) => {
            events.push(BootEvent::ErrorLoadingConfig(e));
            proof {
                if ready {
                    reveal(spec_boot_stages);
                    crate::fat::lemma_cong_read_file(fs1, fs0, cfg_file, 0, cfg_size as int);
                    assert(spec_boot_stages(fs0, events@, None, *old(mem), *mem));
                }
            }
            return (events, None);
        },
    };
    events.push(BootEvent::ConfigLoaded);
    let ghost cfg_model = config.model();
    proof {
        if ready {
            assert(spec_cfg_result(fs0, cfg_file) == Result::<
                (u8, Seq<u8>, Seq<u8>, Seq<Seq<u8>>),
                ErrorCode,
            >::Ok(cfg_model));
        }
    }

    let kname = subvec(&config.kernel_path, 0, config.kernel_path.len());
    proof {
        assert(kname@ =~= config.kernel_path@);
    }
    events.push(BootEvent::LoadingKernel(kname));
    let ghost fs2 = fs;
    let kernel_file = match fs.find_file(None, &config.kernel_path) {
        Ok(file) => file,
        Err(e) => {
            events.push(BootEvent::CouldNotFindKernel(e));
            proof {
                if ready {
                    reveal(spec_boot_stages);
                    assert(fs2.same_fs(fs0));
                    crate::fat::lemma_cong_resolve(fs2, fs0, None, cfg_model.1);
                    assert(spec_boot_stages(fs0, events@, None, *old(mem), *mem));
                }
            }
            return (events, None);
        },
    };
    proof {
        if ready {
            assert(fs2.same_fs(fs0));
            crate::fat::lemma_cong_resolve(fs2, fs0, None, cfg_model.1);
            assert(fs0.spec_resolve(None, cfg_model.1) == Result::<FATFile, ErrorCode>::Ok(
                kernel_file,
            ));
        }
    }

    let ghost fs3 = fs;
    let mut exec = match ExecFile::open(&mut fs, kernel_file) {
        Ok(exec) => exec,
        Err(e) => {
            events.push(BootEvent::CouldNotOpenKernel(e));
            proof {
                if ready {
                    reveal(spec_boot_stages);
                    assert(fs3.same_fs(fs0));
                    crate::exec::lemma_cong_exec_open(fs3, fs0, kernel_file);
                    assert(spec_boot_stages(fs0, events@, None, *old(mem), *mem));
                }
            }
            return (events, None);
        },
    };
    proof {
        if ready {
            assert(fs3.same_fs(fs0));
            crate::exec::lemma_cong_exec_open(fs3, fs0, kernel_file);
        }
    }

    let ghost fs4 = fs;
    if let Err(e) = exec.prepare(&mut fs, &config) {
        events.push(BootEvent::CouldNotPrepareKernel(e));
        proof {
            if ready {
                reveal(spec_boot_stages);
                assert(fs4.same_fs(fs0));
                crate::elf::lemma_cong_elf_prepare(fs4, fs0, kernel_file);
                assert(spec_boot_stages(fs0, events@, None, *old(mem), *mem));
            }
        }
        return (events, None);
    }
    proof {
        if ready {
            assert(fs4.same_fs(fs0));
            crate::elf::lemma_cong_elf_prepare(fs4, fs0, kernel_file);
        }
    }
    let ghost hp = spec_elf_prepare(fs0, kernel_file)->Ok_0;

    let ghost fs5 = fs;
    if let Err(e) = exec.load(&mut fs, &config, mem) {
        events.push(BootEvent::CouldNotLoadKernel(e));
        proof {
            if ready {
                reveal(spec_boot_stages);
                assert(fs5.same_fs(fs0));
                crate::elf::lemma_cong_load_segs(
                    fs5,
                    fs0,
                    kernel_file,
                    hp.1,
                    0,
                    old(mem).base as int,
                    (old(mem).data@, u32::MAX as int, 0int),
                );
                assert(spec_boot_stages(fs0, events@, None, *old(mem), *mem));
            }
        }
        return (events, None);
    }
    proof {
        if ready {
            assert(fs5.same_fs(fs0));
            crate::elf::lemma_cong_load_segs(
                fs5,
                fs0,
                kernel_file,
                hp.1,
                0,
                old(mem).base as int,
                (old(mem).data@, u32::MAX as int, 0int),
            );
        }
    }

    match exec.get_entrypoint() {
        Some(entry) => {
            events.push(BootEvent::KernelLoaded(entry));
            proof {
                if ready {
                    reveal(spec_boot_stages);
                    assert(spec_boot_stages(fs0, events@, Some(entry), *old(mem), *mem));
                }
            }
            (events, Some(entry))
        },
        None => {
            events.push(BootEvent::CouldNotLoadKernel(ErrorCode::Unspecified));
            (events, None)
        },
    }
}

} // verus!
