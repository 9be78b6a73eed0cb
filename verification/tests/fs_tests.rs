//! Tests for the block devices, the FAT12 filesystem, the cluster cache,
//! the configuration parser, the ELF loader and the boot orchestrator,
//! over floppy images built in memory.

use rlboot::block::{BlockDevice, MemBlockDevice};
use rlboot::block_bios::{BiosBlockDevice, MemDiskBios};
use rlboot::boot::{boot, BootEvent};
use rlboot::config::Config;
use rlboot::errors::ErrorCode;
use rlboot::exec::ExecFile;
use rlboot::fat::{fat_filename_eq, FATFilesystem};
use rlboot::fat_cache::FATFilesystemCache;
use rlboot::fs::{File, Filesystem, ATTR_DIRECTORY, ATTR_FILE};
use rlboot::mem::PhysMemory;
use rlboot::sector_map::{build_sector_map, SECTOR_MAP_ENTRIES};

const FLOPPY: usize = 2880 * 512;
const FAT_OFFSET: usize = 512;
const ROOT_OFFSET: usize = 512 + 2 * 9 * 512;
const DATA_OFFSET: usize = ROOT_OFFSET + 224 * 32;

fn cluster_offset(n: usize) -> usize {
    DATA_OFFSET + (n - 2) * 512
}

fn set_fat(img: &mut Vec<u8>, cluster: usize, val: u16) {
    let off = FAT_OFFSET + cluster * 3 / 2;
    if cluster % 2 == 0 {
        img[off] = (val & 0xFF) as u8;
        img[off + 1] = (img[off + 1] & 0xF0) | ((val >> 8) as u8 & 0x0F);
    } else {
        img[off] = (img[off] & 0x0F) | (((val & 0x0F) as u8) << 4);
        img[off + 1] = (val >> 4) as u8;
    }
}

fn put16(img: &mut Vec<u8>, off: usize, v: u16) {
    img[off] = (v & 0xFF) as u8;
    img[off + 1] = (v >> 8) as u8;
}

fn put32(img: &mut Vec<u8>, off: usize, v: u32) {
    img[off] = (v & 0xFF) as u8;
    img[off + 1] = ((v >> 8) & 0xFF) as u8;
    img[off + 2] = ((v >> 16) & 0xFF) as u8;
    img[off + 3] = ((v >> 24) & 0xFF) as u8;
}

fn put_dirent(img: &mut Vec<u8>, at: usize, name: &[u8; 11], attr: u8, start: u16, size: u32) {
    img[at..at + 11].copy_from_slice(name);
    img[at + 11] = attr;
    put16(img, at + 26, start);
    put32(img, at + 28, size);
}

/// A minimal i386 ELF with one loadable segment: `filesz` file bytes at
/// file offset 0x100, placed at `paddr` with `memsz` bytes in memory.
fn build_elf(machine: u16, entry: u32, paddr: u32, filesz: u32, memsz: u32) -> Vec<u8> {
    let mut e = vec![0u8; 0x100 + filesz as usize];
    put32(&mut e, 0, 0x464c457f);
    e[4] = 1; // 32-bit
    e[5] = 1; // little-endian
    e[6] = 1;
    put16(&mut e, 16, 2); // executable
    put16(&mut e, 18, machine);
    put32(&mut e, 20, 1);
    put32(&mut e, 24, entry);
    put32(&mut e, 28, 52); // phoff
    put16(&mut e, 40, 52); // ehsize
    put16(&mut e, 42, 32); // phentsize
    put16(&mut e, 44, 1); // phnum
    // program header at 52
    put32(&mut e, 52, 1); // PT_LOAD
    put32(&mut e, 56, 0x100); // offset
    put32(&mut e, 60, paddr); // vaddr
    put32(&mut e, 64, paddr); // paddr
    put32(&mut e, 68, filesz);
    put32(&mut e, 72, memsz);
    for i in 0..filesz as usize {
        e[0x100 + i] = (i % 251) as u8;
    }
    e
}

/// A 1.44 MB FAT12 floppy: 512-byte sectors, 1 sector per cluster, 1
/// reserved sector, 2 FATs of 9 sectors, 224 root entries. It holds
/// `RLBOOT/RLBOOT.CFG` (unless `with_config` is false), `KERNEL.ELF` (a
/// valid i386 image), `ARM.ELF` (machine = ARM) and `HELLO.TXT` spanning
/// two clusters.
fn build_image(with_config: bool, config_text: &[u8]) -> Vec<u8> {
    let mut img = vec![0u8; FLOPPY];
    // boot sector
    put16(&mut img, 11, 512); // bytes per sector
    img[13] = 1; // sectors per cluster
    put16(&mut img, 14, 1); // reserved sectors
    img[16] = 2; // FAT copies
    put16(&mut img, 17, 224); // root dir entries
    put16(&mut img, 19, 2880); // total sectors
    img[21] = 0xF0;
    put16(&mut img, 22, 9); // sectors per FAT
    put16(&mut img, 24, 18); // sectors per track
    put16(&mut img, 26, 2); // heads
    put16(&mut img, 510, 0xAA55);

    // root directory: a volume label, the RLBOOT directory, the kernels,
    // and a two-cluster text file
    put_dirent(&mut img, ROOT_OFFSET, b"BOOTDISK   ", 0x08, 0, 0);
    put_dirent(&mut img, ROOT_OFFSET + 32, b"RLBOOT     ", 0x10, 2, 0);
    put_dirent(&mut img, ROOT_OFFSET + 64, b"KERNEL  ELF", 0x20, 6, 0x200);
    put_dirent(&mut img, ROOT_OFFSET + 96, b"ARM     ELF", 0x20, 7, 0x200);
    put_dirent(&mut img, ROOT_OFFSET + 128, b"HELLO   TXT", 0x20, 3, 600);

    // cluster chains
    set_fat(&mut img, 2, 0xFFF); // RLBOOT directory
    set_fat(&mut img, 3, 4); // HELLO.TXT spans clusters 3 and 4
    set_fat(&mut img, 4, 0xFFF);
    set_fat(&mut img, 5, 0xFFF); // RLBOOT.CFG
    set_fat(&mut img, 6, 0xFFF); // KERNEL.ELF, first cluster
    set_fat(&mut img, 7, 0xFFF); // ARM.ELF, first cluster

    // RLBOOT directory content
    if with_config {
        let at = cluster_offset(2);
        put_dirent(&mut img, at, b"RLBOOT  CFG", 0x20, 5, config_text.len() as u32);
        let c = cluster_offset(5);
        img[c..c + config_text.len()].copy_from_slice(config_text);
    }

    // HELLO.TXT content
    let h = cluster_offset(3);
    for i in 0..600usize {
        img[h + i] = (i % 7) as u8 + b'a';
    }

    // KERNEL.ELF: the image is 0x200 bytes, within one cluster
    let kernel = build_elf(3, 0x200000, 0x200000, 0x100, 0x200);
    let k = cluster_offset(6);
    img[k..k + kernel.len()].copy_from_slice(&kernel);

    // ARM.ELF: identical but machine = ARM
    let arm = build_elf(0x28, 0x200000, 0x200000, 0x100, 0x200);
    let a = cluster_offset(7);
    img[a..a + arm.len()].copy_from_slice(&arm);

    img
}

fn mount(img: Vec<u8>) -> FATFilesystem<MemBlockDevice> {
    FATFilesystem::init(MemBlockDevice::new(img), 0).expect("mount")
}

#[test]
fn mem_device_rejects_unaligned_reads() {
    let dev = MemBlockDevice::new(vec![0u8; 4096]);
    assert_eq!(dev.read(100, 512), Err(ErrorCode::Unspecified));
    assert_eq!(dev.read(512, 100), Err(ErrorCode::Unspecified));
    assert_eq!(dev.read(4096, 512), Err(ErrorCode::OutOfBounds));
}

#[test]
fn mem_device_reads_concatenate() {
    let data: Vec<u8> = (0..2048u32).map(|i| (i % 255) as u8).collect();
    let dev = MemBlockDevice::new(data.clone());
    let a = dev.read(0, 512).unwrap();
    let b = dev.read(512, 512).unwrap();
    let ab = dev.read(0, 1024).unwrap();
    let mut cat = a.clone();
    cat.extend_from_slice(&b);
    assert_eq!(cat, ab);
    assert_eq!(ab, data[0..1024].to_vec());
}

#[test]
fn bios_device_reads_through_the_thunk() {
    let mut disk = vec![0u8; FLOPPY];
    for i in 0..2048usize {
        disk[i] = (i % 253) as u8;
    }
    let expected = disk[512..1536].to_vec();
    let thunk = MemDiskBios::new(0, disk);
    let dev = BiosBlockDevice::new(0, thunk).expect("floppy");
    assert_eq!(dev.get_size(), FLOPPY);
    let got = dev.read(512, 1024).unwrap();
    assert_eq!(got, expected);
    assert_eq!(dev.read(100, 512), Err(ErrorCode::Unspecified));
}

#[test]
fn bios_device_refuses_hard_disks() {
    let thunk = MemDiskBios::new(0x80, vec![0u8; FLOPPY]);
    match BiosBlockDevice::new(0x80, thunk) {
        Err(e) => assert_eq!(e, ErrorCode::Unsupported),
        Ok(_) => panic!("hard disks are unsupported"),
    }
}

#[test]
fn fat_names_match_8_3_semantics() {
    let fat_name = b"KERNEL  ELF".to_vec();
    assert!(fat_filename_eq(&fat_name, &b"KERNEL.ELF".to_vec()));
    assert!(!fat_filename_eq(&fat_name, &b"KERNEL.EL".to_vec()));
    assert!(!fat_filename_eq(&fat_name, &b"KERNELS.ELF".to_vec()));
    let plain = b"HELLO      ".to_vec();
    assert!(fat_filename_eq(&plain, &b"HELLO".to_vec()));
    assert!(fat_filename_eq(&plain, &b"HELLO.".to_vec()));
    assert!(!fat_filename_eq(&plain, &b"HELLO!".to_vec()));
}

#[test]
fn mount_derives_the_geometry() {
    let fs = mount(build_image(true, b"CFGVER=1\nKERNEL=KERNEL.ELF\n"));
    assert_eq!(fs.get_cluster_size(), 512);
    let root = fs.get_root();
    assert_eq!(root.get_attr(), ATTR_DIRECTORY);
    assert_eq!(root.get_size(), 224 * 32);
}

#[test]
fn find_file_resolves_every_listed_entry() {
    let mut fs = mount(build_image(true, b"CFGVER=1\nKERNEL=KERNEL.ELF\n"));
    for name in [
        &b"RLBOOT"[..],
        &b"KERNEL.ELF"[..],
        &b"ARM.ELF"[..],
        &b"HELLO.TXT"[..],
        &b"RLBOOT/RLBOOT.CFG"[..],
    ] {
        let f = fs.find_file(None, &name.to_vec());
        assert!(f.is_ok(), "could not resolve a listed entry");
    }
    let dir = fs.find_file(None, &b"RLBOOT"[..].to_vec()).unwrap();
    assert_eq!(dir.attr, ATTR_DIRECTORY);
    let k = fs.find_file(None, &b"KERNEL.ELF"[..].to_vec()).unwrap();
    assert_eq!(k.attr, ATTR_FILE);
    assert_eq!(k.size, 0x200);
}

#[test]
fn find_file_rejects_paths_through_non_directories() {
    let mut fs = mount(build_image(true, b"CFGVER=1\nKERNEL=KERNEL.ELF\n"));
    let r = fs.find_file(None, &b"HELLO.TXT/FOO"[..].to_vec());
    assert_eq!(r, Err(ErrorCode::FileNotFound));
}

#[test]
fn find_file_rejects_long_filenames() {
    let mut fs = mount(build_image(true, b"CFGVER=1\nKERNEL=VERYLONGKERNELNAME.ELF\n"));
    let r = fs.find_file(None, &b"VERYLONGKERNELNAME.ELF"[..].to_vec());
    assert_eq!(r, Err(ErrorCode::FileUnsupported));
}

#[test]
fn find_file_reports_missing_entries() {
    let mut fs = mount(build_image(true, b"CFGVER=1\nKERNEL=KERNEL.ELF\n"));
    let r = fs.find_file(None, &b"NOPE.BIN"[..].to_vec());
    assert_eq!(r, Err(ErrorCode::FileNotFound));
}

#[test]
fn read_file_crosses_cluster_boundaries() {
    let mut fs = mount(build_image(true, b"CFGVER=1\nKERNEL=KERNEL.ELF\n"));
    let f = fs.find_file(None, &b"HELLO.TXT"[..].to_vec()).unwrap();
    let data = fs.read_file(&f, 0, 600).unwrap();
    assert_eq!(data.len(), 600);
    for i in 0..600usize {
        assert_eq!(data[i], (i % 7) as u8 + b'a');
    }
    let tail = fs.read_file(&f, 500, 100).unwrap();
    assert_eq!(&data[500..], &tail[..]);
    assert_eq!(fs.read_file(&f, 0, 601), Err(ErrorCode::OutOfBounds));
}

#[test]
fn directory_attribute_is_recorded() {
    let mut fs = mount(build_image(true, b"CFGVER=1\nKERNEL=KERNEL.ELF\n"));
    let f = fs.find_file(None, &b"RLBOOT"[..].to_vec()).unwrap();
    assert_eq!(f.attr, ATTR_DIRECTORY);
}

#[test]
fn cache_evicts_the_least_recently_touched_entry() {
    let mut c = FATFilesystemCache::new(4);
    c.add(512, vec![1]);
    c.add(1024, vec![2]);
    c.add(1536, vec![3]);
    c.add(2048, vec![4]);
    // Touch the oldest so that the second-oldest becomes the LRU.
    assert_eq!(c.find(512), Some(vec![1]));
    c.add(2560, vec![5]);
    assert_eq!(c.find(1024), None);
    assert_eq!(c.find(512), Some(vec![1]));
    assert_eq!(c.find(1536), Some(vec![3]));
    assert_eq!(c.find(2048), Some(vec![4]));
    assert_eq!(c.find(2560), Some(vec![5]));
}

#[test]
fn config_parses_the_recognised_keys() {
    let text = b"  CFGVER = 1 \nKERNEL=BOOT/VMLINUZ\nCMDLINE=quiet splash\nMODULE=A.BIN\nMODULE=B.BIN\nJUNK=1\nnoequals\n".to_vec();
    let c = Config::load(&text).unwrap();
    assert_eq!(c.version, 1);
    assert_eq!(c.kernel_path, b"BOOT/VMLINUZ".to_vec());
    assert_eq!(c.kernel_cmdline, b"quiet splash".to_vec());
    assert_eq!(c.modules.len(), 2);
    assert_eq!(c.modules[0].path, b"A.BIN".to_vec());
    assert_eq!(c.modules[1].name, b"B.BIN".to_vec());
    assert_eq!(c.modules[0].addr, 0);
    assert_eq!(c.modules[0].size, 0);
}

#[test]
fn config_rejects_wrong_version() {
    let r = Config::load(&b"CFGVER=2\nKERNEL=KERNEL.ELF\n".to_vec());
    assert_eq!(r.err(), Some(ErrorCode::UnsupportedConfig));
    let r = Config::load(&b"KERNEL=KERNEL.ELF\n".to_vec());
    assert_eq!(r.err(), Some(ErrorCode::UnsupportedConfig));
}

#[test]
fn config_rejects_invalid_utf8() {
    let r = Config::load(&vec![0x43, 0x46, 0xFF, 0xFE]);
    assert_eq!(r.err(), Some(ErrorCode::ConfigFormatError));
}

#[test]
fn config_ignores_unparsable_versions() {
    let r = Config::load(&b"CFGVER=banana\nCFGVER=1\n".to_vec());
    assert!(r.is_ok());
    let r = Config::load(&b"CFGVER=999\n".to_vec());
    assert_eq!(r.err(), Some(ErrorCode::UnsupportedConfig));
    let r = Config::load(&b"CFGVER=+1\n".to_vec());
    assert!(r.is_ok());
}

#[test]
fn elf_loader_copies_and_zero_fills() {
    let mut fs = mount(build_image(true, b"CFGVER=1\nKERNEL=KERNEL.ELF\n"));
    let f = fs.find_file(None, &b"KERNEL.ELF"[..].to_vec()).unwrap();
    let config = Config::load(&b"CFGVER=1\nKERNEL=KERNEL.ELF\n".to_vec()).unwrap();
    let mut exec = ExecFile::open(&mut fs, f).expect("open");
    exec.prepare(&mut fs, &config).expect("prepare");
    let mut mem = PhysMemory::new(0x200000, 0x200);
    exec.load(&mut fs, &config, &mut mem).expect("load");
    for i in 0..0x100u32 {
        assert_eq!(mem.get(0x200000 + i), (i % 251) as u8);
    }
    for i in 0x100..0x200u32 {
        assert_eq!(mem.get(0x200000 + i), 0);
    }
    assert_eq!(exec.get_entrypoint(), Some(0x200000));
    assert_eq!(exec.fmt.data_begin, 0x200000);
    assert_eq!(exec.fmt.data_end, 0x200200);
}

#[test]
fn elf_loader_rejects_non_i386_images() {
    let mut fs = mount(build_image(true, b"CFGVER=1\nKERNEL=ARM.ELF\n"));
    let f = fs.find_file(None, &b"ARM.ELF"[..].to_vec()).unwrap();
    let config = Config::load(&b"CFGVER=1\nKERNEL=ARM.ELF\n".to_vec()).unwrap();
    let mut exec = ExecFile::open(&mut fs, f).expect("open");
    assert_eq!(exec.prepare(&mut fs, &config), Err(ErrorCode::UnsupportedExecOptions));
}

#[test]
fn exec_open_rejects_unknown_formats() {
    let mut fs = mount(build_image(true, b"CFGVER=1\nKERNEL=KERNEL.ELF\n"));
    let f = fs.find_file(None, &b"HELLO.TXT"[..].to_vec()).unwrap();
    // HELLO.TXT is 600 bytes and carries no ELF magic
    match ExecFile::open(&mut fs, f) {
        Err(e) => assert_eq!(e, ErrorCode::UnsupportedExecFmt),
        Ok(_) => panic!("text is not an executable"),
    }
}

#[test]
fn boot_happy_path_loads_the_kernel() {
    let img = build_image(true, b"CFGVER=1\nKERNEL=KERNEL.ELF\n");
    let thunk = MemDiskBios::new(0, img);
    let mut mem = PhysMemory::new(0x200000, 0x200);
    let (events, entry) = boot(0, thunk, &mut mem);
    assert_eq!(entry, Some(0x200000));
    assert_eq!(events[0], BootEvent::BlockDeviceCreated);
    assert_eq!(events[1], BootEvent::FilesystemCreated);
    assert_eq!(events[2], BootEvent::ConfigFileOpened);
    assert_eq!(events[3], BootEvent::ConfigLoaded);
    assert_eq!(events[4], BootEvent::LoadingKernel(b"KERNEL.ELF".to_vec()));
    assert_eq!(events[5], BootEvent::KernelLoaded(0x200000));
    for i in 0..0x100u32 {
        assert_eq!(mem.get(0x200000 + i), (i % 251) as u8);
    }
    for i in 0x100..0x200u32 {
        assert_eq!(mem.get(0x200000 + i), 0);
    }
}

#[test]
fn boot_reports_a_missing_config_file() {
    let img = build_image(false, b"");
    let thunk = MemDiskBios::new(0, img);
    let mut mem = PhysMemory::new(0x200000, 0x200);
    let (events, entry) = boot(0, thunk, &mut mem);
    assert_eq!(entry, None);
    assert_eq!(
        events.last(),
        Some(&BootEvent::CouldNotFindConfigFile(ErrorCode::FileNotFound))
    );
}

#[test]
fn boot_reports_a_wrong_config_version() {
    let img = build_image(true, b"CFGVER=2\nKERNEL=KERNEL.ELF\n");
    let thunk = MemDiskBios::new(0, img);
    let mut mem = PhysMemory::new(0x200000, 0x200);
    let (events, entry) = boot(0, thunk, &mut mem);
    assert_eq!(entry, None);
    assert_eq!(
        events.last(),
        Some(&BootEvent::ErrorLoadingConfig(ErrorCode::UnsupportedConfig))
    );
}

#[test]
fn boot_reports_an_unloadable_kernel() {
    let img = build_image(true, b"CFGVER=1\nKERNEL=ARM.ELF\n");
    let thunk = MemDiskBios::new(0, img);
    let mut mem = PhysMemory::new(0x200000, 0x200);
    let (events, entry) = boot(0, thunk, &mut mem);
    assert_eq!(entry, None);
    assert_eq!(
        events.last(),
        Some(&BootEvent::CouldNotPrepareKernel(ErrorCode::UnsupportedExecOptions))
    );
}

#[test]
fn boot_refuses_hard_disks() {
    let thunk = MemDiskBios::new(0x81, vec![0u8; FLOPPY]);
    let mut mem = PhysMemory::new(0x200000, 0x200);
    let (events, entry) = boot(0x81, thunk, &mut mem);
    assert_eq!(entry, None);
    assert_eq!(events, vec![BootEvent::CouldNotCreateBlockDevice(ErrorCode::Unsupported)]);
}

#[test]
fn boot_reports_a_kernel_missing_from_the_volume() {
    let img = build_image(true, b"CFGVER=1\nKERNEL=MISSING.ELF\n");
    let thunk = MemDiskBios::new(0, img);
    let mut mem = PhysMemory::new(0x200000, 0x200);
    let (events, entry) = boot(0, thunk, &mut mem);
    assert_eq!(entry, None);
    assert_eq!(events.last(), Some(&BootEvent::CouldNotFindKernel(ErrorCode::FileNotFound)));
}

#[test]
fn sector_map_compresses_runs_and_pads_chunks() {
    // Three clusters: two consecutive (byte offsets one cluster apart), then
    // a gap. With 512-byte clusters and one sector per cluster this is a run
    // of two sectors starting at sector 2 and a run of one at sector 6.
    let clusters = vec![1024u32, 1536, 3072];
    let chunks = build_sector_map(&clusters, 512, 1);
    assert_eq!(chunks.len(), 1);
    let c = &chunks[0];
    assert_eq!(c.entries.len(), SECTOR_MAP_ENTRIES);
    assert_eq!(c.next_chunk, 0);
    assert_eq!(c.reserved, 0);
    assert_eq!(c.entries[0].sector, 2);
    assert_eq!(c.entries[0].count, 2);
    assert_eq!(c.entries[1].sector, 6);
    assert_eq!(c.entries[1].count, 1);
    for j in 2..SECTOR_MAP_ENTRIES {
        assert_eq!(c.entries[j].sector, 0);
        assert_eq!(c.entries[j].count, 0);
    }
}

#[test]
fn sector_map_spills_into_a_second_chunk() {
    // 128 isolated clusters (every other cluster) make 128 one-cluster runs:
    // one more than fits in a single chunk.
    let clusters: Vec<u32> = (0..128u32).map(|i| 1024 + i * 1024).collect();
    let chunks = build_sector_map(&clusters, 512, 1);
    assert_eq!(chunks.len(), 2);
    assert_eq!(chunks[0].entries[126].sector, 2 + 2 * 126);
    assert_eq!(chunks[0].entries[126].count, 1);
    assert_eq!(chunks[1].entries[0].sector, 2 + 2 * 127);
    assert_eq!(chunks[1].entries[0].count, 1);
    assert_eq!(chunks[1].entries[1].count, 0);
}

#[test]
fn utf8_validation_follows_the_encoding_rules() {
    // Two-, three- and four-byte sequences are accepted...
    assert!(Config::load(&b"CFGVER=1\nCMDLINE=caf\xc3\xa9 \xe2\x82\xac \xf0\x9f\x92\xbe\n".to_vec()).is_ok());
    // ...but overlong encodings, bare continuations and surrogates are not.
    assert_eq!(
        Config::load(&vec![0xC0, 0xAF]).err(),
        Some(ErrorCode::ConfigFormatError)
    );
    assert_eq!(Config::load(&vec![0x80]).err(), Some(ErrorCode::ConfigFormatError));
    assert_eq!(
        Config::load(&vec![0xED, 0xA0, 0x80]).err(),
        Some(ErrorCode::ConfigFormatError)
    );
    assert_eq!(
        Config::load(&vec![0xE2, 0x82]).err(),
        Some(ErrorCode::ConfigFormatError)
    );
}

#[test]
fn elf_prepare_rejects_a_truncated_image() {
    // HELLO.TXT is 600 bytes: reading the initial 512-byte chunk works, but
    // its bytes are not an ELF, and a 600-byte "kernel" with the magic would
    // be caught by the header checks; here the open step already refuses.
    let mut fs = mount(build_image(true, b"CFGVER=1\nKERNEL=KERNEL.ELF\n"));
    let f = fs.find_file(None, &b"KERNEL.ELF"[..].to_vec()).unwrap();
    // A file descriptor that claims fewer bytes than the ELF header needs.
    let small = rlboot::fat::FATFile { first_cluster: f.first_cluster, size: 20, attr: f.attr };
    let r = fs.read_file(&small, 0, 52);
    assert_eq!(r, Err(ErrorCode::OutOfBounds));
}

#[test]
fn fifo_length_tracks_wrapped_contents() {
    let mut f: rlboot::fifo::FIFO<u8> = rlboot::fifo::FIFO::new(4);
    assert_eq!(f.len(), 0);
    assert_eq!(f.free(), 3);
    f.enqueue(1).unwrap();
    f.enqueue(2).unwrap();
    f.enqueue(3).unwrap();
    assert_eq!(f.dequeue(), Some(1));
    f.enqueue(4).unwrap();
    // head is now past tail in the ring
    assert_eq!(f.len(), 3);
    assert_eq!(f.free(), 0);
}
