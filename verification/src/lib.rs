//! Core logic of a second-stage x86 BIOS bootloader: FAT12 filesystem with an
//! LRU cluster cache, block I/O over BIOS INT 13h, ELF32 loading, PIC and IDT
//! programming, a boot-time configuration parser, and the boot orchestrator.

pub mod bios;
pub mod block;
pub mod block_bios;
pub mod boot;
pub mod bytes;
pub mod config;
pub mod elf;
pub mod errors;
pub mod exec;
pub mod fat;
pub mod fat_cache;
pub mod fifo;
pub mod fs;
pub mod gdt;
pub mod idt;
pub mod intr;
pub mod mem;
pub mod output;
pub mod pic;
pub mod sector_map;
pub mod serial;
pub mod vga;
