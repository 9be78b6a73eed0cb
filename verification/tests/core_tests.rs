//! Tests for the interrupt infrastructure, the FIFO, the VGA surface, the
//! serial driver state and the descriptor-table builders.

use rlboot::errors::ErrorCode;
use rlboot::fifo::FIFO;
use rlboot::gdt;
use rlboot::gdt::GDTEntry;
use rlboot::idt::{Idt, IDTEntry, IDT_FLAGS_INTR_32, IDT_FLAGS_TRAP_32};
use rlboot::intr;
use rlboot::intr::{dispatch_decision, InterruptID, IsrAction};
use rlboot::mem::PhysMemory;
use rlboot::pic;
use rlboot::pic::{PicState, PortWrite};
use rlboot::serial;
use rlboot::serial::{SerialConfig, SerialPortBase};
use rlboot::vga::VGA;

fn pic_state() -> PicState {
    PicState { master_mask: 0xAB, slave_mask: 0xCD, master_offset: 0x20, slave_offset: 0x28 }
}

#[test]
fn fifo_orders_elements_first_in_first_out() {
    let mut f: FIFO<u8> = FIFO::new(8);
    for i in 0..5u8 {
        assert!(f.enqueue(10 + i).is_ok());
    }
    assert_eq!(f.len(), 5);
    for i in 0..5u8 {
        assert_eq!(f.dequeue(), Some(10 + i));
    }
    assert_eq!(f.dequeue(), None);
}

#[test]
fn fifo_enqueue_past_capacity_minus_one_fails() {
    let mut f: FIFO<u8> = FIFO::new(4);
    assert!(f.enqueue(1).is_ok());
    assert!(f.enqueue(2).is_ok());
    assert!(f.enqueue(3).is_ok());
    assert_eq!(f.enqueue(4), Err(ErrorCode::NoSpace));
    assert_eq!(f.free(), 0);
}

#[test]
fn fifo_dequeue_on_empty_returns_nothing() {
    let mut f: FIFO<u16> = FIFO::new(3);
    assert_eq!(f.dequeue(), None);
    assert!(f.enqueue(7).is_ok());
    assert_eq!(f.dequeue(), Some(7));
    assert_eq!(f.dequeue(), None);
}

#[test]
fn fifo_wraps_around_the_ring() {
    let mut f: FIFO<u8> = FIFO::new(4);
    assert!(f.enqueue(1).is_ok());
    assert!(f.enqueue(2).is_ok());
    assert_eq!(f.dequeue(), Some(1));
    assert!(f.enqueue(3).is_ok());
    assert!(f.enqueue(4).is_ok());
    assert_eq!(f.dequeue(), Some(2));
    assert_eq!(f.dequeue(), Some(3));
    assert_eq!(f.dequeue(), Some(4));
    assert_eq!(f.len(), 0);
}

#[test]
fn pic_remap_round_trip_restores_masks() {
    let mut p = pic_state();
    let _ = pic::remap_bios(&mut p);
    assert_eq!(p.master_offset, 0x08);
    assert_eq!(p.slave_offset, 0x70);
    let _ = pic::remap(&mut p);
    assert_eq!(p.master_mask, 0xAB);
    assert_eq!(p.slave_mask, 0xCD);
    assert_eq!(p.master_offset, 0x20);
    assert_eq!(p.slave_offset, 0x28);
}

#[test]
fn pic_remap_write_sequence_is_the_icw_protocol() {
    let mut p = pic_state();
    let w = pic::remap(&mut p);
    let expect = vec![
        PortWrite { port: 0x20, value: 0x11 },
        PortWrite { port: 0xa0, value: 0x11 },
        PortWrite { port: 0x21, value: 0x20 },
        PortWrite { port: 0xa1, value: 0x28 },
        PortWrite { port: 0x21, value: 4 },
        PortWrite { port: 0xa1, value: 2 },
        PortWrite { port: 0x21, value: 1 },
        PortWrite { port: 0xa1, value: 1 },
        PortWrite { port: 0x21, value: 0xAB },
        PortWrite { port: 0xa1, value: 0xCD },
    ];
    assert_eq!(w, expect);
}

#[test]
fn pic_mask_and_unmask_flip_the_right_bits() {
    let mut p = pic_state();
    p.master_mask = 0;
    p.slave_mask = 0;
    let w = pic::mask(&mut p, 3);
    assert_eq!(p.master_mask, 8);
    assert_eq!(w, vec![PortWrite { port: 0x21, value: 8 }]);
    let w = pic::mask(&mut p, 10);
    assert_eq!(p.slave_mask, 4);
    assert_eq!(w, vec![PortWrite { port: 0xa1, value: 4 }]);
    let _ = pic::unmask(&mut p, 3);
    assert_eq!(p.master_mask, 0);
    let _ = pic::unmask(&mut p, 10);
    assert_eq!(p.slave_mask, 0);
}

#[test]
fn pic_eoi_reaches_both_controllers_for_slave_irqs() {
    let w = pic::eoi(3);
    assert_eq!(w, vec![PortWrite { port: 0x20, value: 0x20 }]);
    let w = pic::eoi(11);
    assert_eq!(
        w,
        vec![PortWrite { port: 0xa0, value: 0x20 }, PortWrite { port: 0x20, value: 0x20 }]
    );
}

#[test]
fn interrupt_enable_unmasks_at_the_owning_controller() {
    let mut p = pic_state();
    p.master_mask = 0xFF;
    p.slave_mask = 0xFF;
    let _ = intr::interrupt_enable(&mut p, InterruptID::Floppy);
    assert_eq!(p.master_mask, 0xFF & !(1 << 6));
    let _ = intr::interrupt_enable(&mut p, InterruptID::ATAPrimary);
    assert_eq!(p.slave_mask, 0xFF & !(1 << 6));
    let w = intr::interrupt_enable(&mut p, InterruptID::Breakpoint);
    assert!(w.is_empty());
}

#[test]
fn interrupt_disable_masks_at_the_owning_controller() {
    let mut p = pic_state();
    p.master_mask = 0;
    p.slave_mask = 0;
    let _ = intr::interrupt_disable(&mut p, InterruptID::PIT);
    assert_eq!(p.master_mask, 1);
    let _ = intr::interrupt_disable(&mut p, InterruptID::CMOSClock);
    assert_eq!(p.slave_mask, 1);
}

#[test]
fn idt_entry_splits_the_offset() {
    let e = IDTEntry::new(0x12345678, 0x0008, IDT_FLAGS_INTR_32);
    assert_eq!(e.offset_low, 0x5678);
    assert_eq!(e.offset_high, 0x1234);
    assert_eq!(e.segment, 8);
    assert_eq!(e.flags, 0x8e);
    assert_eq!(e.reserved, 0);
}

#[test]
fn idt_set_entry_rejects_out_of_range_vectors() {
    let mut idt = Idt::new();
    let e = IDTEntry::new(0x1000, 8, IDT_FLAGS_TRAP_32);
    assert!(idt.set_entry(47, &e).is_ok());
    assert_eq!(idt.set_entry(48, &e), Err(ErrorCode::OutOfBounds));
}

#[test]
fn intr_init_builds_trap_and_interrupt_gates() {
    let mut p = pic_state();
    let wrappers: Vec<usize> = (0..48usize).map(|i| 0x10000 + i * 16).collect();
    let (_idt, writes) = intr::init(&mut p, &wrappers);
    assert_eq!(p.master_offset, 0x20);
    assert_eq!(p.slave_offset, 0x28);
    assert_eq!(writes.len(), 10);
}

#[test]
fn gdt_has_the_five_boot_descriptors() {
    let g = gdt::init(0x7c00, 0x17c00);
    assert_eq!(g.len(), 5);
    assert_eq!(g[0], GDTEntry::new(0, 0, 0, 0));
    assert_eq!(g[1], GDTEntry::new(0x7c00, 0xFFFF, 0x4, 0x9b));
    assert_eq!(g[2], GDTEntry::new(0, 0xFFFF, 0x4, 0x93));
    assert_eq!(g[3], GDTEntry::new(0, 0xFFFF, 0x0, 0x9b));
    assert_eq!(g[4], GDTEntry::new(0, 0xFFFF, 0x0, 0x93));
}

#[test]
fn gdt_entry_packs_base_and_limit() {
    let e = GDTEntry::new(0xABCDEF12, 0x000FFFFF, 0x4, 0x9b);
    assert_eq!(e.base_low, 0xEF12);
    assert_eq!(e.base_mid, 0xCD);
    assert_eq!(e.base_high, 0xAB);
    assert_eq!(e.limit_low, 0xFFFF);
    assert_eq!(e.flags_limit_high, 0x0F | 0x4);
    assert_eq!(e.access, 0x9b);
}

#[test]
fn vga_put_char_advances_and_wraps() {
    let mut v = VGA::new();
    v.init();
    v.put_char(b'A');
    assert_eq!(v.cell_at(0, 0), 0x0741);
    assert_eq!(v.pos_x, 1);
    v.put_char(b'\n');
    assert_eq!(v.pos_x, 0);
    assert_eq!(v.pos_y, 1);
    for _ in 0..80 {
        v.put_char(b'x');
    }
    assert_eq!(v.pos_x, 0);
    assert_eq!(v.pos_y, 2);
}

#[test]
fn vga_scrolls_on_the_last_row() {
    let mut v = VGA::new();
    v.init();
    v.put_char(b'Z');
    for _ in 0..25 {
        v.put_char(b'\n');
    }
    assert_eq!(v.pos_y, 24);
    assert_eq!(v.cell_at(0, 0), 0);
    for x in 0..80 {
        assert_eq!(v.cell_at(x, 24), 0);
    }
}

#[test]
fn serial_divisor_matches_baud() {
    let cfg = SerialConfig { baud: 115200, rxfifo_sz: 16, txfifo_sz: 16, use_rts: false, use_dtr: false };
    let port = serial::create_port(SerialPortBase::COM1, &cfg);
    assert_eq!(port.port, 0x3f8);
    assert_eq!(port.divisor(), 1);
    assert_eq!(port.int_id, InterruptID::COM1);
    let w = port.init_writes();
    assert_eq!(w.len(), 8);
    assert_eq!(w[2], PortWrite { port: 0x3f8, value: 1 });
    assert_eq!(w[3], PortWrite { port: 0x3f9, value: 0 });
}

#[test]
fn serial_write_emits_when_transmitter_idle() {
    let cfg = SerialConfig { baud: 9600, rxfifo_sz: 8, txfifo_sz: 8, use_rts: false, use_dtr: false };
    let mut port = serial::create_port(SerialPortBase::COM2, &cfg);
    assert_eq!(port.port, 0x2f8);
    assert_eq!(port.int_id, InterruptID::COM2);
    let out = port.write_u8(b'h', 0x20);
    assert_eq!(out, Some(PortWrite { port: 0x2f8, value: b'h' }));
    let out = port.write_u8(b'i', 0x00);
    assert_eq!(out, None);
    assert_eq!(port.txfifo.len(), 1);
}

#[test]
fn phys_memory_holds_written_bytes() {
    let mut m = PhysMemory::new(0x1000, 16);
    let src = vec![1u8, 2, 3, 4];
    m.write_bytes(0x1004, &src, 1, 4);
    assert_eq!(m.get(0x1004), 2);
    assert_eq!(m.get(0x1006), 4);
    m.zero_range(0x1004, 2);
    assert_eq!(m.get(0x1004), 0);
    assert_eq!(m.get(0x1006), 4);
}

#[test]
fn error_codes_are_stable() {
    assert_eq!(ErrorCode::Unspecified.code(), 0);
    assert_eq!(ErrorCode::UnsupportedConfig.code(), 4);
    assert_eq!(ErrorCode::FileNotFound.code(), 8);
    assert_eq!(ErrorCode::ReadFailure.code(), 10);
}

#[test]
fn dispatch_routes_vectors_per_the_table() {
    // A registered handler is called; a master-PIC vector is acknowledged
    // at the master.
    let (action, writes) = dispatch_decision(38, true);
    assert_eq!(action, IsrAction::CallHandler);
    assert_eq!(writes, vec![PortWrite { port: 0x20, value: 0x20 }]);
    // A slave-PIC vector is acknowledged at both controllers.
    let (action, writes) = dispatch_decision(46, false);
    assert_eq!(action, IsrAction::ReportUnhandled);
    assert_eq!(
        writes,
        vec![PortWrite { port: 0xa0, value: 0x20 }, PortWrite { port: 0x20, value: 0x20 }]
    );
    // An unhandled exception dumps and halts; no EOI follows.
    let (action, writes) = dispatch_decision(13, false);
    assert_eq!(action, IsrAction::ExceptionHalt);
    assert!(writes.is_empty());
    // The unhandled timer tick is silently acknowledged.
    let (action, writes) = dispatch_decision(32, false);
    assert_eq!(action, IsrAction::Ignore);
    assert_eq!(writes, vec![PortWrite { port: 0x20, value: 0x20 }]);
    // Out-of-table vectors are ignored outright.
    let (action, writes) = dispatch_decision(200, true);
    assert_eq!(action, IsrAction::Ignore);
    assert!(writes.is_empty());
}

#[test]
fn serial_write_queues_until_the_line_is_ready() {
    let cfg = SerialConfig { baud: 9600, rxfifo_sz: 8, txfifo_sz: 8, use_rts: false, use_dtr: false };
    let mut port = serial::create_port(SerialPortBase::COM1, &cfg);
    // Transmitter busy: the byte queues, nothing is emitted.
    assert_eq!(port.write_u8(b'a', 0x00), None);
    assert_eq!(port.write_u8(b'b', 0x00), None);
    assert_eq!(port.txfifo.len(), 2);
    // Transmitter idle: the oldest queued byte goes to the data register.
    let out = port.write_u8(b'c', 0x20);
    assert_eq!(out, Some(PortWrite { port: 0x3f8, value: b'a' }));
    assert_eq!(port.txfifo.len(), 2);
}
