//! 8259A programmable-interrupt-controller driver.
//!
//! The two controllers' registers are modeled by [`PicState`]; every operation
//! updates the model and returns the exact sequence of I/O-port writes that
//! realises it on the hardware. The caller (the unverified runtime shell)
//! replays those writes with `out` instructions. The mask bytes live in the
//! model rather than being read back with `in`, because this driver is the
//! only writer of the PIC registers.

use vstd::prelude::*;

verus! {

/// One byte written to an I/O port.
#[derive(Clone, Copy, Debug, PartialEq, Eq, Structural)]
pub struct PortWrite {
    pub port: u16,
    pub value: u8,
}

/// The software-visible state of the master/slave 8259A pair: the two OCW1
/// mask bytes and the vector offsets the controllers were programmed with.
#[derive(Clone, Copy, Debug, PartialEq, Eq, Structural)]
pub struct PicState {
    pub master_mask: u8,
    pub slave_mask: u8,
    pub master_offset: u8,
    pub slave_offset: u8,
}

/// Protected-mode vector base of the master PIC.
pub const PIC_OFFSET_MASTER: u8 = 32;

/// Protected-mode vector base of the slave PIC.
pub const PIC_OFFSET_SLAVE: u8 = PIC_OFFSET_MASTER + 8;

/// BIOS-era vector base of the master PIC.
pub const PIC_BIOS_OFFSET_MASTER: u8 = 0x08;

/// BIOS-era vector base of the slave PIC.
pub const PIC_BIOS_OFFSET_SLAVE: u8 = 0x70;

pub const PIC1_BASE: u16 = 0x20;

pub const PIC2_BASE: u16 = 0xa0;

pub const PIC1_COMMAND: u16 = PIC1_BASE;

pub const PIC1_DATA: u16 = PIC1_BASE + 1;

pub const PIC2_COMMAND: u16 = PIC2_BASE;

pub const PIC2_DATA: u16 = PIC2_BASE + 1;

/// ICW4 needed.
pub const PIC_ICW1_IC4: u8 = 1;

/// Bit that is always set in ICW1.
pub const PIC_ICW1_1: u8 = 16;

/// 8086/8088 mode.
pub const PIC_ICW4_UPM: u8 = 1;

/// End of interrupt.
pub const PIC_OCW2_EOI: u8 = 32;

/// The PIC state after remapping to vector bases `master` and `slave`:
/// offsets change, mask bytes are preserved.
pub open spec fn spec_remap(p: PicState, master: u8, slave: u8) -> PicState {
    PicState { master_offset: master, slave_offset: slave, ..p }
}

/// The ICW1..ICW4 programming sequence that remaps the pair to vector bases
/// `master` and `slave` and then restores the saved mask bytes.
pub open spec fn spec_remap_writes(m_mask: u8, s_mask: u8, master: u8, slave: u8) -> Seq<
    PortWrite,
> {
    seq![
        PortWrite { port: PIC1_COMMAND, value: PIC_ICW1_IC4 | PIC_ICW1_1 },
        PortWrite { port: PIC2_COMMAND, value: PIC_ICW1_IC4 | PIC_ICW1_1 },
        PortWrite { port: PIC1_DATA, value: master },
        PortWrite { port: PIC2_DATA, value: slave },
        PortWrite { port: PIC1_DATA, value: 4 },
        PortWrite { port: PIC2_DATA, value: 2 },
        PortWrite { port: PIC1_DATA, value: PIC_ICW4_UPM },
        PortWrite { port: PIC2_DATA, value: PIC_ICW4_UPM },
        PortWrite { port: PIC1_DATA, value: m_mask },
        PortWrite { port: PIC2_DATA, value: s_mask },
    ]
}

fn remap_pic(pic: &mut PicState, master: u8, slave: u8) -> (w: Vec<PortWrite>)
    ensures
        *final(pic) == spec_remap(*old(pic), master, slave),
        w@ == spec_remap_writes(old(pic).master_mask, old(pic).slave_mask, master, slave),
{
    let m_mask = pic.master_mask;
    let s_mask = pic.slave_mask;

    let mut w: Vec<PortWrite> = Vec::new();
    /* ICW 1 */
    w.push(PortWrite { port: PIC1_COMMAND, value: PIC_ICW1_IC4 | PIC_ICW1_1 });
    w.push(PortWrite { port: PIC2_COMMAND, value: PIC_ICW1_IC4 | PIC_ICW1_1 });
    /* ICW 2 - vector offset */
    w.push(PortWrite { port: PIC1_DATA, value: master });
    w.push(PortWrite { port: PIC2_DATA, value: slave });
    /* ICW 3: IRQ2 as slave input; slave identity is 2 */
    w.push(PortWrite { port: PIC1_DATA, value: 4 });
    w.push(PortWrite { port: PIC2_DATA, value: 2 });
    /* ICW 4 */
    w.push(PortWrite { port: PIC1_DATA, value: PIC_ICW4_UPM });
    w.push(PortWrite { port: PIC2_DATA, value: PIC_ICW4_UPM });
    /* Restore the saved masks */
    w.push(PortWrite { port: PIC1_DATA, value: m_mask });
    w.push(PortWrite { port: PIC2_DATA, value: s_mask });

    pic.master_offset = master;
    pic.slave_offset = slave;

    proof {
        assert(w@ =~= spec_remap_writes(m_mask, s_mask, master, slave));
    }
    w
}

/// Remap the pair to the protected-mode vector bases (0x20/0x28).
pub fn remap(pic: &mut PicState) -> (w: Vec<PortWrite>)
    ensures
        *final(pic) == spec_remap(*old(pic), PIC_OFFSET_MASTER, PIC_OFFSET_SLAVE),
        w@ == spec_remap_writes(
            old(pic).master_mask,
            old(pic).slave_mask,
            PIC_OFFSET_MASTER,
            PIC_OFFSET_SLAVE,
        ),
{
    remap_pic(pic, PIC_OFFSET_MASTER, PIC_OFFSET_SLAVE)
}

/// Remap the pair to the BIOS-era vector bases (0x08/0x70), for the duration
/// of a BIOS call.
pub fn remap_bios(pic: &mut PicState) -> (w: Vec<PortWrite>)
    ensures
        *final(pic) == spec_remap(*old(pic), PIC_BIOS_OFFSET_MASTER, PIC_BIOS_OFFSET_SLAVE),
        w@ == spec_remap_writes(
            old(pic).master_mask,
            old(pic).slave_mask,
            PIC_BIOS_OFFSET_MASTER,
            PIC_BIOS_OFFSET_SLAVE,
        ),
{
    remap_pic(pic, PIC_BIOS_OFFSET_MASTER, PIC_BIOS_OFFSET_SLAVE)
}

/// The end-of-interrupt command sequence for `irq_id`: the slave receives EOI
/// only for IRQs 8..15; the master always does, due to cascading.
pub open spec fn spec_eoi_writes(irq_id: u8) -> Seq<PortWrite> {
    if irq_id >= 8 {
        seq![
            PortWrite { port: PIC2_COMMAND, value: PIC_OCW2_EOI },
            PortWrite { port: PIC1_COMMAND, value: PIC_OCW2_EOI },
        ]
    } else {
        seq![PortWrite { port: PIC1_COMMAND, value: PIC_OCW2_EOI }]
    }
}

/// Acknowledge service completion of `irq_id` to the controller pair.
pub fn eoi(irq_id: u8) -> (w: Vec<PortWrite>)
    ensures
        w@ == spec_eoi_writes(irq_id),
{
    let mut w: Vec<PortWrite> = Vec::new();
    if irq_id >= 8 {
        w.push(PortWrite { port: PIC2_COMMAND, value: PIC_OCW2_EOI });
    }
    /* Due to chaining, EOI always needs to be commanded to the master */
    w.push(PortWrite { port: PIC1_COMMAND, value: PIC_OCW2_EOI });
    proof {
        assert(w@ =~= spec_eoi_writes(irq_id));
    }
    w
}

/// The PIC state after masking `irq_id`: the bit for the IRQ is set in the
/// owning controller's mask byte.
pub open spec fn spec_mask(p: PicState, irq_id: u8) -> PicState {
    if irq_id >= 8 {
        PicState { slave_mask: p.slave_mask | (1u8 << ((irq_id - 8) as u8)), ..p }
    } else {
        PicState { master_mask: p.master_mask | (1u8 << irq_id), ..p }
    }
}

/// Mask (disable) `irq_id` at the controller that owns it.
pub fn mask(pic: &mut PicState, irq_id: u8) -> (w: Vec<PortWrite>)
    requires
        irq_id < 16,
    ensures
        *final(pic) == spec_mask(*old(pic), irq_id),
        w@ == (if irq_id >= 8 {
            seq![PortWrite { port: PIC2_DATA, value: final(pic).slave_mask }]
        } else {
            seq![PortWrite { port: PIC1_DATA, value: final(pic).master_mask }]
        }),
{
    let mut w: Vec<PortWrite> = Vec::new();
    if irq_id >= 8 {
        let m = pic.slave_mask | (1u8 << (irq_id - 8));
        pic.slave_mask = m;
        w.push(PortWrite { port: PIC2_DATA, value: m });
        proof {
            assert(w@ =~= seq![PortWrite { port: PIC2_DATA, value: m }]);
        }
    } else {
        let m = pic.master_mask | (1u8 << irq_id);
        pic.master_mask = m;
        w.push(PortWrite { port: PIC1_DATA, value: m });
        proof {
            assert(w@ =~= seq![PortWrite { port: PIC1_DATA, value: m }]);
        }
    }
    w
}

/// The PIC state after unmasking `irq_id`: the bit for the IRQ is cleared in
/// the owning controller's mask byte.
pub open spec fn spec_unmask(p: PicState, irq_id: u8) -> PicState {
    if irq_id >= 8 {
        PicState { slave_mask: p.slave_mask & !(1u8 << ((irq_id - 8) as u8)), ..p }
    } else {
        PicState { master_mask: p.master_mask & !(1u8 << irq_id), ..p }
    }
}

/// Unmask (enable) `irq_id` at the controller that owns it.
pub fn unmask(pic: &mut PicState, irq_id: u8) -> (w: Vec<PortWrite>)
    requires
        irq_id < 16,
    ensures
        *final(pic) == spec_unmask(*old(pic), irq_id),
        w@ == (if irq_id >= 8 {
            seq![PortWrite { port: PIC2_DATA, value: final(pic).slave_mask }]
        } else {
            seq![PortWrite { port: PIC1_DATA, value: final(pic).master_mask }]
        }),
{
    let mut w: Vec<PortWrite> = Vec::new();
    if irq_id >= 8 {
        let m = pic.slave_mask & !(1u8 << (irq_id - 8));
        pic.slave_mask = m;
        w.push(PortWrite { port: PIC2_DATA, value: m });
        proof {
            assert(w@ =~= seq![PortWrite { port: PIC2_DATA, value: m }]);
        }
    } else {
        let m = pic.master_mask & !(1u8 << irq_id);
        pic.master_mask = m;
        w.push(PortWrite { port: PIC1_DATA, value: m });
        proof {
            assert(w@ =~= seq![PortWrite { port: PIC1_DATA, value: m }]);
        }
    }
    w
}

/// Remap round-trip law: remapping to the BIOS vector bases and back to the
/// protected-mode bases restores the master and slave mask bytes exactly, and
/// leaves the pair at the protected-mode offsets.
pub proof fn lemma_remap_round_trip(p: PicState)
    ensures
        spec_remap(
            spec_remap(p, PIC_BIOS_OFFSET_MASTER, PIC_BIOS_OFFSET_SLAVE),
            PIC_OFFSET_MASTER,
            PIC_OFFSET_SLAVE,
        ) == (PicState {
            master_offset: PIC_OFFSET_MASTER,
            slave_offset: PIC_OFFSET_SLAVE,
            ..p
        }),
{
}

} // verus!
