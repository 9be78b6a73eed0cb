//! Interrupt infrastructure: the vector tag set, IDT population for the 48
//! handler stubs, and enabling/disabling of single IRQs at the PIC.
//!
//! The `cli`/`sti`/`lidt` instructions and the low-level handler stubs cannot
//! be expressed here; the unverified runtime shell provides the 48 stub
//! addresses and loads the table this module builds.

use vstd::prelude::*;

use crate::errors::ErrorCode;
use crate::idt::{Idt, IDTEntry, IDT_ENTRIES, IDT_FLAGS_INTR_32, IDT_FLAGS_TRAP_32};
use crate::pic;
use crate::pic::{PicState, PortWrite, PIC_OFFSET_MASTER, PIC_OFFSET_SLAVE};

verus! {

/// Tag set of the interrupt vectors this design knows: CPU exceptions by
/// mnemonic, the IRQs delivered by the master PIC, and those delivered by
/// the slave PIC.
#[derive(Clone, Copy, Debug, PartialEq, Eq, Structural)]
pub enum InterruptID {
    DivideByZero,
    Debug,
    NonMaskableInterrupt,
    Breakpoint,
    Overflow,
    BoundRangeExceeded,
    InvalidOpcode,
    DeviceNotAvailable,
    DoubleFault,
    Reserved9,
    InvalidTSS,
    SegmentNotPresent,
    StackSegmentFault,
    GeneralProtectionFault,
    PageFault,
    Reserved15,
    FloatingPointFault,
    AlignmentCheck,
    MachineCheck,
    SIMDFloatingPointException,
    VirtualizationException,
    ControlProtectionException,
    /* Master PIC */
    PIT,
    Keyboard,
    Cascade,
    COM2,
    COM1,
    LPT2,
    Floppy,
    LPT1,
    /* Slave PIC */
    CMOSClock,
    IRQ9,
    IRQ10,
    IRQ11,
    PS2Mouse,
    Coprocessor,
    ATAPrimary,
    ATASecondary,
    MAX,
}

impl InterruptID {
    /// The vector number of this interrupt: exceptions at 0..=21, master-PIC
    /// IRQs at 32..=39, slave-PIC IRQs at 40..=47; `MAX` stands for the
    /// table size, 48.
    pub open spec fn spec_vector(self) -> u8 {
        match self {
            InterruptID::DivideByZero => 0,
            InterruptID::Debug => 1,
            InterruptID::NonMaskableInterrupt => 2,
            InterruptID::Breakpoint => 3,
            InterruptID::Overflow => 4,
            InterruptID::BoundRangeExceeded => 5,
            InterruptID::InvalidOpcode => 6,
            InterruptID::DeviceNotAvailable => 7,
            InterruptID::DoubleFault => 8,
            InterruptID::Reserved9 => 9,
            InterruptID::InvalidTSS => 10,
            InterruptID::SegmentNotPresent => 11,
            InterruptID::StackSegmentFault => 12,
            InterruptID::GeneralProtectionFault => 13,
            InterruptID::PageFault => 14,
            InterruptID::Reserved15 => 15,
            InterruptID::FloatingPointFault => 16,
            InterruptID::AlignmentCheck => 17,
            InterruptID::MachineCheck => 18,
            InterruptID::SIMDFloatingPointException => 19,
            InterruptID::VirtualizationException => 20,
            InterruptID::ControlProtectionException => 21,
            InterruptID::PIT => 32,
            InterruptID::Keyboard => 33,
            InterruptID::Cascade => 34,
            InterruptID::COM2 => 35,
            InterruptID::COM1 => 36,
            InterruptID::LPT2 => 37,
            InterruptID::Floppy => 38,
            InterruptID::LPT1 => 39,
            InterruptID::CMOSClock => 40,
            InterruptID::IRQ9 => 41,
            InterruptID::IRQ10 => 42,
            InterruptID::IRQ11 => 43,
            InterruptID::PS2Mouse => 44,
            InterruptID::Coprocessor => 45,
            InterruptID::ATAPrimary => 46,
            InterruptID::ATASecondary => 47,
            InterruptID::MAX => 48,
        }
    }

    /// The vector number of this interrupt.
    pub fn vector(self) -> (r: u8)
        ensures
            r == self.spec_vector(),
    {
        match self {
            InterruptID::DivideByZero => 0,
            InterruptID::Debug => 1,
            InterruptID::NonMaskableInterrupt => 2,
            InterruptID::Breakpoint => 3,
            InterruptID::Overflow => 4,
            InterruptID::BoundRangeExceeded => 5,
            InterruptID::InvalidOpcode => 6,
            InterruptID::DeviceNotAvailable => 7,
            InterruptID::DoubleFault => 8,
            InterruptID::Reserved9 => 9,
            InterruptID::InvalidTSS => 10,
            InterruptID::SegmentNotPresent => 11,
            InterruptID::StackSegmentFault => 12,
            InterruptID::GeneralProtectionFault => 13,
            InterruptID::PageFault => 14,
            InterruptID::Reserved15 => 15,
            InterruptID::FloatingPointFault => 16,
            InterruptID::AlignmentCheck => 17,
            InterruptID::MachineCheck => 18,
            InterruptID::SIMDFloatingPointException => 19,
            InterruptID::VirtualizationException => 20,
            InterruptID::ControlProtectionException => 21,
            InterruptID::PIT => 32,
            InterruptID::Keyboard => 33,
            InterruptID::Cascade => 34,
            InterruptID::COM2 => 35,
            InterruptID::COM1 => 36,
            InterruptID::LPT2 => 37,
            InterruptID::Floppy => 38,
            InterruptID::LPT1 => 39,
            InterruptID::CMOSClock => 40,
            InterruptID::IRQ9 => 41,
            InterruptID::IRQ10 => 42,
            InterruptID::IRQ11 => 43,
            InterruptID::PS2Mouse => 44,
            InterruptID::Coprocessor => 45,
            InterruptID::ATAPrimary => 46,
            InterruptID::ATASecondary => 47,
            InterruptID::MAX => 48,
        }
    }
}

/// The PIC state after unmasking the IRQ that delivers vector `v`: vectors
/// outside the two PIC ranges leave the state unchanged.
pub open spec fn spec_interrupt_enable(p: PicState, v: u8) -> PicState {
    if PIC_OFFSET_MASTER <= v < PIC_OFFSET_MASTER + 8 {
        pic::spec_unmask(p, (v - PIC_OFFSET_MASTER) as u8)
    } else if PIC_OFFSET_SLAVE <= v < PIC_OFFSET_SLAVE + 8 {
        pic::spec_unmask(p, (v - PIC_OFFSET_SLAVE + 8) as u8)
    } else {
        p
    }
}

/// Unmask the IRQ that delivers interrupt `id`, if `id` is PIC-derived.
pub fn interrupt_enable(pic: &mut PicState, id: InterruptID) -> (w: Vec<PortWrite>)
    ensures
        *final(pic) == spec_interrupt_enable(*old(pic), id.spec_vector()),
        id.spec_vector() < PIC_OFFSET_MASTER || id.spec_vector() >= PIC_OFFSET_SLAVE + 8
            ==> w@ == Seq::<PortWrite>::empty(),
{
    let id: u8 = id.vector();
    if (id >= PIC_OFFSET_MASTER) && (id < PIC_OFFSET_MASTER + 8) {
        pic::unmask(pic, id - PIC_OFFSET_MASTER)
    } else if (id >= PIC_OFFSET_SLAVE) && (id < PIC_OFFSET_SLAVE + 8) {
        pic::unmask(pic, id - PIC_OFFSET_SLAVE + 8)
    } else {
        let w: Vec<PortWrite> = Vec::new();
        proof {
            assert(w@ =~= Seq::<PortWrite>::empty());
        }
        w
    }
}

/// The PIC state after masking the IRQ that delivers vector `v`: vectors
/// outside the two PIC ranges leave the state unchanged.
pub open spec fn spec_interrupt_disable(p: PicState, v: u8) -> PicState {
    if PIC_OFFSET_MASTER <= v < PIC_OFFSET_MASTER + 8 {
        pic::spec_mask(p, (v - PIC_OFFSET_MASTER) as u8)
    } else if PIC_OFFSET_SLAVE <= v < PIC_OFFSET_SLAVE + 8 {
        pic::spec_mask(p, (v - PIC_OFFSET_SLAVE + 8) as u8)
    } else {
        p
    }
}

/// Mask the IRQ that delivers interrupt `id`, if `id` is PIC-derived.
pub fn interrupt_disable(pic: &mut PicState, id: InterruptID) -> (w: Vec<PortWrite>)
    ensures
        *final(pic) == spec_interrupt_disable(*old(pic), id.spec_vector()),
        id.spec_vector() < PIC_OFFSET_MASTER || id.spec_vector() >= PIC_OFFSET_SLAVE + 8
            ==> w@ == Seq::<PortWrite>::empty(),
{
    let id: u8 = id.vector();
    if (id >= PIC_OFFSET_MASTER) && (id < PIC_OFFSET_MASTER + 8) {
        pic::mask(pic, id - PIC_OFFSET_MASTER)
    } else if (id >= PIC_OFFSET_SLAVE) && (id < PIC_OFFSET_SLAVE + 8) {
        pic::mask(pic, id - PIC_OFFSET_SLAVE + 8)
    } else {
        let w: Vec<PortWrite> = Vec::new();
        proof {
            assert(w@ =~= Seq::<PortWrite>::empty());
        }
        w
    }
}

/// What the interrupt dispatcher does with a delivered vector.
#[derive(Clone, Copy, Debug, PartialEq, Eq, Structural)]
pub enum IsrAction {
    /// A handler is registered: invoke it with the vector and error code.
    CallHandler,
    /// An unhandled CPU exception: print the register dump and halt.
    ExceptionHalt,
    /// An unhandled interrupt above the exception range: report it and
    /// continue.
    ReportUnhandled,
    /// Nothing to do (an out-of-table vector, or the unhandled timer tick).
    Ignore,
}

/// The dispatch decision for a delivered vector: which action the shell
/// takes, and the end-of-interrupt writes owed to the PIC pair afterwards.
/// Vectors outside the 48-entry table are ignored; an unhandled exception
/// halts, so no EOI follows it; the unhandled timer tick is silently
/// acknowledged.
pub open spec fn spec_dispatch(vector: u8, has_handler: bool) -> (IsrAction, Seq<PortWrite>) {
    if vector >= 48 {
        (IsrAction::Ignore, Seq::empty())
    } else {
        let action = if has_handler {
            IsrAction::CallHandler
        } else if vector < 32 {
            IsrAction::ExceptionHalt
        } else if vector != 32 {
            IsrAction::ReportUnhandled
        } else {
            IsrAction::Ignore
        };
        let writes = if action == IsrAction::ExceptionHalt {
            Seq::empty()
        } else if PIC_OFFSET_MASTER <= vector <= PIC_OFFSET_MASTER + 8 {
            pic::spec_eoi_writes((vector - PIC_OFFSET_MASTER) as u8)
        } else if PIC_OFFSET_SLAVE <= vector <= PIC_OFFSET_SLAVE + 8 {
            pic::spec_eoi_writes((vector - PIC_OFFSET_SLAVE + 8) as u8)
        } else {
            Seq::empty()
        };
        (action, writes)
    }
}

/// Decide what to do with a delivered vector: the action for the shell to
/// take, and the EOI port writes to replay after a handler or report
/// returns. The shell's dispatcher calls this with whether a handler is
/// registered for the vector, performs the action, then issues the writes.
pub fn dispatch_decision(vector: u8, has_handler: bool) -> (r: (IsrAction, Vec<PortWrite>))
    ensures
        r.0 == spec_dispatch(vector, has_handler).0,
        r.1@ == spec_dispatch(vector, has_handler).1,
{
    if vector >= 48 {
        let w: Vec<PortWrite> = Vec::new();
        proof {
            assert(w@ =~= Seq::<PortWrite>::empty());
        }
        return (IsrAction::Ignore, w);
    }
    let action = if has_handler {
        IsrAction::CallHandler
    } else if vector < 32 {
        IsrAction::ExceptionHalt
    } else if vector != 32 {
        IsrAction::ReportUnhandled
    } else {
        IsrAction::Ignore
    };
    let writes = if action == IsrAction::ExceptionHalt {
        let w: Vec<PortWrite> = Vec::new();
        proof {
            assert(w@ =~= Seq::<PortWrite>::empty());
        }
        w
    } else if vector >= PIC_OFFSET_MASTER && vector <= PIC_OFFSET_MASTER + 8 {
        pic::eoi(vector - PIC_OFFSET_MASTER)
    } else if vector >= PIC_OFFSET_SLAVE && vector <= PIC_OFFSET_SLAVE + 8 {
        pic::eoi(vector - PIC_OFFSET_SLAVE + 8)
    } else {
        let w: Vec<PortWrite> = Vec::new();
        proof {
            assert(w@ =~= Seq::<PortWrite>::empty());
        }
        w
    };
    (action, writes)
}

/// Gate flags of vector `idx`: exceptions are trap gates, all others
/// interrupt gates.
pub open spec fn spec_gate_flags(idx: int) -> u8 {
    if idx < 32 {
        IDT_FLAGS_TRAP_32
    } else {
        IDT_FLAGS_INTR_32
    }
}

/// Route vector `idx` to the low-level stub at address `wrapper`, through the
/// 32-bit code selector, as a trap gate for exceptions and an interrupt gate
/// otherwise.
pub fn idt_set_wrapper(idt: &mut Idt, idx: usize, wrapper: usize)
    requires
        old(idt).wf(),
    ensures
        final(idt).wf(),
        idx < IDT_ENTRIES ==> final(idt).view() == old(idt).view().update(
            idx as int,
            IDTEntry::spec_new(wrapper, 0x0008, spec_gate_flags(idx as int)),
        ),
        idx >= IDT_ENTRIES ==> final(idt).view() == old(idt).view(),
{
    /* Exceptions are traps, all others interrupts */
    let flags = if idx < 32 {
        IDT_FLAGS_TRAP_32
    } else {
        IDT_FLAGS_INTR_32
    };
    let entry = IDTEntry::new(wrapper, 0x0008, flags);
    let _ = idt.set_entry(idx, &entry);
}

/// Point all 48 vectors at their low-level stubs, whose addresses the caller
/// passes in vector order.
pub fn isr_wrappers_init(idt: &mut Idt, wrappers: &Vec<usize>)
    requires
        old(idt).wf(),
        wrappers@.len() == IDT_ENTRIES,
    ensures
        final(idt).wf(),
        forall|i: int|
            0 <= i < IDT_ENTRIES ==> final(idt).view()[i] == IDTEntry::spec_new(
                wrappers@[i],
                0x0008,
                spec_gate_flags(i),
            ),
{
    let mut i: usize = 0;
    while i < IDT_ENTRIES
        invariant
            idt.wf(),
            i <= IDT_ENTRIES,
            wrappers@.len() == IDT_ENTRIES,
            forall|j: int|
                0 <= j < i ==> idt.view()[j] == IDTEntry::spec_new(
                    wrappers@[j],
                    0x0008,
                    spec_gate_flags(j),
                ),
        decreases IDT_ENTRIES - i,
    {
        idt_set_wrapper(idt, i, wrappers[i]);
        i = i + 1;
    }
}

/// Build the interrupt infrastructure: an IDT whose 48 vectors point at the
/// given stubs, and the PIC remapped to the protected-mode vector bases. The
/// caller must load the returned table and replay the returned port writes
/// with interrupts disabled, then enable interrupts.
pub fn init(pic: &mut PicState, wrappers: &Vec<usize>) -> (r: (Idt, Vec<PortWrite>))
    requires
        wrappers@.len() == IDT_ENTRIES,
    ensures
        r.0.wf(),
        forall|i: int|
            0 <= i < IDT_ENTRIES ==> r.0.view()[i] == IDTEntry::spec_new(
                wrappers@[i],
                0x0008,
                spec_gate_flags(i),
            ),
        *final(pic) == pic::spec_remap(*old(pic), PIC_OFFSET_MASTER, PIC_OFFSET_SLAVE),
        r.1@ == pic::spec_remap_writes(
            old(pic).master_mask,
            old(pic).slave_mask,
            PIC_OFFSET_MASTER,
            PIC_OFFSET_SLAVE,
        ),
{
    let mut idt = Idt::new();
    isr_wrappers_init(&mut idt, wrappers);
    let w = pic::remap(pic);
    (idt, w)
}

} // verus!
