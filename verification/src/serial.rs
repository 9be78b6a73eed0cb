//! 8250 UART driver state: port selection, divisor computation, the
//! initialisation register sequence, and the transmit/receive FIFOs that
//! decouple interrupt context from user writes. The `in`/`out` instructions
//! themselves are replayed by the unverified runtime shell from the
//! [`PortWrite`] sequences computed here.

use vstd::prelude::*;

use crate::fifo::FIFO;
use crate::intr::InterruptID;
use crate::pic::PortWrite;

verus! {

/// Rx/Tx buffer register offset.
pub const SERIAL_REG_DATA: u16 = 0;

/// Interrupt enable register offset.
pub const SERIAL_REG_IER: u16 = 1;

/// FIFO control register offset.
pub const SERIAL_REG_FCR: u16 = 2;

/// Line control register offset.
pub const SERIAL_REG_LCR: u16 = 3;

/// Modem control register offset.
pub const SERIAL_REG_MCR: u16 = 4;

/// Line status register offset.
pub const SERIAL_REG_LSR: u16 = 5;

/// Divisor latch low register offset, with the divisor latch open.
pub const SERIAL_REG_DLL: u16 = 0;

/// Divisor latch high register offset, with the divisor latch open.
pub const SERIAL_REG_DLM: u16 = 1;

/// Serial port configuration.
#[derive(Clone, Copy, Debug, PartialEq, Eq, Structural)]
pub struct SerialConfig {
    /// Desired baud rate.
    pub baud: u32,
    /// Size of the receive FIFO.
    pub rxfifo_sz: usize,
    /// Size of the transmit FIFO.
    pub txfifo_sz: usize,
    /// Enable RTS/CTS flow control.
    pub use_rts: bool,
    /// Enable DTR/DSR flow control.
    pub use_dtr: bool,
}

/// The standard base I/O ports of the four UARTs.
#[derive(Clone, Copy, Debug, PartialEq, Eq, Structural)]
pub enum SerialPortBase {
    COM1,
    COM2,
    COM3,
    COM4,
}

impl SerialPortBase {
    /// The base I/O port of this UART.
    pub open spec fn spec_port(self) -> u16 {
        match self {
            SerialPortBase::COM1 => 0x3f8,
            SerialPortBase::COM2 => 0x2f8,
            SerialPortBase::COM3 => 0x3e8,
            SerialPortBase::COM4 => 0x2e8,
        }
    }

    /// The base I/O port of this UART.
    pub fn port(self) -> (r: u16)
        ensures
            r == self.spec_port(),
    {
        match self {
            SerialPortBase::COM1 => 0x3f8,
            SerialPortBase::COM2 => 0x2f8,
            SerialPortBase::COM3 => 0x3e8,
            SerialPortBase::COM4 => 0x2e8,
        }
    }
}

/// A serial port: its configuration, base port, the interrupt that serves
/// it, the software FIFOs and the line-status flags.
pub struct SerialPort {
    pub cfg: SerialConfig,
    pub port: u16,
    pub int_id: InterruptID,
    pub rxfifo: FIFO<u8>,
    pub txfifo: FIFO<u8>,
    pub status_overrun: bool,
    pub status_framing: bool,
}

impl SerialPort {
    /// Structural invariant: usable FIFOs.
    pub open spec fn wf(&self) -> bool {
        &&& self.rxfifo.wf()
        &&& self.txfifo.wf()
    }

    /// The 8N1 divisor for the configured baud rate: `115200 / baud`,
    /// truncated.
    pub fn divisor(&self) -> (r: u16)
        requires
            2 <= self.cfg.baud,
        ensures
            r == 115200u32 / self.cfg.baud,
    {
        proof {
            assert(115200 as int / (self.cfg.baud as int) <= 57600) by (nonlinear_arith)
                requires
                    self.cfg.baud >= 2,
            ;
        }
        (115200 / self.cfg.baud) as u16
    }

    /// The register writes that initialise the UART: interrupts off, the
    /// divisor latched, 8N1 framing, the hardware FIFO disabled, outputs
    /// raised, and receive/transmit/line-status interrupts enabled.
    pub fn init_writes(&self) -> (w: Vec<PortWrite>)
        requires
            2 <= self.cfg.baud,
            self.port <= 0xFF00,
        ensures
            w@.len() == 8,
            w@[0] == (PortWrite { port: (self.port + SERIAL_REG_IER) as u16, value: 0 }),
            w@[1] == (PortWrite { port: (self.port + SERIAL_REG_LCR) as u16, value: 0x80 }),
            w@[2] == (PortWrite {
                port: (self.port + SERIAL_REG_DLL) as u16,
                value: (115200u32 / self.cfg.baud % 0x100) as u8,
            }),
            w@[3] == (PortWrite {
                port: (self.port + SERIAL_REG_DLM) as u16,
                value: (115200u32 / self.cfg.baud / 0x100 % 0x100) as u8,
            }),
            w@[4] == (PortWrite { port: (self.port + SERIAL_REG_LCR) as u16, value: 0x03 }),
            w@[5] == (PortWrite { port: (self.port + SERIAL_REG_FCR) as u16, value: 0x06 }),
            w@[6] == (PortWrite { port: (self.port + SERIAL_REG_MCR) as u16, value: 0x0f }),
            w@[7] == (PortWrite { port: (self.port + SERIAL_REG_IER) as u16, value: 0x07 }),
    {
        let div: u16 = self.divisor();
        let mut w: Vec<PortWrite> = Vec::new();
        w.push(PortWrite { port: self.port + SERIAL_REG_IER, value: 0 });
        /* Open the divisor latch (DLAB) */
        w.push(PortWrite { port: self.port + SERIAL_REG_LCR, value: 0x80 });
        w.push(PortWrite { port: self.port + SERIAL_REG_DLL, value: (div % 0x100) as u8 });
        w.push(PortWrite { port: self.port + SERIAL_REG_DLM, value: (div / 0x100) as u8 });
        /* 8N1 */
        w.push(PortWrite { port: self.port + SERIAL_REG_LCR, value: 0x03 });
        /* Disable the hardware FIFO, resetting both directions */
        w.push(PortWrite { port: self.port + SERIAL_REG_FCR, value: 0x06 });
        /* Raise DTR, RTS, OUT1 and OUT2 */
        w.push(PortWrite { port: self.port + SERIAL_REG_MCR, value: 0x0f });
        /* Enable receive, transmit-empty and line-status interrupts */
        w.push(PortWrite { port: self.port + SERIAL_REG_IER, value: 0x07 });
        w
    }

    /// Whether the transmitter holding register is empty, from a read of
    /// the line status register.
    pub fn tx_ready(&self, lsr: u8) -> (r: bool)
        ensures
            r == ((lsr / 32) % 2 == 1),
    {
        (lsr / 32) % 2 == 1
    }

    /// Queue one byte for transmission (dropped when the FIFO is full).
    /// When the transmitter is idle per the given line-status byte, the
    /// oldest queued byte is dequeued and returned as the write to the data
    /// register; otherwise nothing is emitted.
    pub fn write_u8(&mut self, data: u8, lsr: u8) -> (r: Option<PortWrite>)
        requires
            old(self).wf(),
            old(self).port <= 0xFF00,
        ensures
            final(self).wf(),
            final(self).port == old(self).port,
            final(self).cfg == old(self).cfg,
            final(self).int_id == old(self).int_id,
            final(self).rxfifo == old(self).rxfifo,
            final(self).status_overrun == old(self).status_overrun,
            final(self).status_framing == old(self).status_framing,
            ({
                let q1 = if old(self).txfifo.contents().len() == old(self).txfifo.capacity() {
                    old(self).txfifo.contents()
                } else {
                    old(self).txfifo.contents().push(data)
                };
                if (lsr / 32) % 2 == 1 && q1.len() > 0 {
                    &&& r == Some(
                        PortWrite { port: (old(self).port + SERIAL_REG_DATA) as u16, value: q1[0] },
                    )
                    &&& final(self).txfifo.contents() == q1.subrange(1, q1.len() as int)
                } else {
                    &&& r is None
                    &&& final(self).txfifo.contents() == q1
                }
            }),
    {
        let ghost pre = *self;
        proof {
            crate::fifo::lemma_fifo_len_bound(pre.txfifo);
        }
        let _ = self.txfifo.enqueue(data);
        let ghost q1 = if pre.txfifo.contents().len() == pre.txfifo.capacity() {
            pre.txfifo.contents()
        } else {
            pre.txfifo.contents().push(data)
        };
        proof {
            assert(self.txfifo.contents() =~= q1);
        }
        if self.tx_ready(lsr) {
            match self.txfifo.dequeue() {
                Some(val) => {
                    proof {
                        assert(self.txfifo.contents() =~= q1.subrange(1, q1.len() as int));
                    }
                    return Some(PortWrite { port: self.port + SERIAL_REG_DATA, value: val });
                },
                None => {
                    proof {
                        assert(q1.len() == 0);
                        assert(self.txfifo.contents() =~= q1);
                    }
                    return None;
                },
            }
        }
        None
    }
}

/// Create a serial port over the given UART, with its software FIFOs
/// allocated up front so that the interrupt path never allocates.
pub fn create_port(port: SerialPortBase, cfg: &SerialConfig) -> (r: SerialPort)
    requires
        1 <= cfg.rxfifo_sz,
        1 <= cfg.txfifo_sz,
    ensures
        r.wf(),
        r.cfg == *cfg,
        r.port == port.spec_port(),
        r.int_id == (if port == SerialPortBase::COM1 || port == SerialPortBase::COM3 {
            InterruptID::COM1
        } else {
            InterruptID::COM2
        }),
        !r.status_overrun,
        !r.status_framing,
{
    let int_id = if port == SerialPortBase::COM1 || port == SerialPortBase::COM3 {
        InterruptID::COM1
    } else {
        InterruptID::COM2
    };
    SerialPort {
        cfg: *cfg,
        port: port.port(),
        int_id,
        rxfifo: FIFO::new(cfg.rxfifo_sz),
        txfifo: FIFO::new(cfg.txfifo_sz),
        status_overrun: false,
        status_framing: false,
    }
}

} // verus!
