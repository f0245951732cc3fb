//! The serial port (COM port) driver's decisions: port addresses, the
//! initialization sequence and what is written for a byte.
use vstd::prelude::*;

use crate::port::IoPort;

verus! {

/// Line status bit: the port can take a byte.
pub const READY_TO_WRITE: u8 = 0x20;

/// Standardized I/O port base addresses for the first four COM ports.
#[derive(Clone, Copy, Debug, PartialEq, Eq, Structural)]
pub enum ComBaseAddress {
    Com1,
    Com2,
    Com3,
    Com4,
}

pub open spec fn base_of(b: ComBaseAddress) -> u16 {
    match b {
        ComBaseAddress::Com1 => 0x3f8,
        ComBaseAddress::Com2 => 0x2f8,
        ComBaseAddress::Com3 => 0x3e8,
        ComBaseAddress::Com4 => 0x2e8,
    }
}

impl ComBaseAddress {
    /// The port address of the COM port's data register.
    pub fn base(&self) -> (r: u16)
        ensures
            r == base_of(*self),
    {
        match self {
            ComBaseAddress::Com1 => 0x3f8,
            ComBaseAddress::Com2 => 0x2f8,
            ComBaseAddress::Com3 => 0x3e8,
            ComBaseAddress::Com4 => 0x2e8,
        }
    }
}

/// A COM port, given by the ports of its registers.
#[derive(Clone, Copy, Debug, PartialEq, Eq)]
pub struct ComPort {
    /// I/O port where output is written to.
    pub data_port: IoPort,
    /// Interrupt control register (also the divisor's high byte while DLAB is set).
    pub interrupt_control_port: IoPort,
    /// Configuration register for the line protocol.
    pub line_control_port: IoPort,
    /// Status register for the line protocol.
    pub line_status_port: IoPort,
}

impl ComPort {
    /// Create a new COM port.
    pub fn new(base_addr: ComBaseAddress) -> (c: ComPort)
        ensures
            c.data_port.number == base_of(base_addr),
            c.interrupt_control_port.number == base_of(base_addr) + 1,
            c.line_control_port.number == base_of(base_addr) + 3,
            c.line_status_port.number == base_of(base_addr) + 5,
    {
        let base = base_addr.base();
        ComPort {
            data_port: IoPort::new(base),
            interrupt_control_port: IoPort::new(base + 1),
            line_control_port: IoPort::new(base + 3),
            line_status_port: IoPort::new(base + 5),
        }
    }

    /// The writes that initialize the port: disable interrupts, set the
    /// divisor to 1 (115200 baud) and select 8 data bits, 1 stop bit, no parity.
    pub fn init_writes(&self) -> (w: Vec<(IoPort, u8)>)
        ensures
            w@ == seq![
                (self.interrupt_control_port, 0x00u8),
                (self.line_control_port, 0x80u8),
                (self.data_port, 0x01u8),
                (self.interrupt_control_port, 0x00u8),
                (self.line_control_port, 0x03u8),
            ],
    {
        let mut w: Vec<(IoPort, u8)> = Vec::new();
        w.push((self.interrupt_control_port, 0x00));
        w.push((self.line_control_port, 0x80));
        w.push((self.data_port, 0x01));
        w.push((self.interrupt_control_port, 0x00));
        w.push((self.line_control_port, 0x03));
        assert(w@ =~= seq![
            (self.interrupt_control_port, 0x00u8),
            (self.line_control_port, 0x80u8),
            (self.data_port, 0x01u8),
            (self.interrupt_control_port, 0x00u8),
            (self.line_control_port, 0x03u8),
        ]);
        w
    }

    /// The line status says the port can take a byte.
    pub fn ready_to_write(line_status: u8) -> (r: bool)
        ensures
            r == (line_status & READY_TO_WRITE != 0),
    {
        line_status & READY_TO_WRITE != 0
    }

    /// The bytes sent for `byte`: a newline goes out as carriage return and newline.
    pub fn bytes_for(byte: u8) -> (b: Vec<u8>)
        ensures
            b@ == if byte == 0x0Au8 { seq![0x0Du8, 0x0Au8] } else { seq![byte] },
    {
        let mut b: Vec<u8> = Vec::new();
        if byte == 0x0A {
            b.push(0x0D);
        }
        b.push(byte);
        proof {
            if byte == 0x0A {
                assert(b@ =~= seq![0x0Du8, 0x0Au8]);
            } else {
                assert(b@ =~= seq![byte]);
            }
        }
        b
    }
}

} // verus!
