//! The programmable interval timer (PIT): the divisor that sets the
//! interrupt interval, and the decisions of the timer interrupt.
use vstd::prelude::*;

use crate::port::IoPort;

verus! {

/// Frequency of the timer in Hz.
pub const TIMER_FREQUENCY: usize = 1193182;

/// Nanoseconds that pass per timer tick.
pub const NANOSECONDS_PER_TICK: usize = 838;

/// The interval at which the timer generates interrupts, in milliseconds.
pub const TIMER_INTERRUPT_INTERVAL_MS: usize = 1;

/// PIT registers.
pub const CONTROL_REGISTER: u16 = 0x43;
pub const DATA_REGISTER: u16 = 0x40;

/// Command byte: channel 0, low byte then high byte, rate generator, binary.
pub const RATE_GENERATOR_COMMAND: u8 = 0x36;

/// The spinner advances every this many milliseconds.
pub const SPINNER_PERIOD_MS: usize = 250;

/// The CPU is yielded every this many milliseconds.
pub const YIELD_PERIOD_MS: usize = 10;

/// Represents the programmable interval timer.
pub struct Timer {
    control_port: IoPort,
    data_port0: IoPort,
}

/// What the timer interrupt does after a tick.
#[derive(Clone, Copy, Debug, PartialEq, Eq)]
pub struct TickAction {
    /// The system time after the tick, in milliseconds.
    pub new_time: usize,
    /// The spinner character to draw, if the spinner advances.
    pub spinner: Option<char>,
    /// Whether the scheduler should switch threads.
    pub yield_cpu: bool,
}

/// The spinner character for spinner step `i`.
pub open spec fn spinner_char(i: int) -> char {
    if i == 0 {
        '|'
    } else if i == 1 {
        '/'
    } else if i == 2 {
        '-'
    } else {
        '\\'
    }
}

/// The divisor for an interrupt every `interval_ms` milliseconds, cut to the 16 bits the PIT takes.
pub open spec fn divisor_for(interval_ms: int) -> int {
    (TIMER_FREQUENCY * interval_ms / 1000) % 0x1_0000
}

impl Timer {
    pub closed spec fn control_port_spec(&self) -> IoPort {
        self.control_port
    }

    pub closed spec fn data_port_spec(&self) -> IoPort {
        self.data_port0
    }

    /// Create a new Timer instance.
    pub fn new() -> (t: Timer)
        ensures
            t.control_port_spec().number == CONTROL_REGISTER,
            t.data_port_spec().number == DATA_REGISTER,
    {
        Timer { control_port: IoPort::new(CONTROL_REGISTER), data_port0: IoPort::new(DATA_REGISTER) }
    }

    /// The port of the command register.
    pub fn control_port(&self) -> (p: IoPort)
        ensures
            p == self.control_port_spec(),
    {
        self.control_port
    }

    /// The port of channel 0.
    pub fn data_port0(&self) -> (p: IoPort)
        ensures
            p == self.data_port_spec(),
    {
        self.data_port0
    }

    /// The bytes that set the interrupt interval to `interval_ms` milliseconds:
    /// the command byte for the control port, then the divisor's low and high
    /// byte for channel 0.
    pub fn interval_bytes(interval_ms: usize) -> (r: (u8, u8, u8))
        requires
            TIMER_FREQUENCY * interval_ms <= usize::MAX,
        ensures
            r.0 == RATE_GENERATOR_COMMAND,
            r.1 == divisor_for(interval_ms as int) % 0x100,
            r.2 == divisor_for(interval_ms as int) / 0x100,
    {
        let divisor = (TIMER_FREQUENCY * interval_ms) / 1000;
        let divisor_u16 = (divisor % 0x1_0000) as u16;
        let low = (divisor_u16 % 0x100) as u8;
        let high = (divisor_u16 / 0x100) as u8;
        (RATE_GENERATOR_COMMAND, low, high)
    }
}

/// The decision of the timer interrupt for a tick of `interval_ms` when the
/// system time was `old_time`: the new time; every `SPINNER_PERIOD_MS` the
/// next spinner character; every `YIELD_PERIOD_MS` a thread switch.
pub fn timer_tick(old_time: usize, interval_ms: usize) -> (a: TickAction)
    requires
        old_time + interval_ms <= usize::MAX,
    ensures
        a.new_time == old_time + interval_ms,
        a.spinner == if a.new_time % SPINNER_PERIOD_MS == 0 {
            Some(spinner_char(((a.new_time / SPINNER_PERIOD_MS) % 4) as int))
        } else {
            None::<char>
        },
        a.yield_cpu == (a.new_time % YIELD_PERIOD_MS == 0),
{
    let new_time = old_time + interval_ms;
    let spinner = if new_time % SPINNER_PERIOD_MS == 0 {
        let spin_index = (new_time / SPINNER_PERIOD_MS) % 4;
        let c = if spin_index == 0 {
            '|'
        } else if spin_index == 1 {
            '/'
        } else if spin_index == 2 {
            '-'
        } else {
            '\\'
        };
        Some(c)
    } else {
        None
    };
    TickAction { new_time, spinner, yield_cpu: new_time % YIELD_PERIOD_MS == 0 }
}

/// The decision of `wait` at system time `now`, for a wait of `ms`
/// milliseconds that began at `start_time`: `true` once the time is up; the
/// caller yields the CPU while it is `false`.
pub fn wait(start_time: usize, now: usize, ms: usize) -> (done: bool)
    requires
        start_time <= now,
    ensures
        done == (now - start_time >= ms),
{
    !(now - start_time < ms)
}

} // verus!
