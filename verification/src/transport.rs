use vstd::prelude::*;

verus! {

/// What one non-blocking poll of the transport's receive side produced.
#[derive(Clone, Copy, Debug, PartialEq, Eq, Structural)]
pub enum ReadOutcome {
    /// One byte was available and has been consumed.
    Byte(u8),
    /// Nothing is available right now; the line is silent.
    NoData,
    /// A hard fault on the serial link.
    Fault,
}

/// A byte-oriented serial link, supplied by the caller. The driver only
/// polls single bytes and writes single bytes; it promises nothing about
/// what a poll returns, and handles every outcome.
pub trait Transport {
    /// Poll the receive side once, without blocking.
    fn read_byte(&mut self) -> ReadOutcome;

    /// Write one byte, blocking until the transport accepts it.
    fn write_byte(&mut self, b: u8);
}

/// A way to suspend the current thread of control, supplied by the caller.
pub trait Delay {
    /// Suspend for roughly `ms` milliseconds.
    fn delay_ms(&mut self, ms: u32);
}

} // verus!
