//! What the engines ask of the appliance link, and what it answers.

use crate::optical::OpticalProgress;
use vstd::prelude::*;

verus! {

/// How long a device operation may take.
pub const DEVICE_TIMEOUT_MS: u64 = 1000;

/// An operation on the appliance link. Unless it says otherwise an operation
/// may take `DEVICE_TIMEOUT_MS`.
#[allow(inconsistent_fields)]
#[derive(Clone, Copy, Debug, PartialEq, Eq, Structural)]
pub enum Request {
    /// Keep silent until the appliance has ended its session, then drain.
    Resynchronize,
    /// Drain stale input.
    Drain,
    /// Ask for the software ID.
    QueryId,
    /// Ask for the fastest baud rate.
    QueryMaxBaud,
    /// Unlock read access with a key.
    Unlock { key: u16 },
    /// Send the read request of a key probe and await its echo.
    BeginProbe,
    /// Await the answer to a key probe, for so many milliseconds.
    FinishProbe { timeout_ms: u64 },
    /// Read so many bytes of memory, within so many milliseconds.
    ReadMemory { address: u32, length: u16, timeout_ms: u64 },
    /// Read so many bytes of EEPROM.
    ReadEeprom { address: u16, length: u16 },
    /// Wait so many milliseconds.
    Pause { ms: u64 },
}

/// The answer to a link operation.
#[derive(Debug)]
pub enum Reply {
    /// The operation succeeded; to a probe, the appliance answered.
    Done,
    /// The software ID.
    Id(u16),
    /// The baud rate.
    Baud(u32),
    /// The bytes that were read.
    Data(Vec<u8>),
    /// The operation failed, and this is how.
    Failed(Vec<u8>),
    /// The operation took too long, and this is the timer's word for it.
    TimedOut(Vec<u8>),
    /// A probe went unanswered; the counters before and after it.
    Unanswered { before: OpticalProgress, after: OpticalProgress },
}

impl Reply {
    /// An unanswered probe during which nothing was sent or received.
    pub open spec fn silent(self) -> bool {
        self matches Reply::Unanswered { before, after } && before == after
    }

    /// Whether the probe was met with silence.
    pub fn is_silent(&self) -> (r: bool)
        ensures
            r == self.silent(),
    {
        match self {
            Reply::Unanswered { before, after } => after.tx == before.tx && after.rx == before.rx,
            _ => false,
        }
    }
}

} // verus!
