//! Writing all of a response to a stream that takes it piece by piece.

use vstd::prelude::*;

verus! {

/// What comes after a write.
#[derive(Debug)]
pub enum WriteStep<E> {
    /// Write on from this position.
    From(usize),
    /// Everything is written.
    Done,
    /// The stream took nothing: the connection counts as reset.
    Reset,
    /// The write failed.
    Failed(E),
}

/// Where a write stands with so many bytes of `total` written.
pub open spec fn standing<E>(sent: int, total: int) -> WriteStep<E> {
    if sent >= total {
        WriteStep::Done
    } else {
        WriteStep::From(sent as usize)
    }
}

/// Begins to write so many bytes.
pub fn tcp_write_all<E>(total: usize) -> (r: WriteStep<E>)
    ensures
        r == standing::<E>(0, total as int),
{
    if total == 0 {
        WriteStep::Done
    } else {
        WriteStep::From(0)
    }
}

/// What the outcome of a write from position `sent` leads to.
pub open spec fn write_step<E>(sent: usize, total: usize, reply: Result<usize, E>) -> WriteStep<E> {
    match reply {
        Ok(n) => if n == 0 {
            WriteStep::Reset
        } else {
            standing(sent + n, total as int)
        },
        Err(e) => WriteStep::Failed(e),
    }
}

/// Takes the outcome of a write from position `sent`.
pub fn written<E>(sent: usize, total: usize, reply: Result<usize, E>) -> (r: WriteStep<E>)
    requires
        sent < total,
        reply matches Ok(n) ==> n <= total - sent,
    ensures
        r == write_step(sent, total, reply),
        r matches WriteStep::From(next) ==> sent < next < total,
{
    match reply {
        Ok(n) => {
            if n == 0 {
                return WriteStep::Reset;
            }
            if n == total - sent {
                WriteStep::Done
            } else {
                WriteStep::From(sent + n)
            }
        },
        Err(e) => WriteStep::Failed(e),
    }
}

/// How a connection ends behind a response.
#[derive(Clone, Copy, Debug, PartialEq, Eq, Structural)]
pub enum Closing {
    /// In an orderly way.
    Close,
    /// At once.
    Abort,
}

/// How a connection ends, once a response was written and flushed or was not.
pub open spec fn closing_of(wrote: bool, flushed: bool) -> Closing {
    if wrote && flushed {
        Closing::Close
    } else {
        Closing::Abort
    }
}

/// Decides how a connection ends: in an orderly way only where the response was
/// written and flushed.
pub fn closing(wrote: bool, flushed: bool) -> (r: Closing)
    ensures
        r == closing_of(wrote, flushed),
{
    if wrote && flushed {
        Closing::Close
    } else {
        Closing::Abort
    }
}

} // verus!
