//! The optical line: what its echo, its silence and its errors mean.

use crate::link::{Reply, DEVICE_TIMEOUT_MS};
use crate::optical::{read_result, wrapped, DrainEvent, DrainStep, Draining, Echo, EchoStep};
use crate::optical::{Echoing, OpticalError, OpticalProgress, DRAIN_LIMIT_MS, DRAIN_SILENCE_MS};
use crate::optical::{ECHO_TIMEOUT_MS, READ_PAUSE_MS, RESYNC_IDLE_MS};
use vstd::prelude::*;
use vstd::string::*;
use vstd::utf8::*;

verus! {

/// A drain goes on while anything arrives, with a pause of a millisecond behind an error. It
/// ends with silence, which comes too late once anything has arrived, or at its limit.
pub proof fn lemma_drains<E>(activity: bool)
    ensures
        (Draining { activity }).after::<E>(DrainEvent::Bytes) == DrainStep::<E>::Again(
            Draining { activity: true },
            0,
        ),
        (Draining { activity }).after::<E>(DrainEvent::Noise) == DrainStep::<E>::Again(
            Draining { activity: true },
            1,
        ),
        (Draining { activity: false }).after::<E>(DrainEvent::Silence) == DrainStep::<E>::Over(
            Ok(()),
        ),
        (Draining { activity: true }).after::<E>(DrainEvent::Silence) == DrainStep::<E>::Over(
            Err(OpticalError::LateInput),
        ),
        (Draining { activity }).after::<E>(DrainEvent::Limit) == DrainStep::<E>::Over(
            Err(OpticalError::NoisyLine),
        ),
{
}

/// A read gives what arrived; nothing at all is an error unless nothing was wanted.
pub proof fn lemma_reads_of_the_line<E>(wanted: usize, len: usize, e: E)
    ensures
        read_result::<E>(0, Ok(len)) == Ok::<usize, OpticalError<E>>(0),
        read_result::<E>(0, Err(e)) == Ok::<usize, OpticalError<E>>(0),
        wanted > 0 && len > 0 ==> read_result::<E>(wanted, Ok(len)) == Ok::<usize, OpticalError<E>>(len),
        wanted > 0 ==> read_result::<E>(wanted, Ok(0)) == Err::<usize, OpticalError<E>>(
            OpticalError::EmptyRead,
        ),
        wanted > 0 ==> read_result::<E>(wanted, Err(e)) == Err::<usize, OpticalError<E>>(
            OpticalError::Receive(e),
        ),
{
}

/// Every sent byte is held against its own echo. All echoes are awaited, also behind a wrong
/// one; an echo that is missing, empty or an error ends the write at once.
pub proof fn lemma_echoes<E>(s: Echoing, sent: Seq<u8>, b: u8, e: E)
    requires
        s.seen < sent.len() <= usize::MAX,
    ensures
        s.seen + 1 < sent.len() ==> (s.after::<E>(sent, Echo::Byte(b)) matches EchoStep::Again(
            next,
        ) && next.seen == s.seen + 1 && next.right == (s.right && b == sent[s.seen as int])),
        s.seen + 1 == sent.len() && s.right && b == sent[s.seen as int] ==> s.after::<E>(
            sent,
            Echo::Byte(b),
        ) is Sent,
        s.seen + 1 == sent.len() && !(s.right && b == sent[s.seen as int]) ==> s.after::<E>(
            sent,
            Echo::Byte(b),
        ) == EchoStep::<E>::Failed(OpticalError::EchoMismatch),
        s.after::<E>(sent, Echo::Empty) == EchoStep::<E>::Failed(OpticalError::EmptyRead),
        s.after::<E>(sent, Echo::Missing) == EchoStep::<E>::Failed(OpticalError::EchoTimeout),
        s.after::<E>(sent, Echo::Failed(e)) == EchoStep::<E>::Failed(OpticalError::Receive(e)),
{
}

/// Nothing to send is sent at once.
pub proof fn lemma_nothing_is_echoed<E>(sent: Seq<u8>)
    ensures
        sent.len() == 0 ==> (Echoing { seen: 0, right: true }).settled::<E>(sent) is Sent,
        sent.len() > 0 ==> (Echoing { seen: 0, right: true }).settled::<E>(sent)
            == EchoStep::<E>::Again(Echoing { seen: 0, right: true }),
{
}

/// The counters count on in the arithmetic of the machine word.
pub proof fn lemma_counters_wrap(a: usize, b: usize)
    ensures
        a + b <= usize::MAX ==> wrapped(a, b) == a + b,
        a + b > usize::MAX ==> wrapped(a, b) == a + b - (usize::MAX + 1),
        wrapped(a, b) == wrapped(b, a),
        wrapped(a, 0) == a,
{
}

/// A probe was met with silence if it went unanswered and neither counter moved.
pub proof fn lemma_silence_moves_no_counter(before: OpticalProgress, after: OpticalProgress)
    ensures
        (Reply::Unanswered { before, after }).silent() <==> before.tx == after.tx && before.rx
            == after.rx,
        !Reply::Done.silent(),
{
}

/// What each error is called.
pub proof fn lemma_line_errors_are_told<E>(e: E, receive: Seq<u8>)
    ensures
        OpticalError::Receive(e).message(receive) == "optical transport: ".spec_bytes() + (
        "Receive(".spec_bytes() + receive + ")".spec_bytes()),
        OpticalError::<E>::Transmit.message(receive) == "optical transport: ".spec_bytes()
            + "Transmit".spec_bytes(),
        OpticalError::<E>::EchoTimeout.message(receive) == "optical transport: ".spec_bytes()
            + "EchoTimeout".spec_bytes(),
        OpticalError::<E>::EmptyRead.message(receive) == "optical transport: ".spec_bytes()
            + "EmptyRead".spec_bytes(),
        OpticalError::<E>::EchoMismatch.message(receive) == "optical transport: ".spec_bytes()
            + "EchoMismatch".spec_bytes(),
        OpticalError::<E>::NoisyLine.message(receive) == "optical transport: ".spec_bytes()
            + "NoisyLine".spec_bytes(),
        OpticalError::<E>::LateInput.message(receive) == "optical transport: ".spec_bytes()
            + "LateInput".spec_bytes(),
{
}

/// How long things take on the line: it counts as drained after 30 ms of silence, within
/// 300 ms; a resynchronization is longer than the appliance's session of three seconds.
pub proof fn lemma_timings_of_the_line()
    ensures
        DRAIN_SILENCE_MS == 30,
        DRAIN_LIMIT_MS == 300,
        READ_PAUSE_MS == 1,
        ECHO_TIMEOUT_MS == 100,
        RESYNC_IDLE_MS == 3200,
        DEVICE_TIMEOUT_MS == 1000,
{
}

} // verus!
