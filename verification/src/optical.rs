//! The optical port: what the half-duplex serial line with its own echo means.

use crate::text::{push_bytes, push_text};
use vstd::prelude::*;
use vstd::string::*;
use vstd::utf8::*;

verus! {

/// Bytes sent and echoed correctly, and bytes received, so far.
#[derive(Clone, Copy, Debug, PartialEq, Eq, Structural)]
pub struct OpticalProgress {
    pub tx: usize,
    pub rx: usize,
}

impl Default for OpticalProgress {
    fn default() -> (r: Self)
        ensures
            r.tx == 0,
            r.rx == 0,
    {
        OpticalProgress { tx: 0, rx: 0 }
    }
}

/// `a + b` in the arithmetic of the machine word.
pub open spec fn wrapped(a: usize, b: usize) -> usize {
    if a + b <= usize::MAX {
        (a + b) as usize
    } else {
        (a + b - usize::MAX - 1) as usize
    }
}

impl OpticalProgress {
    /// Counts received bytes.
    pub fn received(self, len: usize) -> (r: OpticalProgress)
        ensures
            r.rx == wrapped(self.rx, len),
            r.tx == self.tx,
    {
        OpticalProgress { rx: self.rx.wrapping_add(len), ..self }
    }

    /// Counts bytes whose echo was right.
    pub fn sent(self, len: usize) -> (r: OpticalProgress)
        ensures
            r.tx == wrapped(self.tx, len),
            r.rx == self.rx,
    {
        OpticalProgress { tx: self.tx.wrapping_add(len), ..self }
    }
}

/// What goes wrong on the optical line.
#[derive(Debug)]
pub enum OpticalError<E> {
    /// The receiver reported an error.
    Receive(E),
    /// The transmitter reported an error.
    Transmit,
    /// A sent byte was not echoed in time.
    EchoTimeout,
    /// A read returned without a byte.
    EmptyRead,
    /// A sent byte came back changed.
    EchoMismatch,
    /// The line did not fall silent.
    NoisyLine,
    /// Bytes arrived after they were due.
    LateInput,
}

impl<E> OpticalError<E> {
    /// The message of the error; `receive` is the receiver's own description.
    pub open spec fn message(self, receive: Seq<u8>) -> Seq<u8> {
        "optical transport: ".spec_bytes() + match self {
            OpticalError::Receive(_) => "Receive(".spec_bytes() + receive + ")".spec_bytes(),
            OpticalError::Transmit => "Transmit".spec_bytes(),
            OpticalError::EchoTimeout => "EchoTimeout".spec_bytes(),
            OpticalError::EmptyRead => "EmptyRead".spec_bytes(),
            OpticalError::EchoMismatch => "EchoMismatch".spec_bytes(),
            OpticalError::NoisyLine => "NoisyLine".spec_bytes(),
            OpticalError::LateInput => "LateInput".spec_bytes(),
        }
    }

    /// Writes the message of the error.
    pub fn describe(&self, receive: &[u8]) -> (r: Vec<u8>)
        ensures
            r@ == self.message(receive@),
    {
        let mut out: Vec<u8> = Vec::new();
        push_text(&mut out, "optical transport: ");
        match self {
            OpticalError::Receive(_) => {
                push_text(&mut out, "Receive(");
                push_bytes(&mut out, receive);
                push_text(&mut out, ")");
            },
            OpticalError::Transmit => push_text(&mut out, "Transmit"),
            OpticalError::EchoTimeout => push_text(&mut out, "EchoTimeout"),
            OpticalError::EmptyRead => push_text(&mut out, "EmptyRead"),
            OpticalError::EchoMismatch => push_text(&mut out, "EchoMismatch"),
            OpticalError::NoisyLine => push_text(&mut out, "NoisyLine"),
            OpticalError::LateInput => push_text(&mut out, "LateInput"),
        }
        assert(out@ =~= self.message(receive@));
        out
    }
}

// ---------------------------------------------------------------------------
// Draining
// ---------------------------------------------------------------------------
/// How long the line must be silent to count as drained.
pub const DRAIN_SILENCE_MS: u64 = 30;

/// How long a drain may take.
pub const DRAIN_LIMIT_MS: u64 = 300;

/// How long nothing is sent when resynchronizing: longer than the appliance's
/// session timeout of three seconds.
pub const RESYNC_IDLE_MS: u64 = 3200;

/// The pause after a failed read while draining, and after any read while
/// listening.
pub const READ_PAUSE_MS: u64 = 1;

/// What a draining read came to.
#[derive(Clone, Copy, Debug, PartialEq, Eq, Structural)]
pub enum DrainEvent {
    /// Nothing arrived for `DRAIN_SILENCE_MS`.
    Silence,
    /// Bytes arrived.
    Bytes,
    /// The receiver reported an error.
    Noise,
    /// `DRAIN_LIMIT_MS` have passed since the drain began.
    Limit,
}

/// A drain under way; it knows whether anything has arrived.
#[derive(Clone, Copy, Debug, PartialEq, Eq, Structural)]
pub struct Draining {
    pub activity: bool,
}

/// What comes after a draining read.
#[derive(Debug)]
pub enum DrainStep<E> {
    /// Read again, after a pause of this many milliseconds.
    Again(Draining, u64),
    /// The drain is over.
    Over(Result<(), OpticalError<E>>),
}

impl Draining {
    /// What comes after an event.
    pub open spec fn after<E>(self, event: DrainEvent) -> DrainStep<E> {
        match event {
            DrainEvent::Silence => DrainStep::Over(
                if self.activity {
                    Err(OpticalError::LateInput)
                } else {
                    Ok(())
                },
            ),
            DrainEvent::Bytes => DrainStep::Again(Draining { activity: true }, 0),
            DrainEvent::Noise => DrainStep::Again(Draining { activity: true }, READ_PAUSE_MS),
            DrainEvent::Limit => DrainStep::Over(Err(OpticalError::NoisyLine)),
        }
    }

    /// Begins a drain.
    pub fn begin() -> (r: Draining)
        ensures
            !r.activity,
    {
        Draining { activity: false }
    }

    /// Takes the next event.
    pub fn supply<E>(self, event: DrainEvent) -> (r: DrainStep<E>)
        ensures
            r == self.after::<E>(event),
    {
        match event {
            DrainEvent::Silence => if self.activity {
                DrainStep::Over(Err(OpticalError::LateInput))
            } else {
                DrainStep::Over(Ok(()))
            },
            DrainEvent::Bytes => DrainStep::Again(Draining { activity: true }, 0),
            DrainEvent::Noise => DrainStep::Again(Draining { activity: true }, READ_PAUSE_MS),
            DrainEvent::Limit => DrainStep::Over(Err(OpticalError::NoisyLine)),
        }
    }

    /// What the drain comes to over a sequence of events, if it ends.
    pub open spec fn run<E>(self, events: Seq<DrainEvent>) -> Option<Result<(), OpticalError<E>>>
        decreases events.len(),
    {
        if events.len() == 0 {
            None
        } else {
            match self.after::<E>(events[0]) {
                DrainStep::Over(r) => Some(r),
                DrainStep::Again(next, _) => next.run(events.drop_first()),
            }
        }
    }
}

proof fn lemma_active_drain<E>(events: Seq<DrainEvent>)
    ensures
        (Draining { activity: true }).run::<E>(events) matches Some(r) ==> r is Err,
    decreases events.len(),
{
    if events.len() > 0 {
        lemma_active_drain::<E>(events.drop_first());
    }
}

/// A drain succeeds only where the line was silent from the beginning.
pub proof fn lemma_drained_means_silent<E>(events: Seq<DrainEvent>)
    requires
        events.len() > 0,
    ensures
        (Draining { activity: false }).run::<E>(events) == Some(Ok::<(), OpticalError<E>>(()))
            <==> events[0] == DrainEvent::Silence,
{
    lemma_active_drain::<E>(events.drop_first());
}

// ---------------------------------------------------------------------------
// Reading
// ---------------------------------------------------------------------------
/// What a raw read of a buffer comes to: an empty buffer is read at once, and a
/// read without a byte is an error.
pub open spec fn read_result<E>(wanted: usize, reply: Result<usize, E>) -> Result<
    usize,
    OpticalError<E>,
> {
    if wanted == 0 {
        Ok(0)
    } else {
        match reply {
            Ok(len) => if len == 0 {
                Err(OpticalError::EmptyRead)
            } else {
                Ok(len)
            },
            Err(e) => Err(OpticalError::Receive(e)),
        }
    }
}

/// Judges the receiver's reply to a read of `wanted` bytes.
pub fn judge_read<E>(wanted: usize, reply: Result<usize, E>) -> (r: Result<usize, OpticalError<E>>)
    ensures
        r == read_result(wanted, reply),
{
    if wanted == 0 {
        return Ok(0);
    }
    match reply {
        Ok(len) => if len == 0 {
            Err(OpticalError::EmptyRead)
        } else {
            Ok(len)
        },
        Err(e) => Err(OpticalError::Receive(e)),
    }
}

/// The place of the rest of a buffer that is to be filled: `filled` bytes are
/// there, and the next read takes what follows.
pub fn fill(filled: usize, wanted: usize, len: usize) -> (r: usize)
    requires
        filled < wanted,
        0 < len <= wanted - filled,
    ensures
        r == filled + len,
        filled < r <= wanted,
{
    filled + len
}

// ---------------------------------------------------------------------------
// Writing
// ---------------------------------------------------------------------------
/// How long the echo of a byte may take.
pub const ECHO_TIMEOUT_MS: u64 = 100;

/// What reading the echo of one byte came to.
#[derive(Debug)]
pub enum Echo<E> {
    /// This byte arrived.
    Byte(u8),
    /// The read returned without a byte.
    Empty,
    /// Nothing arrived in `ECHO_TIMEOUT_MS`.
    Missing,
    /// The receiver reported an error.
    Failed(E),
}

/// The check of the echo of sent bytes: how many have been seen, and whether all
/// of them were right.
#[derive(Clone, Copy, Debug, PartialEq, Eq, Structural)]
pub struct Echoing {
    pub seen: usize,
    pub right: bool,
}

/// What comes after an echo.
#[derive(Debug)]
pub enum EchoStep<E> {
    /// The next byte's echo is due.
    Again(Echoing),
    /// All echoes were seen and right.
    Sent,
    /// The write failed.
    Failed(OpticalError<E>),
}

impl Echoing {
    /// What comes when no further echo is awaited, or one is.
    pub open spec fn settled<E>(self, sent: Seq<u8>) -> EchoStep<E> {
        if self.seen < sent.len() {
            EchoStep::Again(self)
        } else if self.right {
            EchoStep::Sent
        } else {
            EchoStep::Failed(OpticalError::EchoMismatch)
        }
    }

    /// What comes after the echo of the byte that is due. A wrong echo is an
    /// error only after all echoes were consumed.
    pub open spec fn after<E>(self, sent: Seq<u8>, echo: Echo<E>) -> EchoStep<E> {
        match echo {
            Echo::Byte(b) => Echoing {
                seen: (self.seen + 1) as usize,
                right: self.right && b == sent[self.seen as int],
            }.settled(sent),
            Echo::Empty => EchoStep::Failed(OpticalError::EmptyRead),
            Echo::Missing => EchoStep::Failed(OpticalError::EchoTimeout),
            Echo::Failed(e) => EchoStep::Failed(OpticalError::Receive(e)),
        }
    }

    /// Begins to check the echo of `sent`.
    pub fn begin<E>(sent: &[u8]) -> (r: EchoStep<E>)
        ensures
            r == (Echoing { seen: 0, right: true }).settled::<E>(sent@),
    {
        if sent.len() == 0 {
            EchoStep::Sent
        } else {
            EchoStep::Again(Echoing { seen: 0, right: true })
        }
    }

    /// Takes the echo of the byte that is due.
    pub fn supply<E>(self, sent: &[u8], echo: Echo<E>) -> (r: EchoStep<E>)
        requires
            self.seen < sent@.len(),
        ensures
            r == self.after::<E>(sent@, echo),
            r matches EchoStep::Again(next) ==> self.seen < next.seen < sent@.len(),
    {
        let b = match echo {
            Echo::Byte(b) => b,
            Echo::Empty => return EchoStep::Failed(OpticalError::EmptyRead),
            Echo::Missing => return EchoStep::Failed(OpticalError::EchoTimeout),
            Echo::Failed(e) => return EchoStep::Failed(OpticalError::Receive(e)),
        };
        let len = sent.len();
        let next = Echoing { seen: self.seen + 1, right: self.right && b == sent[self.seen] };
        if next.seen < len {
            EchoStep::Again(next)
        } else if next.right {
            EchoStep::Sent
        } else {
            EchoStep::Failed(OpticalError::EchoMismatch)
        }
    }

    /// What the check comes to over the echoed bytes, if they suffice.
    pub open spec fn run<E>(self, sent: Seq<u8>, echoes: Seq<u8>) -> EchoStep<E>
        decreases echoes.len(),
    {
        if self.seen >= sent.len() || echoes.len() == 0 {
            self.settled(sent)
        } else {
            match self.after::<E>(sent, Echo::Byte(echoes[0])) {
                EchoStep::Again(next) => next.run(sent, echoes.drop_first()),
                end => end,
            }
        }
    }
}

proof fn lemma_echo_rest<E>(e: Echoing, sent: Seq<u8>, echoes: Seq<u8>)
    requires
        e.seen + echoes.len() == sent.len(),
        sent.len() <= usize::MAX,
    ensures
        e.run::<E>(sent, echoes) == (if e.right && echoes == sent.skip(e.seen as int) {
            EchoStep::<E>::Sent
        } else {
            EchoStep::Failed(OpticalError::EchoMismatch)
        }),
    decreases echoes.len(),
{
    if echoes.len() == 0 {
        assert(echoes =~= sent.skip(e.seen as int));
    } else {
        let next = Echoing {
            seen: (e.seen + 1) as usize,
            right: e.right && echoes[0] == sent[e.seen as int],
        };
        lemma_echo_rest::<E>(next, sent, echoes.drop_first());
        let rest = sent.skip(e.seen as int);
        assert(rest.drop_first() =~= sent.skip(e.seen + 1));
        if echoes[0] == rest[0] && echoes.drop_first() == rest.drop_first() {
            assert forall|i: int| 0 <= i < echoes.len() implies echoes[i] == rest[i] by {
                if i > 0 {
                    assert(echoes.drop_first()[i - 1] == rest.drop_first()[i - 1]);
                }
            }
            assert(echoes =~= rest);
        }
    }
}

/// Where every echo arrives, a write succeeds if and only if the echo is exactly
/// what was sent.
pub proof fn lemma_sent_means_echoed<E>(sent: Seq<u8>, echoes: Seq<u8>)
    requires
        sent.len() <= usize::MAX,
        echoes.len() == sent.len(),
    ensures
        (Echoing { seen: 0, right: true }).run::<E>(sent, echoes) == (if echoes == sent {
            EchoStep::<E>::Sent
        } else {
            EchoStep::Failed(OpticalError::EchoMismatch)
        }),
{
    lemma_echo_rest::<E>(Echoing { seen: 0, right: true }, sent, echoes);
    assert(sent.skip(0) =~= sent);
}

} // verus!
