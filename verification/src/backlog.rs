//! The backlog of the network log: bounded queues of lines that wait for a client.

use crate::buffers::{appended, LogLine, LINE_CAPACITY};
use crate::netlog::{is_important, matters, record_line, record_text, Level};
use embassy_sync::blocking_mutex::raw::NoopRawMutex;
use embassy_sync::channel::{Channel, TrySendError};
use vstd::prelude::*;
use vstd::string::*;
use vstd::utf8::*;

verus! {

/// The room for records that matter. It is kept apart, so that verbose traffic
/// cannot evict them while the network is away.
pub const IMPORTANT_BACKLOG_LINES: usize = 96;

/// The room for verbose records.
pub const VERBOSE_BACKLOG_LINES: usize = 16;

// ---------------------------------------------------------------------------
// The channels
// ---------------------------------------------------------------------------
/// The queue of records that matter: a `Channel` of `embassy_sync` for 96 lines.
#[verifier::external_body]
pub struct ImportantQueue {
    channel: Channel<NoopRawMutex, LogLine, 96>,
}

/// The queue of verbose records: a `Channel` of `embassy_sync` for 16 lines.
#[verifier::external_body]
pub struct VerboseQueue {
    channel: Channel<NoopRawMutex, LogLine, 16>,
}

/// The contents of the waiting lines that matter, oldest first.
pub uninterp spec fn important_lines(queue: ImportantQueue) -> Seq<Seq<u8>>;

/// The contents of the waiting verbose lines, oldest first.
pub uninterp spec fn verbose_lines(queue: VerboseQueue) -> Seq<Seq<u8>>;

/// `Channel::new`: the channel is empty.
#[verifier::external_body]
fn new_important() -> (r: ImportantQueue)
    ensures
        important_lines(r) == Seq::<Seq<u8>>::empty(),
{
    ImportantQueue { channel: Channel::new() }
}

/// `Channel::new`: the channel is empty.
#[verifier::external_body]
fn new_verbose() -> (r: VerboseQueue)
    ensures
        verbose_lines(r) == Seq::<Seq<u8>>::empty(),
{
    VerboseQueue { channel: Channel::new() }
}

/// `Channel::try_send`: a channel that holds fewer lines than it has room for takes
/// the line behind the others; a full one stays as it is and hands the line back.
/// There are never more lines than there is room for.
#[verifier::external_body]
fn send_important(queue: &mut ImportantQueue, line: LogLine) -> (r: Result<(), LogLine>)
    ensures
        important_lines(*final(queue)).len() <= IMPORTANT_BACKLOG_LINES,
        important_lines(*old(queue)).len() < IMPORTANT_BACKLOG_LINES ==> r is Ok
            && important_lines(*final(queue)) == important_lines(*old(queue)).push(line@),
        important_lines(*old(queue)).len() >= IMPORTANT_BACKLOG_LINES ==> (r matches Err(back)
            && back@ == line@) && important_lines(*final(queue)) == important_lines(*old(queue)),
{
    match queue.channel.try_send(line) {
        Ok(()) => Ok(()),
        Err(TrySendError::Full(line)) => Err(line),
    }
}

/// `Channel::try_send`: a channel that holds fewer lines than it has room for takes
/// the line behind the others; a full one stays as it is and hands the line back.
/// There are never more lines than there is room for.
#[verifier::external_body]
fn send_verbose(queue: &mut VerboseQueue, line: LogLine) -> (r: Result<(), LogLine>)
    ensures
        verbose_lines(*final(queue)).len() <= VERBOSE_BACKLOG_LINES,
        verbose_lines(*old(queue)).len() < VERBOSE_BACKLOG_LINES ==> r is Ok && verbose_lines(
            *final(queue),
        ) == verbose_lines(*old(queue)).push(line@),
        verbose_lines(*old(queue)).len() >= VERBOSE_BACKLOG_LINES ==> (r matches Err(back)
            && back@ == line@) && verbose_lines(*final(queue)) == verbose_lines(*old(queue)),
{
    match queue.channel.try_send(line) {
        Ok(()) => Ok(()),
        Err(TrySendError::Full(line)) => Err(line),
    }
}

/// `Channel::try_receive`: takes the oldest line out of the channel; there is none
/// where the channel is empty.
#[verifier::external_body]
fn receive_important(queue: &mut ImportantQueue) -> (r: Option<LogLine>)
    ensures
        important_lines(*old(queue)).len() > 0 ==> (r matches Some(line) && line@
            == important_lines(*old(queue))[0]) && important_lines(*final(queue))
            == important_lines(*old(queue)).drop_first(),
        important_lines(*old(queue)).len() == 0 ==> r is None && important_lines(*final(queue))
            == important_lines(*old(queue)),
{
    queue.channel.try_receive().ok()
}

/// `Channel::try_receive`: takes the oldest line out of the channel; there is none
/// where the channel is empty.
#[verifier::external_body]
fn receive_verbose(queue: &mut VerboseQueue) -> (r: Option<LogLine>)
    ensures
        verbose_lines(*old(queue)).len() > 0 ==> (r matches Some(line) && line@ == verbose_lines(
            *old(queue),
        )[0]) && verbose_lines(*final(queue)) == verbose_lines(*old(queue)).drop_first(),
        verbose_lines(*old(queue)).len() == 0 ==> r is None && verbose_lines(*final(queue))
            == verbose_lines(*old(queue)),
{
    queue.channel.try_receive().ok()
}

// ---------------------------------------------------------------------------
// The backlog
// ---------------------------------------------------------------------------
/// The lines with one more behind them, at the cost of the oldest where there is no
/// room.
pub open spec fn kept(lines: Seq<Seq<u8>>, line: Seq<u8>, room: int) -> Seq<Seq<u8>> {
    if lines.len() < room {
        lines.push(line)
    } else {
        lines.drop_first().push(line)
    }
}

/// The lines that wait for a client of the network log.
pub struct Backlog {
    important: ImportantQueue,
    verbose: VerboseQueue,
}

/// The lines that wait, in the abstract.
#[verifier::ext_equal]
pub ghost struct BacklogView {
    pub important: Seq<Seq<u8>>,
    pub verbose: Seq<Seq<u8>>,
}

impl View for Backlog {
    type V = BacklogView;

    closed spec fn view(&self) -> BacklogView {
        BacklogView {
            important: important_lines(self.important),
            verbose: verbose_lines(self.verbose),
        }
    }
}

/// Queues a line that matters. It never blocks: a full queue loses its oldest line.
fn enqueue_important(queue: &mut ImportantQueue, line: LogLine)
    ensures
        important_lines(*final(queue)) == kept(
            important_lines(*old(queue)),
            line@,
            IMPORTANT_BACKLOG_LINES as int,
        ),
{
    if let Err(line) = send_important(queue, line) {
        let _ = receive_important(queue);
        let _ = send_important(queue, line);
    }
}

/// Queues a verbose line. It never blocks: a full queue loses its oldest line.
fn enqueue_verbose(queue: &mut VerboseQueue, line: LogLine)
    ensures
        verbose_lines(*final(queue)) == kept(
            verbose_lines(*old(queue)),
            line@,
            VERBOSE_BACKLOG_LINES as int,
        ),
{
    if let Err(line) = send_verbose(queue, line) {
        let _ = receive_verbose(queue);
        let _ = send_verbose(queue, line);
    }
}

/// The backlog with the line of a record: among those that matter or the verbose ones.
pub open spec fn logged(b: BacklogView, level: Level, message: Seq<u8>) -> BacklogView {
    let line = appended(Seq::empty(), record_text(level, message), LINE_CAPACITY as int);
    if matters(level) {
        BacklogView { important: kept(b.important, line, IMPORTANT_BACKLOG_LINES as int), ..b }
    } else {
        BacklogView { verbose: kept(b.verbose, line, VERBOSE_BACKLOG_LINES as int), ..b }
    }
}

/// The next line, where there is one, and the backlog without it.
pub open spec fn taken(b: BacklogView) -> (Option<Seq<u8>>, BacklogView) {
    if b.important.len() > 0 {
        (Some(b.important[0]), BacklogView { important: b.important.drop_first(), ..b })
    } else if b.verbose.len() > 0 {
        (Some(b.verbose[0]), BacklogView { verbose: b.verbose.drop_first(), ..b })
    } else {
        (None, b)
    }
}

impl Backlog {
    pub fn new() -> (r: Backlog)
        ensures
            r@.important.len() == 0,
            r@.verbose.len() == 0,
    {
        Backlog { important: new_important(), verbose: new_verbose() }
    }

    /// Queues the line of a record, among those that matter or the verbose ones.
    /// Neither kind evicts the other.
    pub fn log(&mut self, level: Level, message: &str)
        ensures
            final(self)@ == logged(old(self)@, level, message.spec_bytes()),
    {
        let line = record_line(level, message);
        if is_important(level) {
            enqueue_important(&mut self.important, line);
        } else {
            enqueue_verbose(&mut self.verbose, line);
        }
    }

    /// Takes the next line, where there is one: the oldest of those that matter, and
    /// verbose ones only where none of them is left.
    pub fn next_line(&mut self) -> (r: Option<LogLine>)
        ensures
            final(self)@ == taken(old(self)@).1,
            taken(old(self)@).0 == match r {
                Some(line) => Some(line@),
                None => None,
            },
    {
        if let Some(line) = receive_important(&mut self.important) {
            return Some(line);
        }
        receive_verbose(&mut self.verbose)
    }
}

/// A queued line stands last, the others keep their order, and none but the oldest
/// can be lost.
pub proof fn lemma_newest_lines_are_kept(lines: Seq<Seq<u8>>, line: Seq<u8>, room: int)
    requires
        room > 0,
        lines.len() <= room,
    ensures
        kept(lines, line, room).len() <= room,
        kept(lines, line, room).last() == line,
        forall|i: int|
            #![trigger kept(lines, line, room)[i]]
            0 <= i < kept(lines, line, room).len() - 1 ==> kept(lines, line, room)[i]
                == lines[lines.len() - kept(lines, line, room).len() + 1 + i],
{
}

} // verus!
