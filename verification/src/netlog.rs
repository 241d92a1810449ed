//! The network log: which records pass and what a line holds.

use crate::buffers::{appended, LogLine, LINE_CAPACITY};
use crate::text::{equal_ignoring_case, first_index, has_prefix, index_of, same_ignoring_case};
use crate::text::starts_with;
use vstd::prelude::*;
use vstd::string::*;
use vstd::utf8::*;

verus! {

/// How much a record matters, from most to least.
#[derive(Clone, Copy, Debug, PartialEq, Eq, Structural)]
pub enum Level {
    Error,
    Warn,
    Info,
    Debug,
    Trace,
}

/// Which records pass.
#[derive(Clone, Copy, Debug, PartialEq, Eq, Structural)]
pub enum LevelFilter {
    Off,
    Error,
    Warn,
    Info,
    Debug,
    Trace,
}

impl Level {
    /// The rank of a level; a lower one matters more.
    pub open spec fn rank(self) -> int {
        match self {
            Level::Error => 1,
            Level::Warn => 2,
            Level::Info => 3,
            Level::Debug => 4,
            Level::Trace => 5,
        }
    }

    fn rank_of(self) -> (r: u8)
        ensures
            r == self.rank(),
    {
        match self {
            Level::Error => 1,
            Level::Warn => 2,
            Level::Info => 3,
            Level::Debug => 4,
            Level::Trace => 5,
        }
    }

    /// The name of a level.
    pub open spec fn text(self) -> &'static str {
        match self {
            Level::Error => "ERROR",
            Level::Warn => "WARN",
            Level::Info => "INFO",
            Level::Debug => "DEBUG",
            Level::Trace => "TRACE",
        }
    }

    /// The name of a level.
    pub fn name(self) -> (r: &'static str)
        ensures
            r == self.text(),
    {
        match self {
            Level::Error => "ERROR",
            Level::Warn => "WARN",
            Level::Info => "INFO",
            Level::Debug => "DEBUG",
            Level::Trace => "TRACE",
        }
    }
}

impl LevelFilter {
    /// The greatest rank that passes.
    pub open spec fn limit(self) -> int {
        match self {
            LevelFilter::Off => 0,
            LevelFilter::Error => 1,
            LevelFilter::Warn => 2,
            LevelFilter::Info => 3,
            LevelFilter::Debug => 4,
            LevelFilter::Trace => 5,
        }
    }

    fn limit_of(self) -> (r: u8)
        ensures
            r == self.limit(),
    {
        match self {
            LevelFilter::Off => 0,
            LevelFilter::Error => 1,
            LevelFilter::Warn => 2,
            LevelFilter::Info => 3,
            LevelFilter::Debug => 4,
            LevelFilter::Trace => 5,
        }
    }
}

// ---------------------------------------------------------------------------
// Filters
// ---------------------------------------------------------------------------
/// The filter of a name, in any letter case.
pub open spec fn filter_of(s: Seq<u8>) -> Option<LevelFilter> {
    if same_ignoring_case(s, "off".spec_bytes()) {
        Some(LevelFilter::Off)
    } else if same_ignoring_case(s, "error".spec_bytes()) {
        Some(LevelFilter::Error)
    } else if same_ignoring_case(s, "warn".spec_bytes()) {
        Some(LevelFilter::Warn)
    } else if same_ignoring_case(s, "info".spec_bytes()) {
        Some(LevelFilter::Info)
    } else if same_ignoring_case(s, "debug".spec_bytes()) {
        Some(LevelFilter::Debug)
    } else if same_ignoring_case(s, "trace".spec_bytes()) {
        Some(LevelFilter::Trace)
    } else {
        None
    }
}

/// Reads the name of a filter.
pub fn parse_filter(value: &[u8]) -> (r: Option<LevelFilter>)
    ensures
        r == filter_of(value@),
{
    if equal_ignoring_case(value, "off".as_bytes()) {
        Some(LevelFilter::Off)
    } else if equal_ignoring_case(value, "error".as_bytes()) {
        Some(LevelFilter::Error)
    } else if equal_ignoring_case(value, "warn".as_bytes()) {
        Some(LevelFilter::Warn)
    } else if equal_ignoring_case(value, "info".as_bytes()) {
        Some(LevelFilter::Info)
    } else if equal_ignoring_case(value, "debug".as_bytes()) {
        Some(LevelFilter::Debug)
    } else if equal_ignoring_case(value, "trace".as_bytes()) {
        Some(LevelFilter::Trace)
    } else {
        None
    }
}

/// The filter selected so far, and the length of the target prefix that selected
/// it.
pub ghost struct Selection {
    pub filter: LevelFilter,
    pub prefix: nat,
}

/// The selection after a directive. `PREFIX=FILTER` selects for targets with the
/// prefix, unless a longer one has selected; a bare filter selects for all and
/// leaves the prefix in force. What cannot be read is passed over.
pub open spec fn directed(s: Selection, directive: Seq<u8>, target: Seq<u8>) -> Selection {
    let at = first_index(directive, 61);
    if at < directive.len() {
        let prefix = directive.subrange(0, at);
        let filter = filter_of(directive.skip(at + 1));
        if has_prefix(target, prefix) && prefix.len() >= s.prefix && filter is Some {
            Selection { filter: filter.unwrap(), prefix: prefix.len() }
        } else {
            s
        }
    } else {
        match filter_of(directive) {
            Some(filter) => Selection { filter, ..s },
            None => s,
        }
    }
}

/// The selection after the comma-separated directives of `rest`.
pub open spec fn selected(s: Selection, rest: Seq<u8>, target: Seq<u8>) -> Selection
    decreases rest.len(),
{
    let at = first_index(rest, 44);
    let next = directed(s, rest.subrange(0, at), target);
    if 0 <= at < rest.len() {
        selected(next, rest.skip(at + 1), target)
    } else {
        next
    }
}

/// The filter that directives select for a target; without any, INFO.
pub open spec fn filter_for(directives: Seq<u8>, target: Seq<u8>) -> LevelFilter {
    selected(Selection { filter: LevelFilter::Info, prefix: 0 }, directives, target).filter
}

fn apply(filter: LevelFilter, prefix: usize, directive: &[u8], target: &[u8]) -> (r: (
    LevelFilter,
    usize,
))
    ensures
        directed(Selection { filter, prefix: prefix as nat }, directive@, target@) == (Selection {
            filter: r.0,
            prefix: r.1 as nat,
        }),
{
    let at = index_of(directive, 61);
    if at < directive.len() {
        let name = vstd::slice::slice_subrange(directive, 0, at);
        let rest = vstd::slice::slice_subrange(directive, at + 1, directive.len());
        assert(rest@ =~= directive@.skip(at + 1));
        if starts_with(target, name) && at >= prefix {
            if let Some(found) = parse_filter(rest) {
                return (found, at);
            }
        }
        return (filter, prefix);
    }
    match parse_filter(directive) {
        Some(found) => (found, prefix),
        None => (filter, prefix),
    }
}

/// A record passes the directives.
pub open spec fn passes(directives: Seq<u8>, level: Level, target: Seq<u8>) -> bool {
    level.rank() <= filter_for(directives, target).limit()
}

/// Tells whether a record passes the directives.
pub fn enabled_for(directives: &[u8], level: Level, target: &[u8]) -> (r: bool)
    ensures
        r == passes(directives@, level, target@),
{
    let mut filter = LevelFilter::Info;
    let mut prefix: usize = 0;
    let mut start: usize = 0;
    let ghost first = Selection { filter: LevelFilter::Info, prefix: 0 };
    assert(directives@.skip(0) =~= directives@);
    loop
        invariant
            start <= directives@.len(),
            selected(first, directives@, target@) == selected(
                Selection { filter, prefix: prefix as nat },
                directives@.skip(start as int),
                target@,
            ),
        ensures
            filter == selected(first, directives@, target@).filter,
        decreases directives@.len() - start,
    {
        let rest = vstd::slice::slice_subrange(directives, start, directives.len());
        assert(rest@ =~= directives@.skip(start as int));
        let at = index_of(rest, 44);
        let directive = vstd::slice::slice_subrange(rest, 0, at);
        let (found, len) = apply(filter, prefix, directive, target);
        filter = found;
        prefix = len;
        if at >= rest.len() {
            break ;
        }
        assert(rest@.skip(at + 1) =~= directives@.skip(start + at + 1));
        start = start + at + 1;
    }
    level.rank_of() <= filter.limit_of()
}

// ---------------------------------------------------------------------------
// Lines
// ---------------------------------------------------------------------------
/// The line of a record.
pub open spec fn record_text(level: Level, message: Seq<u8>) -> Seq<u8> {
    level.text().spec_bytes() + " - ".spec_bytes() + message + "\n".spec_bytes()
}

/// Makes the line of a record, cut at its capacity.
pub fn record_line(level: Level, message: &str) -> (r: LogLine)
    ensures
        r@ == appended(
            Seq::empty(),
            record_text(level, message.spec_bytes()),
            LINE_CAPACITY as int,
        ),
{
    let mut line = LogLine::new();
    line.write_str(level.name());
    line.write_str(" - ");
    line.write_str(message);
    line.write_str("\n");
    proof {
        let n = LINE_CAPACITY as int;
        let e = Seq::<u8>::empty();
        let a = level.text().spec_bytes();
        let b = " - ".spec_bytes();
        let c = message.spec_bytes();
        let d = "\n".spec_bytes();
        crate::buffers::lemma_written_in_pieces(e, a, b, n);
        crate::buffers::lemma_written_in_pieces(e, a + b, c, n);
        crate::buffers::lemma_written_in_pieces(e, a + b + c, d, n);
    }
    line
}

/// A record queues among those that matter.
pub open spec fn matters(level: Level) -> bool {
    level.rank() <= Level::Info.rank()
}

/// Tells whether a record queues among those that matter.
pub fn is_important(level: Level) -> (r: bool)
    ensures
        r == matters(level),
{
    level.rank_of() <= 3
}

} // verus!
