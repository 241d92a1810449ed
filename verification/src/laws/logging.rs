//! The network log: which records pass, what a line holds and which lines are kept.

use crate::backlog::{logged, taken, BacklogView};
use crate::buffers::{appended, response};
use crate::laws::reading::lemma_first_place;
use crate::netlog::{directed, filter_for, filter_of, matters, passes, record_text, selected};
use crate::netlog::{Level, LevelFilter, Selection};
use crate::text::{first_index, has_prefix, lower, same_ignoring_case};
use vstd::prelude::*;
use vstd::string::*;
use vstd::utf8::*;

verus! {

// ---------------------------------------------------------------------------
// Levels
// ---------------------------------------------------------------------------
/// The levels in their order: each filter lets its own level through and all that matter
/// more; none lets anything through where it is off.
pub proof fn lemma_levels(level: Level)
    ensures
        level.rank() > LevelFilter::Off.limit(),
        level.rank() <= LevelFilter::Error.limit() <==> level is Error,
        level.rank() <= LevelFilter::Warn.limit() <==> level is Error || level is Warn,
        level.rank() <= LevelFilter::Info.limit() <==> level is Error || level is Warn || level
            is Info,
        level.rank() <= LevelFilter::Debug.limit() <==> !(level is Trace),
        level.rank() <= LevelFilter::Trace.limit(),
        matters(level) <==> level is Error || level is Warn || level is Info,
{
}

/// The names of the levels.
pub proof fn lemma_level_names()
    ensures
        Level::Error.text() == "ERROR",
        Level::Warn.text() == "WARN",
        Level::Info.text() == "INFO",
        Level::Debug.text() == "DEBUG",
        Level::Trace.text() == "TRACE",
{
}

/// The line of a record: its level, the message and a line feed.
pub proof fn lemma_record_line(level: Level, message: Seq<u8>)
    ensures
        record_text(level, message) == level.text().spec_bytes() + " - ".spec_bytes() + message
            + "\n".spec_bytes(),
        record_text(level, message).last() == 10,
{
    reveal_strlit("\n");
    is_ascii_spec_bytes("\n");
    assert("\n".spec_bytes() =~= seq![10u8]);
}

// ---------------------------------------------------------------------------
// Filters
// ---------------------------------------------------------------------------
proof fn lemma_filter_words()
    ensures
        "off".spec_bytes() == seq![111u8, 102, 102],
        "error".spec_bytes() == seq![101u8, 114, 114, 111, 114],
        "warn".spec_bytes() == seq![119u8, 97, 114, 110],
        "info".spec_bytes() == seq![105u8, 110, 102, 111],
        "debug".spec_bytes() == seq![100u8, 101, 98, 117, 103],
        "trace".spec_bytes() == seq![116u8, 114, 97, 99, 101],
{
    reveal_strlit("off");
    is_ascii_spec_bytes("off");
    reveal_strlit("error");
    is_ascii_spec_bytes("error");
    reveal_strlit("warn");
    is_ascii_spec_bytes("warn");
    reveal_strlit("info");
    is_ascii_spec_bytes("info");
    reveal_strlit("debug");
    is_ascii_spec_bytes("debug");
    reveal_strlit("trace");
    is_ascii_spec_bytes("trace");
    assert("off".spec_bytes() =~= seq![111u8, 102, 102]);
    assert("error".spec_bytes() =~= seq![101u8, 114, 114, 111, 114]);
    assert("warn".spec_bytes() =~= seq![119u8, 97, 114, 110]);
    assert("info".spec_bytes() =~= seq![105u8, 110, 102, 111]);
    assert("debug".spec_bytes() =~= seq![100u8, 101, 98, 117, 103]);
    assert("trace".spec_bytes() =~= seq![116u8, 114, 97, 99, 101]);
}

/// The names of the filters, in any letter case; nothing else names one.
pub proof fn lemma_filter_names(s: Seq<u8>)
    ensures
        filter_of(s) == Some(LevelFilter::Off) <==> same_ignoring_case(s, "off".spec_bytes()),
        filter_of(s) == Some(LevelFilter::Error) <==> same_ignoring_case(s, "error".spec_bytes()),
        filter_of(s) == Some(LevelFilter::Warn) <==> same_ignoring_case(s, "warn".spec_bytes()),
        filter_of(s) == Some(LevelFilter::Info) <==> same_ignoring_case(s, "info".spec_bytes()),
        filter_of(s) == Some(LevelFilter::Debug) <==> same_ignoring_case(s, "debug".spec_bytes()),
        filter_of(s) == Some(LevelFilter::Trace) <==> same_ignoring_case(s, "trace".spec_bytes()),
{
    lemma_filter_words();
    if s.len() > 0 {
        let b = lower(s[0]);
        assert(same_ignoring_case(s, "off".spec_bytes()) ==> b == 111 && s.len() == 3);
        assert(same_ignoring_case(s, "error".spec_bytes()) ==> b == 101 && s.len() == 5);
        assert(same_ignoring_case(s, "warn".spec_bytes()) ==> b == 119 && s.len() == 4);
        assert(same_ignoring_case(s, "info".spec_bytes()) ==> b == 105 && s.len() == 4);
        assert(same_ignoring_case(s, "debug".spec_bytes()) ==> b == 100 && s.len() == 5);
        assert(same_ignoring_case(s, "trace".spec_bytes()) ==> b == 116 && s.len() == 5);
    }
}

proof fn lemma_assignment(prefix: Seq<u8>, name: Seq<u8>)
    requires
        forall|i: int| 0 <= i < prefix.len() ==> #[trigger] prefix[i] != 61,
    ensures
        ({
            let d = prefix + seq![61u8] + name;
            &&& first_index(d, 61) == prefix.len()
            &&& d.subrange(0, prefix.len() as int) == prefix
            &&& d.skip(prefix.len() as int + 1) == name
        }),
{
    let d = prefix + seq![61u8] + name;
    let at = first_index(d, 61);
    lemma_first_place(d, 61, prefix.len() as int);
    if at < prefix.len() {
        assert(d[at] == prefix[at]);
    }
    assert(d[prefix.len() as int] == 61);
    assert(d.subrange(0, prefix.len() as int) =~= prefix);
    assert(d.skip(prefix.len() as int + 1) =~= name);
}

/// A directive with a prefix selects its filter for the targets that begin with it, unless a
/// longer prefix has selected; what is said of other targets, and what names no filter, is
/// passed over.
pub proof fn lemma_prefix_directives(s: Selection, prefix: Seq<u8>, name: Seq<u8>, target: Seq<u8>)
    requires
        forall|i: int| 0 <= i < prefix.len() ==> #[trigger] prefix[i] != 61,
    ensures
        ({
            let next = directed(s, prefix + seq![61u8] + name, target);
            &&& has_prefix(target, prefix) && prefix.len() >= s.prefix ==> (filter_of(
                name,
            ) matches Some(filter) ==> next.filter == filter && next.prefix == prefix.len())
            &&& !has_prefix(target, prefix) ==> next == s
            &&& prefix.len() < s.prefix ==> next == s
            &&& filter_of(name) is None ==> next == s
        }),
{
    lemma_assignment(prefix, name);
}

/// A directive without a prefix selects for all targets and leaves the prefix in force.
pub proof fn lemma_bare_directives(s: Selection, name: Seq<u8>, target: Seq<u8>)
    requires
        forall|i: int| 0 <= i < name.len() ==> #[trigger] name[i] != 61,
    ensures
        filter_of(name) matches Some(filter) ==> directed(s, name, target) == (Selection {
            filter,
            prefix: s.prefix,
        }),
        filter_of(name) is None ==> directed(s, name, target) == s,
{
    lemma_first_place(name, 61, 0);
    if first_index(name, 61) < name.len() {
        assert(name[first_index(name, 61)] != 61);
    }
}

/// Directives stand between commas and apply in their order.
pub proof fn lemma_directives_apply_in_order(
    s: Selection,
    first: Seq<u8>,
    rest: Seq<u8>,
    target: Seq<u8>,
)
    requires
        forall|i: int| 0 <= i < first.len() ==> #[trigger] first[i] != 44,
    ensures
        selected(s, first, target) == directed(s, first, target),
        selected(s, first + seq![44u8] + rest, target) == selected(
            directed(s, first, target),
            rest,
            target,
        ),
{
    lemma_first_place(first, 44, 0);
    if first_index(first, 44) < first.len() {
        assert(first[first_index(first, 44)] != 44);
    }
    assert(first.subrange(0, first.len() as int) =~= first);
    let d = first + seq![44u8] + rest;
    let at = first_index(d, 44);
    lemma_first_place(d, 44, first.len() as int);
    if at < first.len() {
        assert(d[at] == first[at]);
    }
    assert(d[first.len() as int] == 44);
    assert(d.subrange(0, first.len() as int) =~= first);
    assert(d.skip(first.len() as int + 1) =~= rest);
}

/// Without directives, the records that matter pass, and no others.
pub proof fn lemma_default_filter(target: Seq<u8>, level: Level)
    ensures
        filter_for(Seq::empty(), target) is Info,
        passes(Seq::empty(), level, target) <==> level is Error || level is Warn || level is Info,
{
    let none = Seq::<u8>::empty();
    lemma_filter_words();
    let s = Selection { filter: LevelFilter::Info, prefix: 0 };
    assert(none.subrange(0, 0) =~= none);
    assert(first_index(none, 44) == 0);
    assert(filter_of(none) is None);
    lemma_bare_directives(s, none, target);
    assert(selected(s, none, target) == directed(s, none.subrange(0, 0), target));
}

// ---------------------------------------------------------------------------
// Lines and queues
// ---------------------------------------------------------------------------
/// A buffer takes as much as it has room for, from the beginning of the text.
pub proof fn lemma_buffers_are_cut(s: Seq<u8>, t: Seq<u8>, capacity: int, i: int)
    requires
        s.len() <= capacity,
    ensures
        has_prefix(appended(s, t, capacity), s),
        s.len() + t.len() <= capacity ==> appended(s, t, capacity).len() == s.len() + t.len(),
        s.len() + t.len() > capacity ==> appended(s, t, capacity).len() == capacity,
        0 <= i && s.len() + i < appended(s, t, capacity).len() ==> appended(s, t, capacity)[s.len()
            + i] == t[i],
        t.len() <= 512 ==> response(t) == t,
        t.len() > 512 ==> response(t) == t.subrange(0, 512),
{
    assert(appended(s, t, capacity).subrange(0, s.len() as int) =~= s);
    assert(Seq::<u8>::empty() + t =~= t);
    if t.len() > 512 {
        assert(Seq::<u8>::empty() + t.subrange(0, 512) =~= t.subrange(0, 512));
    }
}

/// The line of a record is queued last among its own kind, and the other kind stays; with 96
/// lines that matter, or 16 verbose ones, the oldest of that kind is lost.
pub proof fn lemma_records_are_queued(b: BacklogView, level: Level, message: Seq<u8>)
    requires
        b.important.len() <= 96,
        b.verbose.len() <= 16,
    ensures
        ({
            let after = logged(b, level, message);
            let line = appended(Seq::empty(), record_text(level, message), 256);
            let matter = level is Error || level is Warn || level is Info;
            &&& matter ==> after.verbose == b.verbose && after.important.last() == line
            &&& matter && b.important.len() < 96 ==> after.important == b.important.push(line)
            &&& matter && b.important.len() == 96 ==> after.important
                == b.important.drop_first().push(line)
            &&& !matter ==> after.important == b.important && after.verbose.last() == line
            &&& !matter && b.verbose.len() < 16 ==> after.verbose == b.verbose.push(line)
            &&& !matter && b.verbose.len() == 16 ==> after.verbose == b.verbose.drop_first().push(
                line,
            )
            &&& after.important.len() <= 96 && after.verbose.len() <= 16
        }),
{
}

/// The lines that matter go first, each kind in its order; nothing is lost or repeated.
pub proof fn lemma_lines_are_taken_in_order(b: BacklogView)
    ensures
        taken(b).0 is None <==> b.important.len() == 0 && b.verbose.len() == 0,
        taken(b).0 is None ==> taken(b).1 == b,
        b.important.len() > 0 ==> (taken(b).0 matches Some(line) && seq![line]
            + taken(b).1.important == b.important && taken(b).1.verbose == b.verbose),
        b.important.len() == 0 && b.verbose.len() > 0 ==> (taken(b).0 matches Some(line)
            && seq![line] + taken(b).1.verbose == b.verbose && taken(b).1.important
            == b.important),
{
    if b.important.len() > 0 {
        assert(seq![b.important[0]] + b.important.drop_first() =~= b.important);
    } else if b.verbose.len() > 0 {
        assert(seq![b.verbose[0]] + b.verbose.drop_first() =~= b.verbose);
    }
}

/// A single directive decides for the targets with its prefix, the empty one included.
pub proof fn lemma_single_directive(prefix: Seq<u8>, name: Seq<u8>, target: Seq<u8>)
    requires
        forall|i: int| 0 <= i < prefix.len() ==> #[trigger] prefix[i] != 61 && prefix[i] != 44,
        forall|i: int| 0 <= i < name.len() ==> #[trigger] name[i] != 44,
    ensures
        has_prefix(target, prefix) ==> (filter_of(name) matches Some(filter) ==> filter_for(
            prefix + seq![61u8] + name,
            target,
        ) == filter),
        !has_prefix(target, prefix) || filter_of(name) is None ==> filter_for(
            prefix + seq![61u8] + name,
            target,
        ) is Info,
{
    let d = prefix + seq![61u8] + name;
    let s = Selection { filter: LevelFilter::Info, prefix: 0 };
    assert forall|i: int| 0 <= i < d.len() implies #[trigger] d[i] != 44 by {
        if i < prefix.len() {
            assert(d[i] == prefix[i]);
        } else if i > prefix.len() {
            assert(d[i] == name[i - prefix.len() - 1]);
        }
    }
    lemma_directives_apply_in_order(s, d, Seq::empty(), target);
    lemma_prefix_directives(s, prefix, name, target);
}

} // verus!
