//! Tracing: when a snapshot is taken, what is told of a sweep, and how the history counts.

use crate::link::{Reply, Request};
use crate::text::{contents, decimal, hex};
use crate::trace::{baseline_line, byte_lines, change_line, change_lines, changed, hex_list};
use crate::trace::{noise_line, noise_lines, snapshot_begin, snapshot_end, snapshot_line};
use crate::trace::{snapshot_lines, stable_line, sweep_line, sweep_lines};
use crate::trace::{sweep_stage, swept, trace_announcement};
use crate::trace::{trace_failure, traced, transition_line, volatile};
use crate::trace::{SweepReport, TraceStage, TraceStep, TraceView, Tracing};
use vstd::prelude::*;
use vstd::string::*;
use vstd::utf8::*;

verus! {

/// The line starts with a text.
pub open spec fn begins(line: Seq<u8>, text: Seq<u8>) -> bool {
    line.len() >= text.len() && line.subrange(0, text.len() as int) == text
}

/// The appliance shows another state or another phase than at the last sweep.
pub open spec fn moved_on(t: TraceView, current: Seq<u8>) -> bool {
    current[0xcd] != t.last_state || current[0xa2] != t.last_phase
}

/// The number of the snapshot that a transition takes.
pub open spec fn snapshot_number(t: TraceView) -> u32 {
    if t.snapshot_seq == 0xffff_ffff {
        0
    } else {
        (t.snapshot_seq + 1) as u32
    }
}

// ---------------------------------------------------------------------------
// Snapshots
// ---------------------------------------------------------------------------
/// A change of the state or of the phase takes the next snapshot number, and nothing else
/// does.
pub proof fn lemma_transitions_are_numbered(t: TraceView, current: Seq<u8>)
    requires
        t.initialized,
    ensures
        current[0xcd] != t.last_state ==> swept(t, current).snapshot_seq == snapshot_number(t),
        current[0xa2] != t.last_phase ==> swept(t, current).snapshot_seq == snapshot_number(t),
        current[0xcd] == t.last_state && current[0xa2] == t.last_phase ==> swept(
            t,
            current,
        ).snapshot_seq == t.snapshot_seq,
{
}

proof fn lemma_snapshot_lines(seq: u32, current: Seq<u8>, n: int)
    requires
        0 <= n,
    ensures
        snapshot_lines(seq, current, n).len() == n,
        forall|k: int|
            0 <= k < n ==> #[trigger] snapshot_lines(seq, current, n)[k] == snapshot_line(
                seq,
                k,
                current,
            ),
    decreases n,
{
    if n > 0 {
        lemma_snapshot_lines(seq, current, n - 1);
    }
}

/// A change of the state or of the phase is told with the whole memory: behind the changes
/// comes the announcement, then the 64 blocks in order, between a first and a last line.
pub proof fn lemma_transitions_take_a_snapshot(t: TraceView, current: Seq<u8>)
    requires
        t.initialized,
        moved_on(t, current),
    ensures
        ({
            let told = sweep_lines(t, current);
            let n = snapshot_number(t);
            let first = told.len() - 66;
            &&& first >= 1
            &&& told[first - 1] == transition_line(
                n,
                changed(t, current, 1024, false),
                changed(t, current, 1024, true),
            )
            &&& told[first] == snapshot_begin(n, t, current[0xcd], current[0xa2])
            &&& forall|k: int|
                0 <= k < 64 ==> #[trigger] told[first + 1 + k] == snapshot_line(n, k, current)
            &&& told[first + 65] == snapshot_end(n)
        }),
{
    let n = snapshot_number(t);
    lemma_snapshot_lines(n, current, 64);
    let told = sweep_lines(t, current);
    let first = told.len() - 66;
    assert forall|k: int| 0 <= k < 64 implies #[trigger] told[first + 1 + k] == snapshot_line(
        n,
        k,
        current,
    ) by {
        assert(snapshot_lines(n, current, 64)[k] == snapshot_line(n, k, current));
    }
}

proof fn lemma_change_line_begins(i: int, before: u8, after: u8)
    ensures
        begins(change_line(i, before, after), "ID410 TRACE 0x".spec_bytes()),
        !begins(change_line(i, before, after), "ID410 S".spec_bytes()),
{
    reveal_strlit("ID410 TRACE 0x");
    is_ascii_spec_bytes("ID410 TRACE 0x");
    reveal_strlit("ID410 S");
    is_ascii_spec_bytes("ID410 S");
    let line = change_line(i, before, after);
    let p = "ID410 TRACE 0x".spec_bytes();
    assert(line.subrange(0, p.len() as int) =~= p);
    assert(line[6] == p[6]);
    let q = "ID410 S".spec_bytes();
    assert(p[6] != q[6]);
    if line.subrange(0, q.len() as int) == q {
        assert(line.subrange(0, q.len() as int)[6] == line[6]);
    }
}

proof fn lemma_sweep_line_begins(stable: nat, noisy: nat, state: u8, phase: u8)
    ensures
        !begins(sweep_line(stable, noisy, state, phase), "ID410 S".spec_bytes()),
{
    reveal_strlit("ID410 TRACE sweep: ");
    is_ascii_spec_bytes("ID410 TRACE sweep: ");
    reveal_strlit("ID410 S");
    is_ascii_spec_bytes("ID410 S");
    let line = sweep_line(stable, noisy, state, phase);
    let p = "ID410 TRACE sweep: ".spec_bytes();
    assert(line.subrange(0, p.len() as int) =~= p);
    assert(line.subrange(0, p.len() as int)[6] == line[6]);
    let q = "ID410 S".spec_bytes();
    assert(p[6] != q[6]);
    if line.subrange(0, q.len() as int) == q {
        assert(line.subrange(0, q.len() as int)[6] == line[6]);
    }
}

proof fn lemma_plain_change_lines(t: TraceView, current: Seq<u8>, n: int)
    requires
        0 <= n <= 1024,
    ensures
        forall|k: int|
            0 <= k < change_lines(t, current, n, false).len() ==> begins(
                #[trigger] change_lines(t, current, n, false)[k],
                "ID410 TRACE 0x".spec_bytes(),
            ) && !begins(change_lines(t, current, n, false)[k], "ID410 S".spec_bytes()),
    decreases n,
{
    if n > 0 {
        lemma_plain_change_lines(t, current, n - 1);
        lemma_change_line_begins(n - 1, t.shadow[n - 1], current[n - 1]);
        let before = change_lines(t, current, n - 1, false);
        let all = change_lines(t, current, n, false);
        assert forall|k: int| 0 <= k < all.len() implies begins(
            #[trigger] all[k],
            "ID410 TRACE 0x".spec_bytes(),
        ) && !begins(all[k], "ID410 S".spec_bytes()) by {
            if k < before.len() {
                assert(all[k] == before[k]);
            }
        }
    }
}

/// A sweep that shows the same state and phase tells no snapshot, no transition and no
/// stable change.
pub proof fn lemma_other_sweeps_take_no_snapshot(t: TraceView, current: Seq<u8>)
    requires
        t.initialized,
        !moved_on(t, current),
    ensures
        forall|k: int|
            0 <= k < sweep_lines(t, current).len() ==> !begins(
                #[trigger] sweep_lines(t, current)[k],
                "ID410 S".spec_bytes(),
            ),
{
    lemma_plain_change_lines(t, current, 1024);
    let stable = changed(t, current, 1024, false);
    let noisy = changed(t, current, 1024, true);
    lemma_sweep_line_begins(stable, noisy, current[0xcd], current[0xa2]);
    let told = sweep_lines(t, current);
    let changes = change_lines(t, current, 1024, false);
    assert forall|k: int| 0 <= k < told.len() implies !begins(
        #[trigger] told[k],
        "ID410 S".spec_bytes(),
    ) by {
        if k < changes.len() {
            assert(told[k] == changes[k]);
        } else {
            assert(told[k] == sweep_line(stable, noisy, current[0xcd], current[0xa2]));
        }
    }
}

// ---------------------------------------------------------------------------
// What is told of the bytes
// ---------------------------------------------------------------------------
/// An address is noise once four sweeps were observed, with two changes at least and a
/// change in every fourth of them at least.
pub proof fn lemma_noise(count: u8, sweeps: u8)
    ensures
        sweeps < 4 ==> !volatile(count, sweeps),
        count < 2 ==> !volatile(count, sweeps),
        sweeps >= 4 && count >= 2 ==> (volatile(count, sweeps) <==> sweeps <= count + count + count
            + count),
{
}

/// How many of the first `n` bytes differ.
pub open spec fn differing(a: Seq<u8>, b: Seq<u8>, n: int) -> nat
    decreases n,
{
    if n <= 0 {
        0
    } else {
        differing(a, b, n - 1) + (if a[n - 1] != b[n - 1] {
            1nat
        } else {
            0
        })
    }
}

/// Every byte that differs counts as one change, stable or volatile.
pub proof fn lemma_every_change_counts(t: TraceView, current: Seq<u8>, n: int)
    ensures
        changed(t, current, n, false) + changed(t, current, n, true) == differing(
            t.shadow,
            current,
            n,
        ),
        t.observed_sweeps < 4 ==> changed(t, current, n, true) == 0,
    decreases n,
{
    if n > 0 {
        lemma_every_change_counts(t, current, n - 1);
    }
}

proof fn lemma_change_is_listed(t: TraceView, current: Seq<u8>, n: int, i: int, moved: bool)
    requires
        0 <= i < n,
        t.shadow[i] != current[i],
    ensures
        change_lines(t, current, n, moved).contains(change_line(i, t.shadow[i], current[i])),
        moved && !volatile(t.change_counts[i], t.observed_sweeps) ==> change_lines(
            t,
            current,
            n,
            moved,
        ).contains(
            stable_line(i, t.shadow[i], current[i], t.change_counts[i], t.observed_sweeps),
        ),
    decreases n,
{
    let all = change_lines(t, current, n, moved);
    let before = change_lines(t, current, n - 1, moved);
    let own = byte_lines(t, current, n - 1, moved);
    let plain = change_line(i, t.shadow[i], current[i]);
    let stable = stable_line(i, t.shadow[i], current[i], t.change_counts[i], t.observed_sweeps);
    if i == n - 1 {
        assert(own[0] == plain);
        assert(all[before.len() as int] == plain);
        if moved && !volatile(t.change_counts[i], t.observed_sweeps) {
            assert(own[1] == stable);
            assert(all[before.len() as int + 1] == stable);
        }
    } else {
        lemma_change_is_listed(t, current, n - 1, i, moved);
        let k = choose|k: int| 0 <= k < before.len() && before[k] == plain;
        assert(all[k] == plain);
        if moved && !volatile(t.change_counts[i], t.observed_sweeps) {
            let j = choose|j: int| 0 <= j < before.len() && before[j] == stable;
            assert(all[j] == stable);
        }
    }
}

/// Every byte that differs from the last sweep is told, with both values; and where the
/// state or the phase changed, once more with its history unless it is noise.
pub proof fn lemma_every_change_is_told(t: TraceView, current: Seq<u8>, i: int)
    requires
        t.initialized,
        0 <= i < 1024,
        t.shadow[i] != current[i],
    ensures
        sweep_lines(t, current).contains(change_line(i, t.shadow[i], current[i])),
        moved_on(t, current) && (t.observed_sweeps < 4 || t.change_counts[i] < 2 || 4
            * t.change_counts[i] < t.observed_sweeps) ==> sweep_lines(t, current).contains(
            stable_line(i, t.shadow[i], current[i], t.change_counts[i], t.observed_sweeps),
        ),
{
    let moved = moved_on(t, current);
    lemma_change_is_listed(t, current, 1024, i, moved);
    let changes = change_lines(t, current, 1024, moved);
    let told = sweep_lines(t, current);
    let plain = change_line(i, t.shadow[i], current[i]);
    let k = choose|k: int| 0 <= k < changes.len() && changes[k] == plain;
    assert(told[k] == plain);
    if moved && !volatile(t.change_counts[i], t.observed_sweeps) {
        let stable = stable_line(i, t.shadow[i], current[i], t.change_counts[i], t.observed_sweeps);
        let j = choose|j: int| 0 <= j < changes.len() && changes[j] == stable;
        assert(told[j] == stable);
    }
}

proof fn lemma_lines_and_changes(t: TraceView, current: Seq<u8>, n: int, moved: bool)
    requires
        0 <= n,
    ensures
        change_lines(t, current, n, moved).len() == changed(t, current, n, false) + changed(
            t,
            current,
            n,
            true,
        ) + (if moved {
            changed(t, current, n, false)
        } else {
            0
        }),
    decreases n,
{
    if n > 0 {
        lemma_lines_and_changes(t, current, n - 1, moved);
    }
}

/// How much is told: a line per byte that differs and one that sums them up; at a transition
/// one more per stable change, the announcement and a snapshot of 66 lines.
pub proof fn lemma_how_much_is_told(t: TraceView, current: Seq<u8>)
    requires
        t.initialized,
    ensures
        ({
            let changes = differing(t.shadow, current, 1024);
            let stable = changed(t, current, 1024, false);
            let summed: int = if changes > 0 {
                1
            } else {
                0
            };
            &&& !moved_on(t, current) ==> sweep_lines(t, current).len() == changes + summed
            &&& moved_on(t, current) ==> sweep_lines(t, current).len() == changes + stable + summed
                + 67
        }),
{
    lemma_every_change_counts(t, current, 1024);
    lemma_lines_and_changes(t, current, 1024, moved_on(t, current));
    lemma_snapshot_lines(snapshot_number(t), current, 64);
}

/// The line that sums up the changes tells how many there are, of which kind, and where
/// the appliance stands.
pub proof fn lemma_changes_are_summed_up(t: TraceView, current: Seq<u8>)
    requires
        t.initialized,
        differing(t.shadow, current, 1024) > 0,
    ensures
        sweep_lines(t, current).contains(
            sweep_line(
                changed(t, current, 1024, false),
                changed(t, current, 1024, true),
                current[0xcd],
                current[0xa2],
            ),
        ),
{
    lemma_every_change_counts(t, current, 1024);
    let told = sweep_lines(t, current);
    let changes = change_lines(t, current, 1024, moved_on(t, current));
    assert(told[changes.len() as int] == sweep_line(
        changed(t, current, 1024, false),
        changed(t, current, 1024, true),
        current[0xcd],
        current[0xa2],
    ));
}

/// The lines of a trace, word for word.
pub proof fn lemma_trace_lines(t: TraceView, i: int, a: u8, b: u8, n: u32, s: nat, v: nat)
    requires
        0 <= i,
    ensures
        change_line(i, a, b) == "ID410 TRACE 0x".spec_bytes() + hex(i as nat, 4)
            + " ".spec_bytes() + hex(a as nat, 2) + "->".spec_bytes() + hex(b as nat, 2),
        snapshot_begin(n, t, a, b) == "ID410 SNAPSHOT BEGIN seq=".spec_bytes() + decimal(n as nat)
            + " state=".spec_bytes() + hex(t.last_state as nat, 2) + "->".spec_bytes() + hex(
            a as nat,
            2,
        ) + " phase=".spec_bytes() + hex(t.last_phase as nat, 2) + "->".spec_bytes() + hex(
            b as nat,
            2,
        ),
        snapshot_end(n) == "ID410 SNAPSHOT END seq=".spec_bytes() + decimal(n as nat),
        transition_line(n, s, v) == "ID410 STABLE transition seq=".spec_bytes() + decimal(n as nat)
            + ": ".spec_bytes() + decimal(s) + " stable change(s), ".spec_bytes() + decimal(v)
            + " volatile change(s) suppressed".spec_bytes(),
        sweep_line(s, v, a, b) == "ID410 TRACE sweep: ".spec_bytes() + decimal(s + v)
            + " byte(s) changed (".spec_bytes() + decimal(s) + " stable, ".spec_bytes() + decimal(v)
            + " volatile), state=0x".spec_bytes() + hex(a as nat, 2) + ", phase=0x".spec_bytes()
            + hex(b as nat, 2),
{
}

// ---------------------------------------------------------------------------
// The history
// ---------------------------------------------------------------------------
/// The first sweep is the baseline: it is told in one line and counts for nothing.
pub proof fn lemma_first_sweep_is_the_baseline(t: TraceView, current: Seq<u8>)
    requires
        !t.initialized,
    ensures
        sweep_lines(t, current) == seq![baseline_line(current[0xcd], current[0xa2])],
        swept(t, current).initialized,
        swept(t, current).shadow == current,
        swept(t, current).last_state == current[0xcd],
        swept(t, current).last_phase == current[0xa2],
        swept(t, current).snapshot_seq == t.snapshot_seq,
        swept(t, current).observed_sweeps == t.observed_sweeps,
        swept(t, current).change_counts == t.change_counts,
{
}

/// Every later sweep is what the next one is held against, and one more observation: an
/// address that differs has changed once more. A full history is halved first.
pub proof fn lemma_sweeps_are_counted(t: TraceView, current: Seq<u8>, i: int)
    requires
        t.initialized,
        0 <= i < 1024,
        t.change_counts.len() == 1024,
    ensures
        ({
            let after = swept(t, current);
            let differs = t.shadow[i] != current[i];
            &&& after.initialized
            &&& after.shadow == current
            &&& after.last_state == current[0xcd]
            &&& after.last_phase == current[0xa2]
            &&& after.checked_device == t.checked_device
            &&& after.enabled_for_device == t.enabled_for_device
            &&& t.observed_sweeps < 255 ==> after.observed_sweeps == t.observed_sweeps + 1
            &&& t.observed_sweeps == 255 ==> after.observed_sweeps == 128
            &&& t.observed_sweeps < 255 && !differs ==> after.change_counts[i]
                == t.change_counts[i]
            &&& t.observed_sweeps < 255 && differs && t.change_counts[i] < 255
                ==> after.change_counts[i] == t.change_counts[i] + 1
            &&& t.observed_sweeps == 255 && !differs ==> after.change_counts[i]
                == t.change_counts[i] as int / 2
            &&& t.observed_sweeps == 255 && differs ==> after.change_counts[i] == 1
                + t.change_counts[i] as int / 2
        }),
{
}

/// Two sweeps that show the same memory: the second is told in no line.
pub proof fn lemma_same_memory_is_silent(t: TraceView, current: Seq<u8>)
    requires
        current.len() == 1024,
    ensures
        sweep_lines(swept(t, current), current).len() == 0,
        swept(swept(t, current), current).snapshot_seq == swept(t, current).snapshot_seq,
{
    let after = swept(t, current);
    crate::trace::lemma_unchanged_memory_is_silent(after);
}

/// An address that becomes noise is told in the verbose log, with its history.
pub proof fn lemma_new_noise_is_told(t: TraceView, current: Seq<u8>, n: int, i: int)
    requires
        t.initialized,
        0 <= i < n <= 1024,
        t.observed_sweeps < 255,
        t.change_counts.len() == 1024,
        t.shadow[i] != current[i],
        t.change_counts[i] < 255,
        !volatile(t.change_counts[i], t.observed_sweeps),
        volatile((t.change_counts[i] + 1) as u8, (t.observed_sweeps + 1) as u8),
    ensures
        noise_lines(t, current, n).contains(
            noise_line(i, (t.change_counts[i] + 1) as u8, (t.observed_sweeps + 1) as u8),
        ),
    decreases n,
{
    let line = noise_line(i, (t.change_counts[i] + 1) as u8, (t.observed_sweeps + 1) as u8);
    let all = noise_lines(t, current, n);
    if i == n - 1 {
        assert(all.last() == line);
        assert(all[all.len() - 1] == line);
    } else {
        lemma_new_noise_is_told(t, current, n - 1, i);
        let before = noise_lines(t, current, n - 1);
        let k = choose|k: int| 0 <= k < before.len() && before[k] == line;
        assert(all[k] == line);
    }
}

/// Nothing else is told there.
pub proof fn lemma_only_new_noise_is_told(t: TraceView, current: Seq<u8>, n: int)
    requires
        0 <= n <= 1024,
        t.observed_sweeps < 255,
        t.change_counts.len() == 1024,
        forall|i: int|
            0 <= i < 1024 && t.shadow[i] != current[i] ==> (volatile(
                #[trigger] t.change_counts[i],
                t.observed_sweeps,
            ) || t.change_counts[i] == 255 || !volatile(
                (t.change_counts[i] + 1) as u8,
                (t.observed_sweeps + 1) as u8,
            )) && t.change_counts[i] < 255,
    ensures
        noise_lines(t, current, n).len() == 0,
    decreases n,
{
    if n > 0 {
        lemma_only_new_noise_is_told(t, current, n - 1);
        assert(t.change_counts[n - 1] >= 0);
    }
}

// ---------------------------------------------------------------------------
// Reading a sweep
// ---------------------------------------------------------------------------
/// What a sweep asks for: only reads, behind the handshake.
pub proof fn lemma_sweep_operations(s: Tracing)
    requires
        s.well_formed(),
    ensures
        s.stage is Identify || s.stage is Query ==> s.operation() == Request::QueryId,
        s.stage is Settle ==> s.operation() == (Request::Pause { ms: 250 }),
        s.stage is Unlock ==> s.operation() == (Request::Unlock { key: 0x43ea }),
        s.stage is Read ==> s.operation() == (Request::ReadMemory {
            address: s.filled as u32,
            length: 16,
            timeout_ms: 2000,
        }) && s.filled % 16 == 0 && s.filled < 1024,
        s.stage is Rest ==> s.operation() == (Request::Pause { ms: 5 }),
{
}

/// A sweep begins with the identification of an appliance that is not known, and not at all
/// with one that is not to be traced.
pub proof fn lemma_sweep_begins(t: TraceView)
    ensures
        !t.checked_device ==> sweep_stage(t) == Some(TraceStage::Identify),
        t.checked_device && t.enabled_for_device ==> sweep_stage(t) == Some(TraceStage::Settle),
        t.checked_device && !t.enabled_for_device ==> sweep_stage(t) is None,
{
}

/// An appliance is traced if and only if its software ID is 410; one that later answers
/// otherwise is traced no more.
pub proof fn lemma_only_id410_is_traced(
    t: TraceView,
    s: Tracing,
    id: u16,
    after: TraceView,
    step: TraceStep,
)
    requires
        traced(t, s, Reply::Id(id), after, step),
    ensures
        s.stage is Identify ==> after.checked_device && (after.enabled_for_device <==> id == 410),
        s.stage is Identify ==> (step is Disabled <==> id != 410),
        s.stage is Identify && id == 410 ==> (step matches TraceStep::Do(next) && next.stage
            is Settle),
        s.stage is Query && id != 410 ==> step is Failed && !after.enabled_for_device
            && after.checked_device == t.checked_device,
        s.stage is Query && id == 410 ==> after == t && (step matches TraceStep::Do(next)
            && next.stage is Unlock),
{
}

/// The way of a sweep: each stage leads to the next, a block at a time, until the memory is
/// complete; the sweep is taken then, and not before.
pub proof fn lemma_sweep_goes_on(
    t: TraceView,
    s: Tracing,
    reply: Reply,
    after: TraceView,
    step: TraceStep,
)
    requires
        s.well_formed(),
        traced(t, s, reply, after, step),
    ensures
        s.stage is Settle ==> (step matches TraceStep::Do(next) && next.stage is Query
            && next.filled == 0),
        s.stage is Unlock ==> (reply is Done <==> step is Do) && (reply is Done <==> !(step
            is Failed)),
        s.stage is Unlock ==> (step matches TraceStep::Do(next) ==> next.stage is Read
            && next.filled == s.filled),
        s.stage is Read ==> (reply is Data <==> step is Do) && (reply is Data <==> !(step
            is Failed)),
        s.stage is Read ==> (step matches TraceStep::Do(next) ==> next.stage is Rest && next.filled
            == s.filled + 16),
        s.stage is Rest && s.filled < 1024 ==> after == t && (step matches TraceStep::Do(next)
            && next.stage is Read && next.filled == s.filled && next.current@ == s.current@),
        step is Swept <==> s.stage is Rest && s.filled == 1024,
        s.stage is Rest && s.filled == 1024 ==> after.initialized && after.shadow == s.current@,
{
}

/// What is read is kept where it belongs.
pub proof fn lemma_blocks_are_kept(
    t: TraceView,
    s: Tracing,
    data: Vec<u8>,
    after: TraceView,
    next: Tracing,
    i: int,
)
    requires
        s.well_formed(),
        s.stage is Read,
        data@.len() == 16,
        traced(t, s, Reply::Data(data), after, TraceStep::Do(next)),
    ensures
        0 <= i < s.filled ==> next.current@[i] == s.current@[i],
        0 <= i < 16 ==> next.current@[s.filled + i] == data@[i],
{
    let got = next.current@.subrange(0, s.filled + 16);
    assert(0 <= i < s.filled ==> got[i] == next.current@[i] && s.current@.subrange(
        0,
        s.filled as int,
    )[i] == s.current@[i]);
    assert(0 <= i < 16 ==> got[s.filled + i] == next.current@[s.filled + i]);
}

/// A sweep fails on a reply that is not the wanted one, and on no other; a pause never fails.
pub proof fn lemma_sweep_failures(s: Tracing, reply: Reply)
    ensures
        s.stage is Identify ==> (trace_failure(s, reply) is None <==> reply is Id),
        s.stage is Query ==> (trace_failure(s, reply) is None <==> reply == Reply::Id(410)),
        s.stage is Unlock ==> (trace_failure(s, reply) is None <==> reply is Done),
        s.stage is Read ==> (trace_failure(s, reply) is None <==> reply is Data),
        s.stage is Settle || s.stage is Rest ==> trace_failure(s, reply) is None,
{
}

/// What a failed sweep is told with: the step that failed and the link's own words.
pub proof fn lemma_sweep_failure_texts(s: Tracing, e: Vec<u8>, id: u16)
    ensures
        s.stage is Identify ==> trace_failure(s, Reply::TimedOut(e)) == Some(
            "software-ID query".spec_bytes() + " timed out: ".spec_bytes() + e@,
        ),
        s.stage is Query ==> trace_failure(s, Reply::TimedOut(e)) == Some(
            "trace software-ID query".spec_bytes() + " timed out: ".spec_bytes() + e@,
        ),
        s.stage is Unlock ==> trace_failure(s, Reply::TimedOut(e)) == Some(
            "trace read unlock".spec_bytes() + " timed out: ".spec_bytes() + e@,
        ),
        s.stage is Identify || s.stage is Query || s.stage is Unlock ==> trace_failure(
            s,
            Reply::Failed(e),
        ) == Some(e@),
        s.stage is Query && id != 410 ==> trace_failure(s, Reply::Id(id)) == Some(
            "trace handshake unexpectedly returned software ID ".spec_bytes() + decimal(id as nat),
        ),
        s.stage is Read ==> trace_failure(s, Reply::TimedOut(e)) == Some(
            "RAM read 0x".spec_bytes() + hex(s.filled as nat, 4) + (" timed out: ".spec_bytes()
                + e@),
        ),
        s.stage is Read ==> trace_failure(s, Reply::Failed(e)) == Some(
            "RAM read 0x".spec_bytes() + hex(s.filled as nat, 4) + (" failed: ".spec_bytes() + e@),
        ),
{
}

/// Whether the appliance is traced is told once it is identified, and only then.
pub proof fn lemma_tracing_is_announced(s: Tracing, reply: Reply, id: u16, interval_s: u64)
    ensures
        trace_announcement(s, reply, interval_s) is Some <==> s.stage is Identify && reply is Id,
        s.stage is Identify ==> trace_announcement(s, Reply::Id(410), interval_s) == Some(
            "ID410 TRACE enabled: read-only 0x0000..0x03ff sweep every ".spec_bytes() + decimal(
                interval_s as nat,
            ) + " s".spec_bytes(),
        ),
        s.stage is Identify && id != 410 ==> trace_announcement(s, Reply::Id(id), interval_s)
            == Some(
            "ID410 TRACE disabled: connected appliance has software ID ".spec_bytes() + decimal(
                id as nat,
            ),
        ),
{
}

/// A sweep that fails leaves everything as it was, unless another appliance answered: that
/// one is traced no more.
pub proof fn lemma_failed_sweeps_change_nothing(
    t: TraceView,
    s: Tracing,
    reply: Reply,
    after: TraceView,
    step: TraceStep,
)
    requires
        traced(t, s, reply, after, step),
        step is Failed,
    ensures
        !(s.stage is Query && reply is Id) ==> after == t,
        s.stage is Query && reply is Id ==> after == (TraceView { enabled_for_device: false, ..t }),
{
}

/// The longer lines of a trace, word for word.
pub proof fn lemma_long_trace_lines(i: int, a: u8, b: u8, c: u8, o: u8, n: u32, current: Seq<u8>)
    requires
        0 <= i,
    ensures
        stable_line(i, a, b, c, o) == "ID410 STABLE 0x".spec_bytes() + hex(i as nat, 4)
            + " ".spec_bytes() + hex(a as nat, 2) + "->".spec_bytes() + hex(b as nat, 2)
            + " history=".spec_bytes() + decimal(c as nat) + "/".spec_bytes() + decimal(o as nat),
        noise_line(i, c, o) == "ID410 TRACE volatile 0x".spec_bytes() + hex(i as nat, 4)
            + ": ".spec_bytes() + decimal(c as nat) + "/".spec_bytes() + decimal(o as nat)
            + " sweeps changed".spec_bytes(),
        baseline_line(a, b) == "ID410 TRACE baseline captured: state=0x".spec_bytes() + hex(
            a as nat,
            2,
        ) + " phase=0x".spec_bytes() + hex(b as nat, 2),
        snapshot_line(n, i, current) == "ID410 SNAPSHOT seq=".spec_bytes() + decimal(n as nat)
            + " ".spec_bytes() + hex((16 * i) as nat, 4) + " [".spec_bytes() + hex_list(
            current.subrange(16 * i, 16 * i + 16),
        ) + "]".spec_bytes(),
{
}

/// A list of bytes: two digits each, with a comma between them.
pub proof fn lemma_byte_lists(data: Seq<u8>, b: u8)
    ensures
        hex_list(Seq::empty()) == Seq::<u8>::empty(),
        hex_list(seq![b]) == hex(b as nat, 2),
        data.len() > 0 ==> hex_list(data.push(b)) == hex_list(data) + ", ".spec_bytes() + hex(
            b as nat,
            2,
        ),
{
    assert(data.push(b).drop_last() =~= data);
}

/// A complete sweep tells what it has to tell: in the log the changes, and in the verbose log
/// the addresses that became noise, except for the first sweep.
pub proof fn lemma_complete_sweeps_are_told(
    t: TraceView,
    s: Tracing,
    reply: Reply,
    after: TraceView,
    report: SweepReport,
)
    requires
        s.well_formed(),
        traced(t, s, reply, after, TraceStep::Swept(report)),
    ensures
        contents(report.lines@) == sweep_lines(t, s.current@),
        t.initialized ==> contents(report.verbose@) == noise_lines(t, s.current@, 1024),
        !t.initialized ==> contents(report.verbose@).len() == 0,
        after == swept(t, s.current@),
{
}

} // verus!
