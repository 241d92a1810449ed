//! Read-only tracing of the memory of appliances with software ID 410.
//!
//! A sweep reads the whole memory and compares it with the previous one. What
//! changed is logged; bytes that change all the time are told apart from those
//! that mark a transition of the appliance's state.

use crate::link::{Reply, Request};
use crate::text::{contents, copy_of, decimal, hex, push_bytes, push_decimal, push_hex, push_text};
use crate::text::{no_lines, push_line, text_bytes};
use vstd::prelude::*;
use vstd::string::*;
use vstd::utf8::*;

verus! {

/// How long one read may take.
pub const ID410_TRACE_BLOCK_TIMEOUT_MS: u64 = 2000;

/// The key that unlocks reads of software ID 410.
pub const ID410_READ_KEY: u16 = 0x43ea;

/// The software ID that is traced.
pub const ID410: u16 = 410;

/// The idle gap before a sweep. Starting right behind a property poll has been
/// observed to make the controller stop replying.
pub const SETTLE_MS: u64 = 250;

/// The pause behind each read, so that the old controller is not hammered with
/// an uninterrupted train of requests.
pub const BLOCK_REST_MS: u64 = 5;

/// Where the appliance's state stands in memory.
pub const STATE_ADDRESS: usize = 0xcd;

/// Where the appliance's phase stands in memory.
pub const PHASE_ADDRESS: usize = 0xa2;

/// An address counts as noise once enough sweeps were observed and it changed in
/// at least a quarter of them.
pub open spec fn volatile(change_count: u8, observed_sweeps: u8) -> bool {
    observed_sweeps >= 4 && change_count >= 2 && 4 * change_count >= observed_sweeps
}

/// Tells whether an address counts as noise.
pub fn id410_trace_is_volatile(change_count: u8, observed_sweeps: u8) -> (r: bool)
    ensures
        r == volatile(change_count, observed_sweeps),
{
    observed_sweeps >= 4 && change_count >= 2 && u16::from(change_count) * 4 >= u16::from(
        observed_sweeps,
    )
}

/// What is known of the traced appliance.
#[derive(Debug)]
pub struct Id410Trace {
    pub checked_device: bool,
    pub enabled_for_device: bool,
    pub initialized: bool,
    pub snapshot_seq: u32,
    pub last_state: u8,
    pub last_phase: u8,
    pub observed_sweeps: u8,
    pub change_counts: [u8; 1024],
    pub shadow: [u8; 1024],
}

/// What is known of the traced appliance, in the abstract.
#[verifier::ext_equal]
pub ghost struct TraceView {
    pub checked_device: bool,
    pub enabled_for_device: bool,
    pub initialized: bool,
    pub snapshot_seq: u32,
    pub last_state: u8,
    pub last_phase: u8,
    pub observed_sweeps: u8,
    pub change_counts: Seq<u8>,
    pub shadow: Seq<u8>,
}

impl View for Id410Trace {
    type V = TraceView;

    open spec fn view(&self) -> TraceView {
        TraceView {
            checked_device: self.checked_device,
            enabled_for_device: self.enabled_for_device,
            initialized: self.initialized,
            snapshot_seq: self.snapshot_seq,
            last_state: self.last_state,
            last_phase: self.last_phase,
            observed_sweeps: self.observed_sweeps,
            change_counts: self.change_counts@,
            shadow: self.shadow@,
        }
    }
}

/// `1024` zero bytes.
pub open spec fn zeros() -> Seq<u8> {
    Seq::new(1024, |i: int| 0u8)
}

impl Id410Trace {
    /// Before anything was observed.
    pub fn new() -> (r: Id410Trace)
        ensures
            r@ == (TraceView {
                checked_device: false,
                enabled_for_device: false,
                initialized: false,
                snapshot_seq: 0,
                last_state: 0,
                last_phase: 0,
                observed_sweeps: 0,
                change_counts: zeros(),
                shadow: zeros(),
            }),
    {
        let r = Id410Trace {
            checked_device: false,
            enabled_for_device: false,
            initialized: false,
            snapshot_seq: 0,
            last_state: 0,
            last_phase: 0,
            observed_sweeps: 0,
            change_counts: [0; 1024],
            shadow: [0; 1024],
        };
        assert(r@.change_counts =~= zeros());
        assert(r@.shadow =~= zeros());
        r
    }
}

// ---------------------------------------------------------------------------
// Log lines
// ---------------------------------------------------------------------------
/// The bytes in brackets, in hexadecimal.
pub open spec fn hex_list(data: Seq<u8>) -> Seq<u8>
    decreases data.len(),
{
    if data.len() == 0 {
        Seq::empty()
    } else if data.len() == 1 {
        hex(data[0] as nat, 2)
    } else {
        hex_list(data.drop_last()) + ", ".spec_bytes() + hex(data.last() as nat, 2)
    }
}

/// The line for a byte that changed.
pub open spec fn change_line(offset: int, before: u8, after: u8) -> Seq<u8> {
    "ID410 TRACE 0x".spec_bytes() + hex(offset as nat, 4) + " ".spec_bytes() + hex(before as nat, 2)
        + "->".spec_bytes() + hex(after as nat, 2)
}

/// The line for a byte that changed with the state and is not noise.
pub open spec fn stable_line(offset: int, before: u8, after: u8, count: u8, observed: u8) -> Seq<
    u8,
> {
    "ID410 STABLE 0x".spec_bytes() + hex(offset as nat, 4) + " ".spec_bytes() + hex(
        before as nat,
        2,
    ) + "->".spec_bytes() + hex(after as nat, 2) + " history=".spec_bytes() + decimal(count as nat)
        + "/".spec_bytes() + decimal(observed as nat)
}

/// The lines for one byte.
pub open spec fn byte_lines(t: TraceView, current: Seq<u8>, i: int, transition: bool) -> Seq<
    Seq<u8>,
> {
    let before = t.shadow[i];
    let after = current[i];
    if before == after {
        Seq::empty()
    } else if transition && !volatile(t.change_counts[i], t.observed_sweeps) {
        seq![
            change_line(i, before, after),
            stable_line(i, before, after, t.change_counts[i], t.observed_sweeps),
        ]
    } else {
        seq![change_line(i, before, after)]
    }
}

/// The lines for the first `n` bytes.
pub open spec fn change_lines(t: TraceView, current: Seq<u8>, n: int, transition: bool) -> Seq<
    Seq<u8>,
>
    decreases n,
{
    if n <= 0 {
        Seq::empty()
    } else {
        change_lines(t, current, n - 1, transition) + byte_lines(t, current, n - 1, transition)
    }
}

/// How many of the first `n` bytes changed and are noise, or are not.
pub open spec fn changed(t: TraceView, current: Seq<u8>, n: int, noise: bool) -> nat
    decreases n,
{
    if n <= 0 {
        0
    } else {
        changed(t, current, n - 1, noise) + (if t.shadow[n - 1] != current[n - 1] && volatile(
            t.change_counts[n - 1],
            t.observed_sweeps,
        ) == noise {
            1nat
        } else {
            0
        })
    }
}

/// The line that sums up a sweep in which something changed.
pub open spec fn sweep_line(stable: nat, noisy: nat, state: u8, phase: u8) -> Seq<u8> {
    "ID410 TRACE sweep: ".spec_bytes() + decimal(stable + noisy) + " byte(s) changed (".spec_bytes()
        + decimal(stable) + " stable, ".spec_bytes() + decimal(noisy)
        + " volatile), state=0x".spec_bytes() + hex(state as nat, 2) + ", phase=0x".spec_bytes()
        + hex(phase as nat, 2)
}

/// The line that announces a transition.
pub open spec fn transition_line(seq: u32, stable: nat, noisy: nat) -> Seq<u8> {
    "ID410 STABLE transition seq=".spec_bytes() + decimal(seq as nat) + ": ".spec_bytes() + decimal(
        stable,
    ) + " stable change(s), ".spec_bytes() + decimal(noisy)
        + " volatile change(s) suppressed".spec_bytes()
}

/// The line before a snapshot.
pub open spec fn snapshot_begin(seq: u32, t: TraceView, state: u8, phase: u8) -> Seq<u8> {
    "ID410 SNAPSHOT BEGIN seq=".spec_bytes() + decimal(seq as nat) + " state=".spec_bytes() + hex(
        t.last_state as nat,
        2,
    ) + "->".spec_bytes() + hex(state as nat, 2) + " phase=".spec_bytes() + hex(
        t.last_phase as nat,
        2,
    ) + "->".spec_bytes() + hex(phase as nat, 2)
}

/// The line for block `k` of a snapshot.
pub open spec fn snapshot_line(seq: u32, k: int, current: Seq<u8>) -> Seq<u8> {
    "ID410 SNAPSHOT seq=".spec_bytes() + decimal(seq as nat) + " ".spec_bytes() + hex(
        (16 * k) as nat,
        4,
    ) + " [".spec_bytes() + hex_list(current.subrange(16 * k, 16 * k + 16)) + "]".spec_bytes()
}

/// The line behind a snapshot.
pub open spec fn snapshot_end(seq: u32) -> Seq<u8> {
    "ID410 SNAPSHOT END seq=".spec_bytes() + decimal(seq as nat)
}

/// The lines for the first `n` blocks of a snapshot.
pub open spec fn snapshot_lines(seq: u32, current: Seq<u8>, n: int) -> Seq<Seq<u8>>
    decreases n,
{
    if n <= 0 {
        Seq::empty()
    } else {
        snapshot_lines(seq, current, n - 1).push(snapshot_line(seq, n - 1, current))
    }
}

/// The line for the first sweep.
pub open spec fn baseline_line(state: u8, phase: u8) -> Seq<u8> {
    "ID410 TRACE baseline captured: state=0x".spec_bytes() + hex(state as nat, 2)
        + " phase=0x".spec_bytes() + hex(phase as nat, 2)
}

/// The line for an address that has become noise.
pub open spec fn noise_line(offset: int, count: u8, observed: u8) -> Seq<u8> {
    "ID410 TRACE volatile 0x".spec_bytes() + hex(offset as nat, 4) + ": ".spec_bytes() + decimal(
        count as nat,
    ) + "/".spec_bytes() + decimal(observed as nat) + " sweeps changed".spec_bytes()
}

fn push_hex_list(out: &mut Vec<u8>, data: &[u8])
    ensures
        final(out)@ == old(out)@ + hex_list(data@),
{
    let ghost before = out@;
    for i in 0..data.len()
        invariant
            out@ == before + hex_list(data@.subrange(0, i as int)),
    {
        proof {
            let next = data@.subrange(0, i + 1);
            assert(next.drop_last() =~= data@.subrange(0, i as int));
        }
        if i > 0 {
            push_text(out, ", ");
        }
        push_hex(out, data[i] as u64, 2);
        assert(out@ =~= before + hex_list(data@.subrange(0, i + 1)));
    }
    assert(data@.subrange(0, data@.len() as int) =~= data@);
    assert(out@ =~= before + hex_list(data@));
}

fn write_change(offset: usize, before: u8, after: u8) -> (r: Vec<u8>)
    ensures
        r@ == change_line(offset as int, before, after),
{
    let mut out = text_bytes("ID410 TRACE 0x");
    push_hex(&mut out, offset as u64, 4);
    push_text(&mut out, " ");
    push_hex(&mut out, before as u64, 2);
    push_text(&mut out, "->");
    push_hex(&mut out, after as u64, 2);
    out
}

fn write_stable(offset: usize, before: u8, after: u8, count: u8, observed: u8) -> (r: Vec<u8>)
    ensures
        r@ == stable_line(offset as int, before, after, count, observed),
{
    let mut out = text_bytes("ID410 STABLE 0x");
    push_hex(&mut out, offset as u64, 4);
    push_text(&mut out, " ");
    push_hex(&mut out, before as u64, 2);
    push_text(&mut out, "->");
    push_hex(&mut out, after as u64, 2);
    push_text(&mut out, " history=");
    push_decimal(&mut out, count as u64);
    push_text(&mut out, "/");
    push_decimal(&mut out, observed as u64);
    out
}

fn write_sweep(stable: usize, noisy: usize, state: u8, phase: u8) -> (r: Vec<u8>)
    requires
        stable + noisy <= 1024,
    ensures
        r@ == sweep_line(stable as nat, noisy as nat, state, phase),
{
    let mut out = text_bytes("ID410 TRACE sweep: ");
    push_decimal(&mut out, (stable + noisy) as u64);
    push_text(&mut out, " byte(s) changed (");
    push_decimal(&mut out, stable as u64);
    push_text(&mut out, " stable, ");
    push_decimal(&mut out, noisy as u64);
    push_text(&mut out, " volatile), state=0x");
    push_hex(&mut out, state as u64, 2);
    push_text(&mut out, ", phase=0x");
    push_hex(&mut out, phase as u64, 2);
    out
}

fn write_transition(seq: u32, stable: usize, noisy: usize) -> (r: Vec<u8>)
    ensures
        r@ == transition_line(seq, stable as nat, noisy as nat),
{
    let mut out = text_bytes("ID410 STABLE transition seq=");
    push_decimal(&mut out, seq as u64);
    push_text(&mut out, ": ");
    push_decimal(&mut out, stable as u64);
    push_text(&mut out, " stable change(s), ");
    push_decimal(&mut out, noisy as u64);
    push_text(&mut out, " volatile change(s) suppressed");
    out
}

fn write_snapshot(seq: u32, k: usize, current: &[u8]) -> (r: Vec<u8>)
    requires
        k < 64,
        current@.len() == 1024,
    ensures
        r@ == snapshot_line(seq, k as int, current@),
{
    let mut out = text_bytes("ID410 SNAPSHOT seq=");
    push_decimal(&mut out, seq as u64);
    push_text(&mut out, " ");
    push_hex(&mut out, (16 * k) as u64, 4);
    push_text(&mut out, " [");
    push_hex_list(&mut out, vstd::slice::slice_subrange(current, 16 * k, 16 * k + 16));
    push_text(&mut out, "]");
    out
}

fn write_noise(offset: usize, count: u8, observed: u8) -> (r: Vec<u8>)
    ensures
        r@ == noise_line(offset as int, count, observed),
{
    let mut out = text_bytes("ID410 TRACE volatile 0x");
    push_hex(&mut out, offset as u64, 4);
    push_text(&mut out, ": ");
    push_decimal(&mut out, count as u64);
    push_text(&mut out, "/");
    push_decimal(&mut out, observed as u64);
    push_text(&mut out, " sweeps changed");
    out
}

// ---------------------------------------------------------------------------
// Sweeps
// ---------------------------------------------------------------------------
/// `b + 1`, held at its largest value.
pub open spec fn counted_byte(b: u8) -> u8 {
    if b == 255 {
        255
    } else {
        (b + 1) as u8
    }
}

/// The history, halved where the observation window is full, so that long runs
/// keep a useful recent ratio.
pub open spec fn decayed(t: TraceView) -> TraceView {
    if t.observed_sweeps == 255 {
        TraceView {
            observed_sweeps: 127,
            change_counts: Seq::new(1024, |i: int| (t.change_counts[i] / 2) as u8),
            ..t
        }
    } else {
        t
    }
}

/// The history with the changes of one more sweep.
pub open spec fn observed(t: TraceView, current: Seq<u8>) -> TraceView {
    TraceView {
        observed_sweeps: counted_byte(t.observed_sweeps),
        change_counts: Seq::new(
            1024,
            |i: int|
                if t.shadow[i] != current[i] {
                    counted_byte(t.change_counts[i])
                } else {
                    t.change_counts[i]
                },
        ),
        ..t
    }
}

/// The sweep shows another state or phase than the last one.
pub open spec fn is_transition(t: TraceView, current: Seq<u8>) -> bool {
    current[STATE_ADDRESS as int] != t.last_state || current[PHASE_ADDRESS as int] != t.last_phase
}

/// The number after `n` in the arithmetic of 32 bits.
pub open spec fn next_seq(n: u32) -> u32 {
    if n == u32::MAX {
        0
    } else {
        (n + 1) as u32
    }
}

/// What is known after a complete sweep.
pub open spec fn swept(t: TraceView, current: Seq<u8>) -> TraceView {
    let seen = TraceView {
        initialized: true,
        shadow: current,
        last_state: current[STATE_ADDRESS as int],
        last_phase: current[PHASE_ADDRESS as int],
        ..t
    };
    if !t.initialized {
        seen
    } else {
        let history = observed(decayed(t), current);
        TraceView {
            snapshot_seq: if is_transition(t, current) {
                next_seq(t.snapshot_seq)
            } else {
                t.snapshot_seq
            },
            observed_sweeps: history.observed_sweeps,
            change_counts: history.change_counts,
            ..seen
        }
    }
}

/// What a complete sweep has to tell.
pub open spec fn sweep_lines(t: TraceView, current: Seq<u8>) -> Seq<Seq<u8>> {
    let state = current[STATE_ADDRESS as int];
    let phase = current[PHASE_ADDRESS as int];
    let stable = changed(t, current, 1024, false);
    let noisy = changed(t, current, 1024, true);
    let seq = next_seq(t.snapshot_seq);
    if !t.initialized {
        seq![baseline_line(state, phase)]
    } else {
        change_lines(t, current, 1024, is_transition(t, current)) + (if stable + noisy > 0 {
            seq![sweep_line(stable, noisy, state, phase)]
        } else {
            Seq::empty()
        }) + (if is_transition(t, current) {
            seq![
                transition_line(seq, stable, noisy),
                snapshot_begin(seq, t, state, phase),
            ] + snapshot_lines(seq, current, 64) + seq![snapshot_end(seq)]
        } else {
            Seq::empty()
        })
    }
}

/// The addresses below `n` that have become noise with a sweep.
pub open spec fn noise_lines(t: TraceView, current: Seq<u8>, n: int) -> Seq<Seq<u8>>
    decreases n,
{
    let before = decayed(t);
    let after = observed(before, current);
    if n <= 0 {
        Seq::empty()
    } else if t.shadow[n - 1] != current[n - 1] && !volatile(
        before.change_counts[n - 1],
        before.observed_sweeps,
    ) && volatile(after.change_counts[n - 1], after.observed_sweeps) {
        noise_lines(t, current, n - 1).push(
            noise_line(n - 1, after.change_counts[n - 1], after.observed_sweeps),
        )
    } else {
        noise_lines(t, current, n - 1)
    }
}

/// What a sweep has to tell: lines of the normal log and of the verbose one.
#[derive(Debug)]
pub struct SweepReport {
    pub lines: Vec<Vec<u8>>,
    pub verbose: Vec<Vec<u8>>,
}

impl Id410Trace {
    fn report_changes(&self, current: &[u8; 1024], transition: bool) -> (r: (
        Vec<Vec<u8>>,
        usize,
        usize,
    ))
        ensures
            contents(r.0@) == change_lines(self@, current@, 1024, transition),
            r.1 == changed(self@, current@, 1024, false),
            r.2 == changed(self@, current@, 1024, true),
            r.1 + r.2 <= 1024,
    {
        let mut lines = no_lines();
        let mut stable: usize = 0;
        let mut noisy: usize = 0;
        for i in 0..1024usize
            invariant
                contents(lines@) == change_lines(self@, current@, i as int, transition),
                stable == changed(self@, current@, i as int, false),
                noisy == changed(self@, current@, i as int, true),
                stable + noisy <= i,
        {
            let before = self.shadow[i];
            let after = current[i];
            let ghost told = contents(lines@);
            if before != after {
                let noise = id410_trace_is_volatile(self.change_counts[i], self.observed_sweeps);
                if noise {
                    noisy = noisy + 1;
                } else {
                    stable = stable + 1;
                }
                push_line(&mut lines, write_change(i, before, after));
                if transition && !noise {
                    push_line(
                        &mut lines,
                        write_stable(i, before, after, self.change_counts[i], self.observed_sweeps),
                    );
                }
            }
            assert(contents(lines@) =~= told + byte_lines(
                self@,
                current@,
                i as int,
                transition,
            ));
        }
        (lines, stable, noisy)
    }

    fn report_snapshot(
        &self,
        lines: &mut Vec<Vec<u8>>,
        current: &[u8; 1024],
        seq: u32,
        stable: usize,
        noisy: usize,
    )
        ensures
            contents(final(lines)@) == contents(old(lines)@) + (seq![
                transition_line(seq, stable as nat, noisy as nat),
                snapshot_begin(
                    seq,
                    self@,
                    current@[STATE_ADDRESS as int],
                    current@[PHASE_ADDRESS as int],
                ),
            ] + snapshot_lines(seq, current@, 64) + seq![snapshot_end(seq)]),
    {
        let ghost before = contents(lines@);
        push_line(lines, write_transition(seq, stable, noisy));
        let mut begin = text_bytes("ID410 SNAPSHOT BEGIN seq=");
        push_decimal(&mut begin, seq as u64);
        push_text(&mut begin, " state=");
        push_hex(&mut begin, self.last_state as u64, 2);
        push_text(&mut begin, "->");
        push_hex(&mut begin, current[STATE_ADDRESS] as u64, 2);
        push_text(&mut begin, " phase=");
        push_hex(&mut begin, self.last_phase as u64, 2);
        push_text(&mut begin, "->");
        push_hex(&mut begin, current[PHASE_ADDRESS] as u64, 2);
        push_line(lines, begin);
        let ghost head = contents(lines@);
        for k in 0..64usize
            invariant
                contents(lines@) == head + snapshot_lines(seq, current@, k as int),
        {
            push_line(lines, write_snapshot(seq, k, current));
            assert(contents(lines@) =~= head + snapshot_lines(seq, current@, k + 1));
        }
        let mut end = text_bytes("ID410 SNAPSHOT END seq=");
        push_decimal(&mut end, seq as u64);
        push_line(lines, end);
        assert(contents(lines@) =~= before + (seq![
            transition_line(seq, stable as nat, noisy as nat),
            snapshot_begin(
                seq,
                self@,
                current@[STATE_ADDRESS as int],
                current@[PHASE_ADDRESS as int],
            ),
        ] + snapshot_lines(seq, current@, 64) + seq![snapshot_end(seq)]));
    }

    fn decay(&mut self)
        ensures
            final(self)@ == decayed(old(self)@),
    {
        if self.observed_sweeps == 255 {
            let ghost before = self@;
            let mut counts = self.change_counts;
            for i in 0..1024usize
                invariant
                    forall|j: int| 0 <= j < i ==> counts@[j] == before.change_counts[j] / 2,
                    forall|j: int| i <= j < 1024 ==> counts@[j] == before.change_counts[j],
            {
                counts[i] = counts[i] / 2;
            }
            self.change_counts = counts;
            self.observed_sweeps = 127;
            assert(self@.change_counts =~= decayed(before).change_counts);
        }
    }

    fn observe(&mut self, current: &[u8; 1024]) -> (verbose: Vec<Vec<u8>>)
        ensures
            final(self)@ == observed(decayed(old(self)@), current@),
            contents(verbose@) == noise_lines(old(self)@, current@, 1024),
    {
        let ghost first = self@;
        self.decay();
        let ghost before = self@;
        let ghost after = observed(before, current@);
        let observed_after = self.observed_sweeps.saturating_add(1);
        let mut counts = self.change_counts;
        let mut verbose = no_lines();
        for i in 0..1024usize
            invariant
                self@ == before,
                before == decayed(first),
                after == observed(before, current@),
                observed_after == after.observed_sweeps,
                forall|j: int| 0 <= j < i ==> counts@[j] == after.change_counts[j],
                forall|j: int| i <= j < 1024 ==> counts@[j] == before.change_counts[j],
                contents(verbose@) == noise_lines(first, current@, i as int),
        {
            assert(before.shadow == first.shadow);
            if self.shadow[i] != current[i] {
                let was_volatile = id410_trace_is_volatile(counts[i], self.observed_sweeps);
                counts[i] = counts[i].saturating_add(1);
                let now_volatile = id410_trace_is_volatile(counts[i], observed_after);
                if !was_volatile && now_volatile {
                    push_line(&mut verbose, write_noise(i, counts[i], observed_after));
                }
            }
        }
        self.change_counts = counts;
        self.observed_sweeps = observed_after;
        assert(self@.change_counts =~= after.change_counts);
        verbose
    }

    /// Takes a complete sweep: tells what changed, and takes note of it. State and
    /// phase advance only here, so a sweep that fails cannot consume a transition.
    pub fn sweep(&mut self, current: &[u8; 1024]) -> (r: SweepReport)
        ensures
            final(self)@ == swept(old(self)@, current@),
            contents(r.lines@) == sweep_lines(old(self)@, current@),
            contents(r.verbose@) == (if old(self)@.initialized {
                noise_lines(old(self)@, current@, 1024)
            } else {
                Seq::empty()
            }),
    {
        let state = current[STATE_ADDRESS];
        let phase = current[PHASE_ADDRESS];
        let ghost first = self@;
        if !self.initialized {
            let mut line = text_bytes("ID410 TRACE baseline captured: state=0x");
            push_hex(&mut line, state as u64, 2);
            push_text(&mut line, " phase=0x");
            push_hex(&mut line, phase as u64, 2);
            let mut lines = no_lines();
            push_line(&mut lines, line);
            self.shadow = *current;
            self.last_state = state;
            self.last_phase = phase;
            self.initialized = true;
            return SweepReport { lines, verbose: no_lines() };
        }
        let transition = state != self.last_state || phase != self.last_phase;
        let (mut lines, stable, noisy) = self.report_changes(current, transition);
        let ghost told = contents(lines@);
        if stable + noisy != 0 {
            push_line(&mut lines, write_sweep(stable, noisy, state, phase));
        }
        let ghost summed = contents(lines@);
        assert(summed =~= told + (if stable + noisy > 0 {
            seq![sweep_line(stable as nat, noisy as nat, state, phase)]
        } else {
            Seq::empty()
        }));
        let mut seq = self.snapshot_seq;
        if transition {
            seq = seq.wrapping_add(1);
            self.report_snapshot(&mut lines, current, seq, stable, noisy);
        }
        assert(contents(lines@) =~= sweep_lines(first, current@));
        let verbose = self.observe(current);
        self.snapshot_seq = seq;
        self.shadow = *current;
        self.last_state = state;
        self.last_phase = phase;
        SweepReport { lines, verbose }
    }
}

// ---------------------------------------------------------------------------
// Reading a sweep
// ---------------------------------------------------------------------------
/// The step of a sweep's reading. A new session needs the handshake that works
/// for property polling: the software ID, then the key.
#[derive(Clone, Copy, Debug, PartialEq, Eq, Structural)]
pub enum TraceStage {
    /// Find out whether the appliance is one to trace.
    Identify,
    Settle,
    Query,
    Unlock,
    Read,
    Rest,
}

/// A sweep being read: `filled` bytes of it are there.
#[derive(Debug)]
pub struct Tracing {
    pub stage: TraceStage,
    pub filled: usize,
    pub current: [u8; 1024],
}

/// What comes after a reply.
#[derive(Debug)]
pub enum TraceStep {
    /// Another operation is wanted.
    Do(Tracing),
    /// The sweep is complete, and this is what it tells.
    Swept(SweepReport),
    /// The appliance is not one to trace.
    Disabled,
    /// The sweep failed; the next one begins anew.
    Failed,
}

impl Tracing {
    pub open spec fn well_formed(self) -> bool {
        &&& self.filled <= 1024
        &&& self.filled % 16 == 0
        &&& self.stage == TraceStage::Read ==> self.filled < 1024
        &&& self.stage == TraceStage::Rest ==> self.filled > 0
        &&& self.stage != TraceStage::Read && self.stage != TraceStage::Rest ==> self.filled == 0
    }

    /// How many replies may still be wanted.
    pub open spec fn remaining(self) -> int {
        2 * (1024 - self.filled) + match self.stage {
            TraceStage::Identify => 6int,
            TraceStage::Settle => 5,
            TraceStage::Query => 4,
            TraceStage::Unlock => 3,
            TraceStage::Rest => 2,
            TraceStage::Read => 1,
        }
    }

    /// The operation that is wanted.
    pub open spec fn operation(self) -> Request {
        match self.stage {
            TraceStage::Identify => Request::QueryId,
            TraceStage::Settle => Request::Pause { ms: SETTLE_MS },
            TraceStage::Query => Request::QueryId,
            TraceStage::Unlock => Request::Unlock { key: ID410_READ_KEY },
            TraceStage::Read => Request::ReadMemory {
                address: self.filled as u32,
                length: 16,
                timeout_ms: ID410_TRACE_BLOCK_TIMEOUT_MS,
            },
            TraceStage::Rest => Request::Pause { ms: BLOCK_REST_MS },
        }
    }

    /// The operation that is wanted.
    pub fn request(&self) -> (r: Request)
        requires
            self.well_formed(),
        ensures
            r == self.operation(),
    {
        match self.stage {
            TraceStage::Identify => Request::QueryId,
            TraceStage::Settle => Request::Pause { ms: SETTLE_MS },
            TraceStage::Query => Request::QueryId,
            TraceStage::Unlock => Request::Unlock { key: ID410_READ_KEY },
            TraceStage::Read => Request::ReadMemory {
                address: self.filled as u32,
                length: 16,
                timeout_ms: ID410_TRACE_BLOCK_TIMEOUT_MS,
            },
            TraceStage::Rest => Request::Pause { ms: BLOCK_REST_MS },
        }
    }

    fn at(self, stage: TraceStage) -> (r: TraceStep)
        ensures
            r matches TraceStep::Do(next) && next == (Tracing { stage, ..self }),
    {
        TraceStep::Do(Tracing { stage, ..self })
    }
}

/// Why a step of the handshake failed: it timed out, or else the link's own words.
pub open spec fn handshake_failure(what: Seq<u8>, reply: Reply) -> Seq<u8> {
    match reply {
        Reply::TimedOut(e) => what + " timed out: ".spec_bytes() + e@,
        Reply::Failed(e) => e@,
        _ => Seq::empty(),
    }
}

/// Why a block of the memory could not be read.
pub open spec fn block_failure(address: int, reply: Reply) -> Seq<u8> {
    "RAM read 0x".spec_bytes() + hex(address as nat, 4) + (match reply {
        Reply::TimedOut(e) => " timed out: ".spec_bytes() + e@,
        Reply::Failed(e) => " failed: ".spec_bytes() + e@,
        _ => " failed: ".spec_bytes(),
    })
}

/// Why a sweep fails with a reply, if it does.
pub open spec fn trace_failure(s: Tracing, reply: Reply) -> Option<Seq<u8>> {
    match s.stage {
        TraceStage::Identify => if reply is Id {
            None
        } else {
            Some(handshake_failure("software-ID query".spec_bytes(), reply))
        },
        TraceStage::Query => match reply {
            Reply::Id(id) => if id == ID410 {
                None
            } else {
                Some(
                    "trace handshake unexpectedly returned software ID ".spec_bytes() + decimal(
                        id as nat,
                    ),
                )
            },
            _ => Some(handshake_failure("trace software-ID query".spec_bytes(), reply)),
        },
        TraceStage::Unlock => if reply is Done {
            None
        } else {
            Some(handshake_failure("trace read unlock".spec_bytes(), reply))
        },
        TraceStage::Read => if reply is Data {
            None
        } else {
            Some(block_failure(s.filled as int, reply))
        },
        TraceStage::Settle | TraceStage::Rest => None,
    }
}

/// The line that tells whether the appliance is traced, once it is identified.
pub open spec fn trace_announcement(s: Tracing, reply: Reply, interval_s: u64) -> Option<Seq<u8>> {
    if s.stage == TraceStage::Identify {
        match reply {
            Reply::Id(id) => Some(
                if id == ID410 {
                    "ID410 TRACE enabled: read-only 0x0000..0x03ff sweep every ".spec_bytes()
                        + decimal(interval_s as nat) + " s".spec_bytes()
                } else {
                    "ID410 TRACE disabled: connected appliance has software ID ".spec_bytes()
                        + decimal(id as nat)
                },
            ),
            _ => None,
        }
    } else {
        None
    }
}

fn write_handshake_failure(what: &str, reply: &Reply) -> (r: Vec<u8>)
    ensures
        r@ == handshake_failure(what.spec_bytes(), *reply),
{
    match reply {
        Reply::TimedOut(e) => {
            let mut out = text_bytes(what);
            push_text(&mut out, " timed out: ");
            push_bytes(&mut out, e.as_slice());
            out
        },
        Reply::Failed(e) => copy_of(e.as_slice()),
        _ => Vec::new(),
    }
}

fn write_block_failure(address: usize, reply: &Reply) -> (r: Vec<u8>)
    ensures
        r@ == block_failure(address as int, *reply),
{
    let mut out = text_bytes("RAM read 0x");
    push_hex(&mut out, address as u64, 4);
    match reply {
        Reply::TimedOut(e) => {
            push_text(&mut out, " timed out: ");
            push_bytes(&mut out, e.as_slice());
        },
        Reply::Failed(e) => {
            push_text(&mut out, " failed: ");
            push_bytes(&mut out, e.as_slice());
        },
        _ => push_text(&mut out, " failed: "),
    }
    assert(out@ =~= block_failure(address as int, *reply));
    out
}

impl Tracing {
    /// Writes why the sweep fails with a reply to the wanted operation, if it does.
    pub fn failure(&self, reply: &Reply) -> (r: Option<Vec<u8>>)
        ensures
            r matches Some(text) ==> trace_failure(*self, *reply) == Some(text@),
            r is None ==> trace_failure(*self, *reply) is None,
    {
        match self.stage {
            TraceStage::Identify => match reply {
                Reply::Id(_) => None,
                _ => Some(write_handshake_failure("software-ID query", reply)),
            },
            TraceStage::Query => match reply {
                Reply::Id(id) => {
                    if *id == ID410 {
                        return None;
                    }
                    let mut out = text_bytes("trace handshake unexpectedly returned software ID ");
                    push_decimal(&mut out, *id as u64);
                    Some(out)
                },
                _ => Some(write_handshake_failure("trace software-ID query", reply)),
            },
            TraceStage::Unlock => match reply {
                Reply::Done => None,
                _ => Some(write_handshake_failure("trace read unlock", reply)),
            },
            TraceStage::Read => match reply {
                Reply::Data(_) => None,
                _ => Some(write_block_failure(self.filled, reply)),
            },
            TraceStage::Settle | TraceStage::Rest => None,
        }
    }

    /// Writes whether the appliance is traced, every so many seconds, where a reply to
    /// the wanted operation decides it.
    pub fn announcement(&self, reply: &Reply, interval_s: u64) -> (r: Option<Vec<u8>>)
        ensures
            r matches Some(line) ==> trace_announcement(*self, *reply, interval_s) == Some(line@),
            r is None ==> trace_announcement(*self, *reply, interval_s) is None,
    {
        if self.stage != TraceStage::Identify {
            return None;
        }
        match reply {
            Reply::Id(id) => {
                if *id == ID410 {
                    let mut out = text_bytes(
                        "ID410 TRACE enabled: read-only 0x0000..0x03ff sweep every ",
                    );
                    push_decimal(&mut out, interval_s);
                    push_text(&mut out, " s");
                    return Some(out);
                }
                let mut out = text_bytes(
                    "ID410 TRACE disabled: connected appliance has software ID ",
                );
                push_decimal(&mut out, *id as u64);
                Some(out)
            },
            _ => None,
        }
    }
}

/// How a sweep begins: not at all for an appliance that is not to be traced.
pub open spec fn sweep_stage(t: TraceView) -> Option<TraceStage> {
    if !t.checked_device {
        Some(TraceStage::Identify)
    } else if !t.enabled_for_device {
        None
    } else {
        Some(TraceStage::Settle)
    }
}

/// The appliance has been identified.
pub open spec fn identified(t: TraceView, id: u16) -> TraceView {
    TraceView { checked_device: true, enabled_for_device: id == ID410, ..t }
}

/// What a reply means to a sweep `s`, as a relation of what was known before and
/// after it and of the step. A failed sweep leaves the history, the shadow and
/// the last state alone.
pub open spec fn traced(t: TraceView, s: Tracing, reply: Reply, after: TraceView, step: TraceStep) -> bool {
    match s.stage {
        TraceStage::Identify => match reply {
            Reply::Id(id) => after == identified(t, id) && if id == ID410 {
                step == TraceStep::Do(Tracing { stage: TraceStage::Settle, ..s })
            } else {
                step is Disabled
            },
            _ => after == t && step is Failed,
        },
        TraceStage::Settle => after == t && step == TraceStep::Do(
            Tracing { stage: TraceStage::Query, ..s },
        ),
        TraceStage::Query => match reply {
            Reply::Id(id) => if id == ID410 {
                after == t && step == TraceStep::Do(Tracing { stage: TraceStage::Unlock, ..s })
            } else {
                after == (TraceView { enabled_for_device: false, ..t }) && step is Failed
            },
            _ => after == t && step is Failed,
        },
        TraceStage::Unlock => after == t && if reply is Done {
            step == TraceStep::Do(Tracing { stage: TraceStage::Read, ..s })
        } else {
            step is Failed
        },
        TraceStage::Read => after == t && match reply {
            Reply::Data(data) => step matches TraceStep::Do(next) && next.stage == TraceStage::Rest
                && next.filled == s.filled + 16 && next.current@.subrange(0, s.filled + 16)
                == s.current@.subrange(0, s.filled as int) + data@,
            _ => step is Failed,
        },
        TraceStage::Rest => if s.filled < 1024 {
            after == t && step == TraceStep::Do(Tracing { stage: TraceStage::Read, ..s })
        } else {
            after == swept(t, s.current@) && (step matches TraceStep::Swept(report) && contents(
                report.lines@,
            ) == sweep_lines(t, s.current@) && contents(report.verbose@) == (if t.initialized {
                noise_lines(t, s.current@, 1024)
            } else {
                Seq::empty()
            }))
        },
    }
}

impl Id410Trace {
    /// Begins a sweep, unless the appliance is not one to trace.
    pub fn trace_id410_memory(&self) -> (r: Option<Tracing>)
        ensures
            r matches Some(s) ==> Some(s.stage) == sweep_stage(self@) && s.well_formed(),
            r is None ==> sweep_stage(self@) is None,
    {
        if !self.checked_device {
            return Some(
                Tracing { stage: TraceStage::Identify, filled: 0, current: [0; 1024] },
            );
        }
        if !self.enabled_for_device {
            return None;
        }
        Some(Tracing { stage: TraceStage::Settle, filled: 0, current: [0; 1024] })
    }

    fn take_block(s: Tracing, data: &[u8]) -> (r: Tracing)
        requires
            s.well_formed(),
            s.stage == TraceStage::Read,
            data@.len() == 16,
        ensures
            r.stage == TraceStage::Rest,
            r.filled == s.filled + 16,
            r.current@.subrange(0, s.filled + 16) == s.current@.subrange(0, s.filled as int) + data@,
            r.well_formed(),
    {
        let mut current = s.current;
        let at = s.filled;
        for i in 0..16usize
            invariant
                at + 16 <= 1024,
                data@.len() == 16,
                forall|j: int| 0 <= j < at ==> current@[j] == s.current@[j],
                forall|j: int| 0 <= j < i ==> current@[at + j] == data@[j],
        {
            current[at + i] = data[i];
        }
        assert(current@.subrange(0, at + 16) =~= s.current@.subrange(0, at as int) + data@);
        Tracing { stage: TraceStage::Rest, filled: at + 16, current }
    }

    /// Takes the reply to the wanted operation of a sweep.
    pub fn supply(&mut self, s: Tracing, reply: Reply) -> (step: TraceStep)
        requires
            s.well_formed(),
            s.stage == TraceStage::Read ==> (reply matches Reply::Data(data) ==> data@.len() == 16),
        ensures
            traced(old(self)@, s, reply, final(self)@, step),
            step is Failed <==> trace_failure(s, reply) is Some,
            step matches TraceStep::Do(next) ==> next.well_formed() && next.remaining()
                < s.remaining(),
    {
        match s.stage {
            TraceStage::Identify => {
                match reply {
                    Reply::Id(id) => {
                        self.checked_device = true;
                        self.enabled_for_device = id == ID410;
                        if id != ID410 {
                            return TraceStep::Disabled;
                        }
                        s.at(TraceStage::Settle)
                    },
                    _ => TraceStep::Failed,
                }
            },
            TraceStage::Settle => s.at(TraceStage::Query),
            TraceStage::Query => {
                match reply {
                    Reply::Id(id) => {
                        if id != ID410 {
                            self.enabled_for_device = false;
                            return TraceStep::Failed;
                        }
                        s.at(TraceStage::Unlock)
                    },
                    _ => TraceStep::Failed,
                }
            },
            TraceStage::Unlock => {
                match reply {
                    Reply::Done => s.at(TraceStage::Read),
                    _ => TraceStep::Failed,
                }
            },
            TraceStage::Read => {
                match reply {
                    Reply::Data(data) => TraceStep::Do(Id410Trace::take_block(s, data.as_slice())),
                    _ => TraceStep::Failed,
                }
            },
            TraceStage::Rest => {
                if s.filled < 1024 {
                    return s.at(TraceStage::Read);
                }
                TraceStep::Swept(self.sweep(&s.current))
            },
        }
    }
}

// ---------------------------------------------------------------------------
// What tracing promises
// ---------------------------------------------------------------------------
/// No address has changed in more sweeps than were observed.
pub open spec fn sound_history(t: TraceView) -> bool {
    &&& t.change_counts.len() == 1024
    &&& t.shadow.len() == 1024
    &&& forall|i: int| 0 <= i < 1024 ==> #[trigger] t.change_counts[i] <= t.observed_sweeps
}

/// The history stays sound with every sweep, so no counter ever saturates.
pub proof fn lemma_sweeps_keep_history_sound(t: TraceView, current: Seq<u8>)
    requires
        sound_history(t),
        current.len() == 1024,
    ensures
        sound_history(swept(t, current)),
{
    let before = decayed(t);
    let after = swept(t, current);
    assert forall|i: int| 0 <= i < 1024 implies #[trigger] after.change_counts[i]
        <= after.observed_sweeps by {
        assert(before.change_counts[i] <= before.observed_sweeps) by {
            assert(t.change_counts[i] <= t.observed_sweeps);
        }
    }
}

/// A failed sweep consumes no transition: what it leaves known of the memory and
/// its history is what was known before.
pub proof fn lemma_failed_sweep_changes_no_history(
    t: TraceView,
    s: Tracing,
    reply: Reply,
    after: TraceView,
    step: TraceStep,
)
    requires
        traced(t, s, reply, after, step),
        !(step is Swept),
    ensures
        after.initialized == t.initialized,
        after.snapshot_seq == t.snapshot_seq,
        after.last_state == t.last_state,
        after.last_phase == t.last_phase,
        after.observed_sweeps == t.observed_sweeps,
        after.change_counts == t.change_counts,
        after.shadow == t.shadow,
{
}

/// A sweep that shows what the last one showed has nothing to tell.
pub proof fn lemma_unchanged_memory_is_silent(t: TraceView)
    requires
        t.initialized,
        t.shadow.len() == 1024,
        t.last_state == t.shadow[STATE_ADDRESS as int],
        t.last_phase == t.shadow[PHASE_ADDRESS as int],
    ensures
        sweep_lines(t, t.shadow) == Seq::<Seq<u8>>::empty(),
{
    lemma_no_changes(t, 1024);
    assert(sweep_lines(t, t.shadow) =~= Seq::<Seq<u8>>::empty());
}

proof fn lemma_no_changes(t: TraceView, n: int)
    requires
        0 <= n <= 1024,
    ensures
        change_lines(t, t.shadow, n, false) == Seq::<Seq<u8>>::empty(),
        changed(t, t.shadow, n, false) == 0,
        changed(t, t.shadow, n, true) == 0,
    decreases n,
{
    if n > 0 {
        lemma_no_changes(t, n - 1);
        assert(change_lines(t, t.shadow, n, false) =~= Seq::<Seq<u8>>::empty());
    }
}

} // verus!
