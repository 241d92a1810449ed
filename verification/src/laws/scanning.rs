//! The autonomous scan: which key is tried, how long an answer is awaited, what an
//! outcome does to the job, and what its status report shows.

use crate::keyscan::job::{status_text, ScanJob};
use crate::keyscan::scanner::{candidate, candidate_warning, scan_begun, trial_failure};
use crate::keyscan::scanner::{Round, Trial, TrialStage, TrialStep};
use crate::keyscan::{Phase, State};
use crate::known_read_keys::ReadKeyCandidate;
use crate::link::{Reply, Request};
use crate::text::{decimal, hex};
use vstd::prelude::*;
use vstd::string::*;
use vstd::utf8::*;

verus! {

// ---------------------------------------------------------------------------
// How long an answer is awaited
// ---------------------------------------------------------------------------
/// The milliseconds for which an operation awaits the answer to a probe.
pub open spec fn awaited(request: Request) -> Option<int> {
    match request {
        Request::FinishProbe { timeout_ms } => Some(timeout_ms as int),
        _ => None,
    }
}

/// In an attempt an answer is awaited for the timeout in effect, and that is the timeout
/// that the status report shows; a confirmation waits for a second whatever it is.
pub proof fn lemma_attempts_wait_for_the_reported_timeout(t: Trial, round: Round, current: u32)
    requires
        t.stage == TrialStage::Finish(round),
    ensures
        round == Round::FirstAttempt || round == Round::SecondAttempt ==> awaited(t.operation())
            == Some(t.state.timeout_ms as int),
        round == Round::FirstAttempt || round == Round::SecondAttempt ==> (awaited(
            t.operation(),
        ) matches Some(ms) && shows(
            status_text(t.state, current),
            " timeout_ms=".spec_bytes() + decimal(ms as nat) + " minimum_ms=".spec_bytes(),
        )),
        round == Round::FirstConfirmation || round == Round::SecondConfirmation ==> awaited(
            t.operation(),
        ) == Some(1000int),
{
    lemma_status_shows_the_job(t.state, current);
}

/// A reply that fails an attempt makes the next trial of the job wait 5 ms longer, up
/// to the limit; the job is paused instead where it stands there.
pub proof fn lemma_failed_attempt_makes_the_next_wait_longer(
    t: Trial,
    reply: Reply,
    regained: Reply,
    keys: Seq<ReadKeyCandidate>,
)
    requires
        t.well_formed(),
        t.stage == TrialStage::Finish(Round::FirstAttempt) || t.stage == TrialStage::Finish(
            Round::SecondAttempt,
        ),
        !(reply is Done),
        !(reply matches Reply::Unanswered { before, after } && before == after),
    ensures
        t.after(reply) matches TrialStep::Do(recovering) && recovering.operation()
            == Request::Resynchronize && (recovering.after(regained) matches TrialStep::Over(s)
            && s.errors == if t.state.errors == u32::MAX {
            u32::MAX as int
        } else {
            t.state.errors + 1
        } && (t.state.timeout_ms < t.state.maximum_ms ==> s.phase == t.state.phase) && (
        t.state.timeout_ms == t.state.maximum_ms ==> s.phase == Phase::Paused) && (scan_begun(
            s,
            keys,
        ) matches TrialStep::Do(next) && awaited(
            (Trial { stage: TrialStage::Finish(Round::FirstAttempt), ..next }).operation(),
        ) == if awaited(t.operation())->0 + 5 <= t.state.maximum_ms {
            Some(awaited(t.operation())->0 + 5)
        } else {
            Some(t.state.maximum_ms as int)
        } || scan_begun(s, keys) is Over)),
{
}

// ---------------------------------------------------------------------------
// The order of a trial
// ---------------------------------------------------------------------------
/// A probe went unanswered, and nothing was sent or received meanwhile.
pub open spec fn silence(reply: Reply) -> bool {
    reply matches Reply::Unanswered { before, after } && before.tx == after.tx && before.rx
        == after.rx
}

/// The way of a trial: each good reply leads to the next step, for the same key and the
/// unchanged job, and nothing else leads there.
pub proof fn lemma_good_replies_lead_on(t: Trial, reply: Reply, round: Round)
    ensures
        t.stage == TrialStage::Query(round) ==> ((t.after(reply) == TrialStep::Do(
            Trial { stage: TrialStage::Unlock(round), ..t },
        )) <==> reply == Reply::Id(t.state.software_id)),
        t.stage == TrialStage::Unlock(round) ==> ((t.after(reply) == TrialStep::Do(
            Trial { stage: TrialStage::Begin(round), ..t },
        )) <==> reply is Done),
        t.stage == TrialStage::Begin(round) ==> ((t.after(reply) == TrialStep::Do(
            Trial { stage: TrialStage::Finish(round), ..t },
        )) <==> reply is Done),
        t.stage == TrialStage::Finish(round) && (round == Round::FirstAttempt || round
            == Round::SecondAttempt) ==> ((t.after(reply) == TrialStep::Do(
            Trial { stage: TrialStage::Relock(Round::FirstConfirmation), ..t },
        )) <==> reply is Done) && ((t.after(reply) == TrialStep::Do(
            Trial { stage: TrialStage::Drain(round), ..t },
        )) <==> silence(reply)),
        t.stage == TrialStage::Finish(round) && (round == Round::FirstConfirmation || round
            == Round::SecondConfirmation) ==> ((t.after(reply) == TrialStep::Do(
            Trial { stage: TrialStage::Read(round), ..t },
        )) <==> reply is Done),
        t.stage == TrialStage::Relock(round) ==> ((t.after(reply) == TrialStep::Do(
            Trial { stage: TrialStage::Query(round), ..t },
        )) <==> reply is Done),
        t.stage == TrialStage::Drain(Round::FirstAttempt) ==> ((t.after(reply) == TrialStep::Do(
            Trial { stage: TrialStage::Query(Round::SecondAttempt), ..t },
        )) <==> reply is Done),
        t.stage == TrialStage::Read(Round::FirstConfirmation) ==> ((t.after(reply)
            == TrialStep::Do(
            Trial { stage: TrialStage::Relock(Round::SecondConfirmation), ..t },
        )) <==> reply is Data),
{
}

/// What a trial asks of the appliance at each of its steps: the job's own key, one
/// block at address 0, and nothing that writes.
pub proof fn lemma_trial_operations(t: Trial, round: Round)
    ensures
        t.stage == TrialStage::Query(round) ==> t.operation() == Request::QueryId,
        t.stage == TrialStage::Unlock(round) ==> t.operation() == (Request::Unlock { key: t.key }),
        t.stage == TrialStage::Begin(round) ==> t.operation() == Request::BeginProbe,
        t.stage == TrialStage::Drain(round) ==> t.operation() == Request::Drain,
        t.stage == TrialStage::Relock(round) || t.stage == TrialStage::Recover ==> t.operation()
            == Request::Resynchronize,
        t.stage == TrialStage::Read(round) ==> t.operation() == (Request::ReadMemory {
            address: 0,
            length: 16,
            timeout_ms: 1000,
        }),
{
}

/// Whatever goes wrong on the line, at whatever step, is a failure of the job and never
/// an observation: the line is regained, and the job counts the error.
pub proof fn lemma_line_errors_are_no_observation(t: Trial, reply: Reply)
    requires
        t.state.well_formed(),
        t.stage != TrialStage::Recover,
        reply is Failed || reply is TimedOut,
    ensures
        t.after(reply) matches TrialStep::Do(next) && {
            &&& next.stage == TrialStage::Recover
            &&& next.state.found == t.state.found
            &&& next.state.errors == if t.state.errors == u32::MAX {
                u32::MAX as int
            } else {
                t.state.errors + 1
            }
            &&& t.state.timeout_ms < t.state.maximum_ms ==> next.state.timeout_ms
                > t.state.timeout_ms && next.state.tested == 0 && next.state.next == t.state.start
                && next.state.known_mask == 0
            &&& t.state.timeout_ms == t.state.maximum_ms ==> next.state.phase == Phase::Paused
                && next.state.tested == t.state.tested && next.state.next == t.state.next
                && next.state.known_mask == t.state.known_mask
        },
{
}

/// An answer that came partly, and a confirmation that met with silence, are failures
/// too.
pub proof fn lemma_partial_answers_are_failures(t: Trial, reply: Reply, round: Round)
    requires
        t.state.well_formed(),
        t.stage == TrialStage::Finish(round),
        reply is Unanswered,
        !silence(reply) || round == Round::FirstConfirmation || round == Round::SecondConfirmation,
    ensures
        t.after(reply) matches TrialStep::Do(next) && next.stage == TrialStage::Recover
            && next.state == t.state.after_failure(),
{
}

// ---------------------------------------------------------------------------
// Outcomes
// ---------------------------------------------------------------------------
/// The jobs agree in range, timing, software ID and the counts of errors.
pub open spec fn same_task(a: State, b: State) -> bool {
    &&& a.software_id == b.software_id
    &&& a.start == b.start
    &&& a.end == b.end
    &&& a.minimum_ms == b.minimum_ms
    &&& a.timeout_ms == b.timeout_ms
    &&& a.maximum_ms == b.maximum_ms
    &&& a.increases == b.increases
}

/// The second silence, cleanly drained, completes a candidate: it is counted once and
/// marked as done, as a registry entry or by the cursor behind it.
pub proof fn lemma_second_silence_completes_the_candidate(t: Trial, reply: Reply)
    requires
        t.stage == TrialStage::Drain(Round::SecondAttempt),
        reply is Done,
        t.known matches Some(i) ==> i < 32,
    ensures
        t.after(reply) matches TrialStep::Over(s) && {
            &&& same_task(s, t.state)
            &&& s.phase == t.state.phase
            &&& s.found == t.state.found
            &&& s.errors == t.state.errors
            &&& t.state.tested < u32::MAX ==> s.tested == t.state.tested + 1
            &&& t.state.tested == u32::MAX ==> s.tested == u32::MAX
            &&& t.known is None ==> s.next == t.key + 1 && s.known_mask == t.state.known_mask
            &&& t.known matches Some(i) ==> s.next == t.state.next && s.known_mask
                == t.state.known_mask | (1u32 << (i as u32))
        },
{
}

/// The second confirmation ends the job with the key; its progress stays as it is.
pub proof fn lemma_second_confirmation_finds_the_key(t: Trial, reply: Reply)
    requires
        t.stage == TrialStage::Read(Round::SecondConfirmation),
        reply is Data,
    ensures
        t.after(reply) matches TrialStep::Over(s) && {
            &&& same_task(s, t.state)
            &&& s.phase == Phase::Found
            &&& s.found == Some(t.key)
            &&& s.errors == t.state.errors
            &&& s.tested == t.state.tested
            &&& s.next == t.state.next
            &&& s.known_mask == t.state.known_mask
        },
{
}

/// Another appliance pauses the job at once, without an unlock: the error is counted,
/// and neither the timeout nor the progress changes.
pub proof fn lemma_changed_appliance_pauses_the_job(t: Trial, round: Round, id: u16, reply: Reply)
    requires
        t.stage == TrialStage::Query(round),
        id != t.state.software_id,
    ensures
        t.after(Reply::Id(id)) matches TrialStep::Do(next) && next.operation()
            == Request::Resynchronize && (next.after(reply) matches TrialStep::Over(s) && {
            &&& same_task(s, t.state)
            &&& s.phase == Phase::Paused
            &&& s.errors == if t.state.errors == u32::MAX {
                u32::MAX as int
            } else {
                t.state.errors + 1
            }
            &&& s.found == t.state.found
            &&& s.tested == t.state.tested
            &&& s.next == t.state.next
            &&& s.known_mask == t.state.known_mask
        }),
{
}

/// A rise of the timeout restarts the observations; a failure at the limit pauses the
/// job and keeps them. Nothing else of the job changes but the counts.
pub proof fn lemma_failure_restarts_or_pauses(s: State)
    requires
        s.well_formed(),
    ensures
        ({
            let t = s.after_failure();
            &&& t.software_id == s.software_id
            &&& t.start == s.start
            &&& t.end == s.end
            &&& t.minimum_ms == s.minimum_ms
            &&& t.maximum_ms == s.maximum_ms
            &&& t.found == s.found
            &&& s.timeout_ms < s.maximum_ms ==> t.phase == s.phase && t.next == s.start
                && t.known_mask == 0 && t.tested == 0 && t.timeout_ms == if s.timeout_ms + 5
                > s.maximum_ms {
                s.maximum_ms as int
            } else {
                s.timeout_ms + 5
            } && (s.increases < u32::MAX ==> t.increases == s.increases + 1)
            &&& s.timeout_ms == s.maximum_ms ==> t.phase == Phase::Paused && t.next == s.next
                && t.known_mask == s.known_mask && t.tested == s.tested && t.timeout_ms
                == s.timeout_ms && t.increases == s.increases
            &&& s.errors < u32::MAX ==> t.errors == s.errors + 1
            &&& s.errors == u32::MAX ==> t.errors == u32::MAX
        }),
{
}

// ---------------------------------------------------------------------------
// Candidates
// ---------------------------------------------------------------------------
/// Registry entry `i` is one of the first 32, lies in the range of the job, and is not
/// marked as done.
pub open spec fn entry_left(s: State, keys: Seq<ReadKeyCandidate>, i: int) -> bool {
    &&& 0 <= i < 32
    &&& i < keys.len()
    &&& s.start <= keys[i].key
    &&& keys[i].key <= s.end
    &&& s.known_mask & (1u32 << (i as u32)) == 0
}

/// The key of a registry entry that is marked as done.
pub open spec fn entry_done(s: State, keys: Seq<ReadKeyCandidate>, key: int) -> bool {
    exists|i: int|
        0 <= i < 32 && i < keys.len() && #[trigger] keys[i].key == key && s.known_mask & (1u32 << (
        i as u32)) != 0
}

proof fn lemma_first_entry(s: State, keys: Seq<ReadKeyCandidate>, i: int)
    requires
        0 <= i <= keys.len(),
    ensures
        crate::keyscan::scanner::first_wanted(s, keys, i) matches Some(j) ==> i <= j && entry_left(
            s,
            keys,
            j,
        ) && forall|k: int| i <= k < j ==> !#[trigger] entry_left(s, keys, k),
        crate::keyscan::scanner::first_wanted(s, keys, i) is None ==> forall|k: int|
            i <= k ==> !#[trigger] entry_left(s, keys, k),
    decreases keys.len() - i,
{
    if i < keys.len() {
        lemma_first_entry(s, keys, i + 1);
    }
}

proof fn lemma_next_key(s: State, keys: Seq<ReadKeyCandidate>, next: int)
    requires
        0 <= next <= s.end + 1,
    ensures
        ({
            let n = crate::keyscan::scanner::next_sequential(s, keys, next);
            &&& next <= n <= s.end + 1
            &&& forall|k: int| next <= k < n ==> #[trigger] entry_done(s, keys, k)
            &&& n <= s.end ==> !entry_done(s, keys, n)
        }),
    decreases s.end + 1 - next,
{
    let key = next as u16;
    if next <= s.end {
        assert(crate::keyscan::scanner::known_tried(s, keys, key) == entry_done(s, keys, next));
        if crate::keyscan::scanner::known_tried(s, keys, key) {
            lemma_next_key(s, keys, next + 1);
        }
    }
}

/// The next candidate is the first registry entry that is left, and only without one
/// the next key of the range that was not done as an entry; its trial is a first attempt
/// on the otherwise unchanged job. Without a candidate the job is done.
pub proof fn lemma_next_candidate(s: State, keys: Seq<ReadKeyCandidate>)
    requires
        s.well_formed(),
    ensures
        match scan_begun(s, keys) {
            TrialStep::Do(t) => {
                &&& t.stage == TrialStage::Query(Round::FirstAttempt)
                &&& s.start <= t.key <= s.end
                &&& t.known matches Some(i) ==> t.state == s && entry_left(s, keys, i as int)
                    && t.key == keys[i as int].key && forall|k: int|
                    0 <= k < i ==> !#[trigger] entry_left(s, keys, k)
                &&& t.known is None ==> {
                    &&& t.state == (State { next: t.key as u32, ..s })
                    &&& s.next <= t.key
                    &&& forall|k: int| !#[trigger] entry_left(s, keys, k)
                    &&& !entry_done(s, keys, t.key as int)
                    &&& forall|k: int| s.next <= k < t.key ==> #[trigger] entry_done(s, keys, k)
                }
            },
            TrialStep::Over(after) => {
                &&& after == (State { phase: Phase::Done, next: (s.end + 1) as u32, ..s })
                &&& forall|k: int| !#[trigger] entry_left(s, keys, k)
                &&& forall|k: int| s.next <= k <= s.end ==> #[trigger] entry_done(s, keys, k)
            },
        },
{
    lemma_first_entry(s, keys, 0);
    lemma_next_key(s, keys, s.next as int);
    let (t, found) = candidate(s, keys);
    assert forall|k: int| k < 0 implies !#[trigger] entry_left(s, keys, k) by {}
}

// ---------------------------------------------------------------------------
// Parameters and phases
// ---------------------------------------------------------------------------
/// The jobs that can be started: a range that is not empty, and timeouts of 40 to 2000 ms
/// in steps of 5, the first not above the second.
pub proof fn lemma_startable_jobs(start: u16, end: u16, minimum: u16, maximum: u16)
    ensures
        State::valid_parameters(start, end, minimum, maximum) <==> {
            &&& !(start > end)
            &&& !(minimum < 40)
            &&& !(maximum > 2000)
            &&& !(minimum > maximum)
            &&& minimum % 5 == 0
            &&& maximum % 5 == 0
        },
{
}

/// A fresh job runs from the start of its range with its first timeout, and has neither
/// progress nor result; without a job there is none of either.
pub proof fn lemma_fresh_job(id: u16, start: u16, end: u16, minimum: u16, maximum: u16)
    ensures
        ({
            let s = State::fresh(id, start, end, minimum, maximum);
            &&& s.phase == Phase::Running
            &&& s.software_id == id
            &&& s.start == start
            &&& s.end == end
            &&& s.next == start
            &&& s.minimum_ms == minimum
            &&& s.timeout_ms == minimum
            &&& s.maximum_ms == maximum
            &&& s.known_mask == 0
            &&& s.found is None
            &&& s.errors == 0
            &&& s.increases == 0
            &&& s.tested == 0
        }),
        ({
            let s = State::idle();
            &&& s.phase == Phase::Idle
            &&& s.software_id == 0
            &&& s.start == 0
            &&& s.end == 0xffff
            &&& s.next == 0
            &&& s.minimum_ms == 100
            &&& s.timeout_ms == 100
            &&& s.maximum_ms == 500
            &&& s.known_mask == 0
            &&& s.found is None
            &&& s.errors == 0
            &&& s.increases == 0
            &&& s.tested == 0
        }),
{
}

/// The numbers of the phases in a stored record, and back; no other number stands for a
/// phase.
pub proof fn lemma_phase_numbers(p: Phase, n: u8)
    ensures
        Phase::of_number(p.number()) == Some(p),
        Phase::of_number(n) matches Some(q) ==> q.number() == n,
        Phase::of_number(n) is Some <==> n < 6,
        Phase::Idle.number() == 0,
        Phase::Running.number() == 1,
        Phase::Paused.number() == 2,
        Phase::Found.number() == 3,
        Phase::Done.number() == 4,
        Phase::StorageError.number() == 5,
{
}

/// The names of the phases.
pub proof fn lemma_phase_names()
    ensures
        Phase::Idle.label() == "idle",
        Phase::Running.label() == "running",
        Phase::Paused.label() == "paused",
        Phase::Found.label() == "found",
        Phase::Done.label() == "done",
        Phase::StorageError.label() == "storage_error",
{
}

/// A job that could not be saved, or has no storage, says so, and keeps the rest.
pub proof fn lemma_storage_errors(job: ScanJob)
    ensures
        job.unsaved().state == (State { phase: Phase::StorageError, ..job.state }),
        job.unsaved().journal == job.journal,
        ScanJob::without_storage().journal is None,
        ScanJob::without_storage().state.phase == Phase::StorageError,
        ScanJob::without_storage().state.found is None,
{
}

// ---------------------------------------------------------------------------
// The status report
// ---------------------------------------------------------------------------
/// A text holds another one.
#[verifier::opaque]
pub open spec fn shows(text: Seq<u8>, what: Seq<u8>) -> bool {
    exists|a: Seq<u8>, b: Seq<u8>| text == #[trigger] (a + what + b)
}

proof fn lemma_shows_last(p: Seq<u8>, what: Seq<u8>)
    ensures
        shows(p + what, what),
{
    reveal(shows);
    assert(p + what =~= p + what + Seq::<u8>::empty());
}

proof fn lemma_still_shows(text: Seq<u8>, what: Seq<u8>, tail: Seq<u8>)
    requires
        shows(text, what),
    ensures
        shows(text + tail, what),
{
    reveal(shows);
    let (a, b) = choose|a: Seq<u8>, b: Seq<u8>| text == #[trigger] (a + what + b);
    assert(text + tail =~= a + what + (b + tail));
}

proof fn lemma_both_still_show(text: Seq<u8>, a: Seq<u8>, b: Seq<u8>, tail: Seq<u8>)
    requires
        shows(text, a),
        shows(text, b),
    ensures
        shows(text + tail, a),
        shows(text + tail, b),
{
    lemma_still_shows(text, a, tail);
    lemma_still_shows(text, b, tail);
}

proof fn lemma_joined(p: Seq<u8>, w: Seq<u8>, x: Seq<u8>)
    ensures
        (p + w) + x == p + (w + x),
{
    assert((p + w) + x =~= p + (w + x));
}

/// The report shows the state, the software ID, the range, the cursor, the three
/// timeouts and the counts of the job, each between its name and the next one.
#[verifier::rlimit(40)]
#[verifier::spinoff_prover]
pub proof fn lemma_status_shows_the_job(s: State, current: u32)
    ensures
        shows(
            status_text(s, current),
            "OK scan_version=3 state=".spec_bytes() + s.phase.label().spec_bytes()
                + " software_id=".spec_bytes() + decimal(s.software_id as nat)
                + " start=0x".spec_bytes() + hex(s.start as nat, 4) + " end=0x".spec_bytes() + hex(
                s.end as nat,
                4,
            ) + " next=0x".spec_bytes() + hex(s.next as nat, 5) + " timeout_ms=".spec_bytes(),
        ),
        shows(
            status_text(s, current),
            " timeout_ms=".spec_bytes() + decimal(s.timeout_ms as nat)
                + " minimum_ms=".spec_bytes(),
        ),
        shows(
            status_text(s, current),
            " minimum_ms=".spec_bytes() + decimal(s.minimum_ms as nat) + " maximum_ms=".spec_bytes()
                + decimal(s.maximum_ms as nat) + " tested=".spec_bytes() + decimal(s.tested as nat)
                + " errors=".spec_bytes() + decimal(s.errors as nat) + " increases=".spec_bytes()
                + decimal(s.increases as nat),
        ),
        current <= 0xffff ==> shows(
            status_text(s, current),
            " current=0x".spec_bytes() + hex(current as nat, 4),
        ),
        s.found matches Some(key) ==> shows(
            status_text(s, current),
            " read_key=0x".spec_bytes() + hex(key as nat, 4) + " confirmed=2\n".spec_bytes(),
        ),
{
    let a = "OK scan_version=3 state=".spec_bytes() + s.phase.label().spec_bytes()
        + " software_id=".spec_bytes() + decimal(s.software_id as nat) + " start=0x".spec_bytes()
        + hex(s.start as nat, 4) + " end=0x".spec_bytes() + hex(s.end as nat, 4)
        + " next=0x".spec_bytes() + hex(s.next as nat, 5);
    let t0 = " timeout_ms=".spec_bytes();
    let t1 = decimal(s.timeout_ms as nat);
    let m0 = " minimum_ms=".spec_bytes();
    let m1 = decimal(s.minimum_ms as nat);
    let x0 = " maximum_ms=".spec_bytes();
    let x1 = decimal(s.maximum_ms as nat);
    let n0 = " tested=".spec_bytes();
    let n1 = decimal(s.tested as nat);
    let e0 = " errors=".spec_bytes();
    let e1 = decimal(s.errors as nat);
    let i0 = " increases=".spec_bytes();
    let i1 = decimal(s.increases as nat);
    let d = if current <= 0xffff {
        " current=0x".spec_bytes() + hex(current as nat, 4)
    } else {
        Seq::empty()
    };
    let f = match s.found {
        Some(key) => " read_key=0x".spec_bytes() + hex(key as nat, 4) + " confirmed=2".spec_bytes(),
        None => Seq::empty(),
    };
    let g = "\n".spec_bytes();
    let head = a + t0;
    let timed = head + t1 + m0;
    let full = timed + m1 + x0 + x1 + n0 + n1 + e0 + e1 + i0 + i1;
    assert(status_text(s, current) == full + d + f + g);
    let first = a + t0;
    let second = t0 + t1 + m0;
    let third = m0 + m1 + x0 + x1 + n0 + n1 + e0 + e1 + i0 + i1;

    lemma_shows_last(Seq::empty(), first);
    assert(Seq::<u8>::empty() + first =~= first);
    lemma_joined(a, t0, t1);
    lemma_joined(a, t0 + t1, m0);
    lemma_shows_last(a, second);
    let p = a + t0 + t1;
    lemma_joined(p, m0, m1);
    lemma_joined(p, m0 + m1, x0);
    lemma_joined(p, m0 + m1 + x0, x1);
    lemma_joined(p, m0 + m1 + x0 + x1, n0);
    lemma_joined(p, m0 + m1 + x0 + x1 + n0, n1);
    lemma_joined(p, m0 + m1 + x0 + x1 + n0 + n1, e0);
    lemma_joined(p, m0 + m1 + x0 + x1 + n0 + n1 + e0, e1);
    lemma_joined(p, m0 + m1 + x0 + x1 + n0 + n1 + e0 + e1, i0);
    lemma_joined(p, m0 + m1 + x0 + x1 + n0 + n1 + e0 + e1 + i0, i1);
    assert(full == p + third);
    lemma_shows_last(p, third);
    lemma_still_shows(head, first, t1);
    lemma_still_shows(head + t1, first, m0);
    lemma_both_still_show(timed, first, second, m1);
    lemma_both_still_show(timed + m1, first, second, x0);
    lemma_both_still_show(timed + m1 + x0, first, second, x1);
    lemma_both_still_show(timed + m1 + x0 + x1, first, second, n0);
    lemma_both_still_show(timed + m1 + x0 + x1 + n0, first, second, n1);
    lemma_both_still_show(timed + m1 + x0 + x1 + n0 + n1, first, second, e0);
    lemma_both_still_show(timed + m1 + x0 + x1 + n0 + n1 + e0, first, second, e1);
    lemma_both_still_show(timed + m1 + x0 + x1 + n0 + n1 + e0 + e1, first, second, i0);
    lemma_both_still_show(timed + m1 + x0 + x1 + n0 + n1 + e0 + e1 + i0, first, second, i1);
    lemma_both_still_show(full, first, second, d);
    lemma_both_still_show(full + d, first, second, f);
    lemma_both_still_show(full + d + f, first, second, g);
    lemma_shows_last(full, d);
    lemma_both_still_show(full, third, third, d);
    lemma_both_still_show(full + d, third, d, f);
    lemma_both_still_show(full + d + f, third, d, g);
    if let Some(key) = s.found {
        let k = " read_key=0x".spec_bytes() + hex(key as nat, 4);
        let end = " confirmed=2".spec_bytes();
        reveal_strlit(" confirmed=2");
        reveal_strlit("\n");
        reveal_strlit(" confirmed=2\n");
        is_ascii_spec_bytes(" confirmed=2");
        is_ascii_spec_bytes("\n");
        is_ascii_spec_bytes(" confirmed=2\n");
        assert(" confirmed=2\n".spec_bytes() =~= end + g);
        lemma_joined(k, end, g);
        lemma_joined(full + d, k + end, g);
        lemma_shows_last(full + d, k + " confirmed=2\n".spec_bytes());
    }
}

// ---------------------------------------------------------------------------
// Warnings
// ---------------------------------------------------------------------------
/// A trial that goes on, or ends with its candidate done, has nothing to warn of; every other
/// reply has its reason.
pub proof fn lemma_reasons_are_told(t: Trial, reply: Reply)
    ensures
        t.stage is Relock || t.stage is Drain || t.stage is Unlock || t.stage is Begin ==> (
        trial_failure(t, reply) is None <==> reply is Done),
        t.stage is Query ==> (trial_failure(t, reply) is None <==> reply == Reply::Id(
            t.state.software_id,
        )),
        t.stage is Read ==> (trial_failure(t, reply) is None <==> reply is Data),
        t.stage == TrialStage::Finish(Round::FirstAttempt) || t.stage == TrialStage::Finish(
            Round::SecondAttempt,
        ) ==> (trial_failure(t, reply) is None <==> reply is Done || reply.silent()),
        t.stage == TrialStage::Finish(Round::FirstConfirmation) || t.stage == TrialStage::Finish(
            Round::SecondConfirmation,
        ) ==> (trial_failure(t, reply) is None <==> reply is Done),
        t.stage is Recover ==> trial_failure(t, reply) is None,
{
}

/// The reasons, word for word.
pub proof fn lemma_reason_texts(t: Trial, e: Vec<u8>, id: u16, reply: Reply)
    ensures
        t.stage is Query && id != t.state.software_id ==> trial_failure(t, Reply::Id(id)) == Some(
            "software ID changed".spec_bytes(),
        ),
        t.stage is Query || t.stage is Unlock || t.stage is Read ==> trial_failure(
            t,
            Reply::TimedOut(e),
        ) == Some("diagnostic timeout".spec_bytes()),
        t.stage is Begin ==> trial_failure(t, Reply::TimedOut(e)) == Some(
            "read request/echo timeout".spec_bytes(),
        ),
        t.stage is Relock || t.stage is Drain || t.stage is Query || t.stage is Unlock || t.stage
            is Begin || t.stage is Read ==> trial_failure(t, Reply::Failed(e)) == Some(e@),
        t.stage is Finish ==> trial_failure(t, Reply::Failed(e)) == Some(
            "read transport/protocol error: ".spec_bytes() + e@,
        ),
        t.stage is Finish && reply is Unanswered && !reply.silent() ==> trial_failure(t, reply)
            == Some("partial read/echo timeout".spec_bytes()),
        (t.stage == TrialStage::Finish(Round::FirstConfirmation) || t.stage == TrialStage::Finish(
            Round::SecondConfirmation,
        )) && reply.silent() ==> trial_failure(t, reply) == Some(
            "candidate did not confirm".spec_bytes(),
        ),
        candidate_warning(id, e@) == "Autonomous key 0x".spec_bytes() + hex(id as nat, 4)
            + ": ".spec_bytes() + e@,
{
}

} // verus!
