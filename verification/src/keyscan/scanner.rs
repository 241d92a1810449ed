//! The scanner: which key is tried next, how a key is tried, and what the
//! result does to the job.

use super::state::{counted, Phase, State};
use crate::known_read_keys::ReadKeyCandidate;
use crate::link::{Reply, Request, DEVICE_TIMEOUT_MS};
use crate::text::{hex, push_bytes, push_hex, push_text, text_bytes};
use vstd::prelude::*;
use vstd::string::*;
use vstd::utf8::*;

verus! {

/// The registry entries that a job keeps track of.
pub const TRACKED: usize = 32;

// ---------------------------------------------------------------------------
// Candidates
// ---------------------------------------------------------------------------
/// Bit `i` of a mask is set.
pub open spec fn marked(mask: u32, i: int) -> bool {
    mask & (1u32 << (i as u32)) != 0
}

/// Registry entry `i` is still to be tried by the job.
pub open spec fn wanted(s: State, keys: Seq<ReadKeyCandidate>, i: int) -> bool {
    &&& 0 <= i < keys.len()
    &&& i < TRACKED
    &&& !marked(s.known_mask, i)
    &&& s.start <= keys[i].key <= s.end
}

/// The first registry entry at or behind `i` that is still to be tried.
pub open spec fn first_wanted(s: State, keys: Seq<ReadKeyCandidate>, i: int) -> Option<int>
    decreases keys.len() - i,
{
    if i >= keys.len() {
        None
    } else if wanted(s, keys, i) {
        Some(i)
    } else {
        first_wanted(s, keys, i + 1)
    }
}

/// The job has tried `key` as a registry entry.
pub open spec fn known_tried(s: State, keys: Seq<ReadKeyCandidate>, key: u16) -> bool {
    exists|i: int|
        0 <= i < keys.len() && i < TRACKED && #[trigger] keys[i].key == key && marked(
            s.known_mask,
            i,
        )
}

/// The first key at or behind `next` that was not tried as a registry entry, or
/// the end of the range.
pub open spec fn next_sequential(s: State, keys: Seq<ReadKeyCandidate>, next: int) -> int
    decreases s.end + 1 - next,
{
    if next <= s.end && known_tried(s, keys, next as u16) {
        next_sequential(s, keys, next + 1)
    } else {
        next
    }
}

/// The key to try and its registry entry, if it has one; and the job with its
/// cursor on that key. Registry entries come first, then the range in order.
pub open spec fn candidate(s: State, keys: Seq<ReadKeyCandidate>) -> (State, Option<
    (u16, Option<u8>),
>) {
    match first_wanted(s, keys, 0) {
        Some(i) => (s, Some((keys[i].key, Some(i as u8)))),
        None => {
            let next = next_sequential(s, keys, s.next as int);
            let s = State { next: next as u32, ..s };
            if next <= s.end {
                (s, Some((next as u16, None)))
            } else {
                (s, None)
            }
        },
    }
}

proof fn lemma_mark(mask: u32, i: u32, j: u32)
    requires
        i < 32,
        j < 32,
    ensures
        marked(mask | (1u32 << i), j as int) == (i == j || marked(mask, j as int)),
{
    assert((mask | (1u32 << i)) & (1u32 << j) != 0 <==> (i == j || mask & (1u32 << j) != 0))
        by (bit_vector)
        requires
            i < 32,
            j < 32,
    ;
}

fn is_known_tried(s: &State, keys: &[ReadKeyCandidate], key: u16) -> (r: bool)
    ensures
        r == known_tried(*s, keys@, key),
{
    for i in 0..keys.len()
        invariant
            forall|j: int|
                0 <= j < i && j < TRACKED ==> !(#[trigger] keys@[j].key == key && marked(
                    s.known_mask,
                    j,
                )),
    {
        if i < TRACKED && keys[i].key == key && s.known_mask & (1u32 << (i as u32)) != 0 {
            assert(keys@[i as int].key == key);
            return true;
        }
    }
    false
}

fn find_wanted(s: &State, keys: &[ReadKeyCandidate]) -> (r: Option<usize>)
    ensures
        r matches Some(i) ==> first_wanted(*s, keys@, 0) == Some(i as int) && wanted(
            *s,
            keys@,
            i as int,
        ),
        r is None ==> first_wanted(*s, keys@, 0) is None,
{
    for i in 0..keys.len()
        invariant
            first_wanted(*s, keys@, 0) == first_wanted(*s, keys@, i as int),
    {
        if i < TRACKED && s.known_mask & (1u32 << (i as u32)) == 0 && keys[i].key >= s.start
            && keys[i].key <= s.end {
            assert(wanted(*s, keys@, i as int));
            return Some(i);
        }
        assert(!wanted(*s, keys@, i as int));
    }
    None
}

/// Chooses the key to try next.
pub fn choose_candidate(s: State, keys: &[ReadKeyCandidate]) -> (r: (
    State,
    Option<(u16, Option<u8>)>,
))
    requires
        s.well_formed(),
    ensures
        r == candidate(s, keys@),
        r.0.well_formed(),
        r.1 matches Some((key, _)) ==> s.start <= key <= s.end,
        r.1 matches Some((_, Some(i))) ==> i < TRACKED,
{
    if let Some(i) = find_wanted(&s, keys) {
        return (s, Some((keys[i].key, Some(i as u8))));
    }
    let mut s = s;
    let ghost first = s;
    while s.next <= u32::from(s.end)
        invariant_except_break
            s == (State { next: s.next, ..first }),
            first.well_formed(),
            s.well_formed(),
            next_sequential(first, keys@, first.next as int) == next_sequential(
                first,
                keys@,
                s.next as int,
            ),
        ensures
            s == (State { next: s.next, ..first }),
            s.well_formed(),
            next_sequential(first, keys@, first.next as int) == s.next,
        decreases s.end + 1 - s.next,
    {
        let key = s.next as u16;
        let tried = is_known_tried(&s, keys, key);
        assert(known_tried(s, keys@, key) == known_tried(first, keys@, key));
        if !tried {
            break ;
        }
        s.next = s.next + 1;
    }
    if s.next <= u32::from(s.end) {
        let key = s.next as u16;
        (s, Some((key, None)))
    } else {
        (s, None)
    }
}

// ---------------------------------------------------------------------------
// Outcomes
// ---------------------------------------------------------------------------
impl State {
    /// The job after `key` met with silence.
    pub open spec fn after_silence(self, key: u16, known: Option<u8>) -> State {
        match known {
            Some(i) => State {
                known_mask: self.known_mask | (1u32 << (i as u32)),
                tested: counted(self.tested),
                ..self
            },
            None => State { next: (key + 1) as u32, tested: counted(self.tested), ..self },
        }
    }

    /// The job after `key` was confirmed.
    pub open spec fn after_hit(self, key: u16) -> State {
        State { found: Some(key), phase: Phase::Found, ..self }
    }

    /// The job after the appliance turned out to be another one.
    pub open spec fn after_id_change(self) -> State {
        State { errors: counted(self.errors), phase: Phase::Paused, ..self }
    }

    /// The job after its range was exhausted.
    pub open spec fn exhausted(self) -> State {
        State { phase: Phase::Done, ..self }
    }
}

// ---------------------------------------------------------------------------
// Trying a key
// ---------------------------------------------------------------------------
/// Which probe of a key is running: one of two attempts, or one of two
/// confirmations of an answer.
#[derive(Clone, Copy, Debug, PartialEq, Eq, Structural)]
pub enum Round {
    FirstAttempt,
    SecondAttempt,
    FirstConfirmation,
    SecondConfirmation,
}

impl Round {
    /// The round is one of the two attempts.
    pub open spec fn attempt(self) -> bool {
        self == Round::FirstAttempt || self == Round::SecondAttempt
    }
}

/// The step of a trial.
#[derive(Clone, Copy, Debug, PartialEq, Eq, Structural)]
pub enum TrialStage {
    /// Relock through inactivity before a confirmation.
    Relock(Round),
    Query(Round),
    Unlock(Round),
    Begin(Round),
    Finish(Round),
    /// Late bytes or noise are errors, not a negative observation.
    Drain(Round),
    /// A confirmation reads once more. The values are not compared: they can
    /// legitimately change between reads.
    Read(Round),
    /// Regain the line after a failure.
    Recover,
}

/// A key on trial.
#[derive(Clone, Copy, Debug, PartialEq, Eq, Structural)]
pub struct Trial {
    pub state: State,
    pub key: u16,
    pub known: Option<u8>,
    pub stage: TrialStage,
}

/// What comes after a reply.
#[derive(Clone, Copy, Debug, PartialEq, Eq, Structural)]
pub enum TrialStep {
    /// The trial wants another operation.
    Do(Trial),
    /// The candidate is completed, and this is the job to be saved.
    Over(State),
}

impl Trial {
    pub open spec fn well_formed(self) -> bool {
        &&& self.state.well_formed()
        &&& self.state.start <= self.key <= self.state.end
        &&& self.known matches Some(i) ==> i < TRACKED
        &&& self.stage matches TrialStage::Drain(round) ==> round.attempt()
        &&& self.stage matches TrialStage::Relock(round) ==> !round.attempt()
        &&& self.stage matches TrialStage::Read(round) ==> !round.attempt()
    }

    /// How many replies may still be wanted.
    pub open spec fn remaining(self) -> int {
        match self.stage {
            TrialStage::Query(Round::FirstAttempt) => 24,
            TrialStage::Unlock(Round::FirstAttempt) => 23,
            TrialStage::Begin(Round::FirstAttempt) => 22,
            TrialStage::Finish(Round::FirstAttempt) => 21,
            TrialStage::Drain(Round::FirstAttempt) => 20,
            TrialStage::Query(Round::SecondAttempt) => 19,
            TrialStage::Unlock(Round::SecondAttempt) => 18,
            TrialStage::Begin(Round::SecondAttempt) => 17,
            TrialStage::Finish(Round::SecondAttempt) => 16,
            TrialStage::Drain(Round::SecondAttempt) => 15,
            TrialStage::Relock(Round::SecondConfirmation) => 7,
            TrialStage::Query(Round::SecondConfirmation) => 6,
            TrialStage::Unlock(Round::SecondConfirmation) => 5,
            TrialStage::Begin(Round::SecondConfirmation) => 4,
            TrialStage::Finish(Round::SecondConfirmation) => 3,
            TrialStage::Read(Round::SecondConfirmation) => 2,
            TrialStage::Relock(_) => 13,
            TrialStage::Query(_) => 12,
            TrialStage::Unlock(_) => 11,
            TrialStage::Begin(_) => 10,
            TrialStage::Finish(_) => 9,
            TrialStage::Read(_) => 8,
            TrialStage::Drain(_) => 0,
            TrialStage::Recover => 1,
        }
    }

    /// The operation that is wanted.
    pub open spec fn operation(self) -> Request {
        match self.stage {
            TrialStage::Relock(_) => Request::Resynchronize,
            TrialStage::Query(_) => Request::QueryId,
            TrialStage::Unlock(_) => Request::Unlock { key: self.key },
            TrialStage::Begin(_) => Request::BeginProbe,
            TrialStage::Finish(round) => Request::FinishProbe {
                timeout_ms: if round.attempt() {
                    self.state.timeout_ms as u64
                } else {
                    1000
                },
            },
            TrialStage::Drain(_) => Request::Drain,
            TrialStage::Read(_) => Request::ReadMemory {
                address: 0,
                length: 16,
                timeout_ms: DEVICE_TIMEOUT_MS,
            },
            TrialStage::Recover => Request::Resynchronize,
        }
    }

    /// The trial at another stage.
    pub open spec fn at(self, stage: TrialStage) -> TrialStep {
        TrialStep::Do(Trial { stage, ..self })
    }

    /// A transport failure: the job takes note, and the line is regained.
    pub open spec fn failed(self) -> TrialStep {
        TrialStep::Do(
            Trial { state: self.state.after_failure(), stage: TrialStage::Recover, ..self },
        )
    }

    /// What comes after a reply.
    pub open spec fn after(self, reply: Reply) -> TrialStep {
        match self.stage {
            TrialStage::Relock(round) => if reply is Done {
                self.at(TrialStage::Query(round))
            } else {
                self.failed()
            },
            TrialStage::Query(round) => match reply {
                Reply::Id(id) => if id == self.state.software_id {
                    self.at(TrialStage::Unlock(round))
                } else {
                    TrialStep::Do(
                        Trial {
                            state: self.state.after_id_change(),
                            stage: TrialStage::Recover,
                            ..self
                        },
                    )
                },
                _ => self.failed(),
            },
            TrialStage::Unlock(round) => if reply is Done {
                self.at(TrialStage::Begin(round))
            } else {
                self.failed()
            },
            TrialStage::Begin(round) => if reply is Done {
                self.at(TrialStage::Finish(round))
            } else {
                self.failed()
            },
            TrialStage::Finish(round) => match round {
                Round::FirstAttempt | Round::SecondAttempt => if reply is Done {
                    self.at(TrialStage::Relock(Round::FirstConfirmation))
                } else if reply.silent() {
                    self.at(TrialStage::Drain(round))
                } else {
                    self.failed()
                },
                _ => if reply is Done {
                    self.at(TrialStage::Read(round))
                } else {
                    self.failed()
                },
            },
            TrialStage::Drain(round) => if !(reply is Done) {
                self.failed()
            } else if round == Round::FirstAttempt {
                self.at(TrialStage::Query(Round::SecondAttempt))
            } else {
                TrialStep::Over(self.state.after_silence(self.key, self.known))
            },
            TrialStage::Read(round) => if !(reply is Data) {
                self.failed()
            } else if round == Round::FirstConfirmation {
                self.at(TrialStage::Relock(Round::SecondConfirmation))
            } else {
                TrialStep::Over(self.state.after_hit(self.key))
            },
            TrialStage::Recover => TrialStep::Over(self.state),
        }
    }

    /// The operation that is wanted.
    pub fn request(&self) -> (r: Request)
        ensures
            r == self.operation(),
    {
        match self.stage {
            TrialStage::Relock(_) => Request::Resynchronize,
            TrialStage::Query(_) => Request::QueryId,
            TrialStage::Unlock(_) => Request::Unlock { key: self.key },
            TrialStage::Begin(_) => Request::BeginProbe,
            TrialStage::Finish(round) => {
                let timeout_ms = match round {
                    Round::FirstAttempt | Round::SecondAttempt => u64::from(self.state.timeout_ms),
                    _ => 1000,
                };
                Request::FinishProbe { timeout_ms }
            },
            TrialStage::Drain(_) => Request::Drain,
            TrialStage::Read(_) => Request::ReadMemory {
                address: 0,
                length: 16,
                timeout_ms: DEVICE_TIMEOUT_MS,
            },
            TrialStage::Recover => Request::Resynchronize,
        }
    }

    fn fail(self) -> (r: TrialStep)
        ensures
            r == self.failed(),
    {
        let mut state = self.state;
        state.failure();
        TrialStep::Do(Trial { state, stage: TrialStage::Recover, ..self })
    }

    fn go(self, done: bool, stage: TrialStage) -> (r: TrialStep)
        ensures
            r == if done {
                self.at(stage)
            } else {
                self.failed()
            },
    {
        if done {
            TrialStep::Do(Trial { stage, ..self })
        } else {
            self.fail()
        }
    }

    /// Takes the reply to the wanted operation.
    pub fn supply(self, reply: Reply) -> (r: TrialStep)
        requires
            self.well_formed(),
        ensures
            r == self.after(reply),
            r matches TrialStep::Do(next) ==> next.well_formed() && next.remaining()
                < self.remaining(),
            r matches TrialStep::Over(s) ==> s.well_formed(),
    {
        let done = match &reply {
            Reply::Done => true,
            _ => false,
        };
        match self.stage {
            TrialStage::Relock(round) => self.go(done, TrialStage::Query(round)),
            TrialStage::Query(round) => {
                match reply {
                    Reply::Id(id) => {
                        if id == self.state.software_id {
                            return self.go(true, TrialStage::Unlock(round));
                        }
                        let mut state = self.state;
                        state.errors = state.errors.saturating_add(1);
                        state.phase = Phase::Paused;
                        TrialStep::Do(Trial { state, stage: TrialStage::Recover, ..self })
                    },
                    _ => self.fail(),
                }
            },
            TrialStage::Unlock(round) => self.go(done, TrialStage::Begin(round)),
            TrialStage::Begin(round) => self.go(done, TrialStage::Finish(round)),
            TrialStage::Finish(round) => {
                match round {
                    Round::FirstAttempt | Round::SecondAttempt => {
                        if done {
                            return self.go(true, TrialStage::Relock(Round::FirstConfirmation));
                        }
                        self.go(reply.is_silent(), TrialStage::Drain(round))
                    },
                    _ => self.go(done, TrialStage::Read(round)),
                }
            },
            TrialStage::Drain(round) => {
                if !done {
                    return self.fail();
                }
                if round == Round::FirstAttempt {
                    return self.go(true, TrialStage::Query(Round::SecondAttempt));
                }
                let mut state = self.state;
                match self.known {
                    Some(i) => {
                        state.known_mask = state.known_mask | (1u32 << (i as u32));
                    },
                    None => {
                        state.next = u32::from(self.key) + 1;
                    },
                }
                state.tested = state.tested.saturating_add(1);
                TrialStep::Over(state)
            },
            TrialStage::Read(round) => {
                match reply {
                    Reply::Data(_) => {
                        if round == Round::FirstConfirmation {
                            return self.go(true, TrialStage::Relock(Round::SecondConfirmation));
                        }
                        let mut state = self.state;
                        state.found = Some(self.key);
                        state.phase = Phase::Found;
                        TrialStep::Over(state)
                    },
                    _ => self.fail(),
                }
            },
            TrialStage::Recover => TrialStep::Over(self.state),
        }
    }
}

/// Why an operation of a trial failed: the text for its timeout, or else the link's own
/// words.
pub open spec fn operation_failure(timeout: Seq<u8>, reply: Reply) -> Seq<u8> {
    match reply {
        Reply::TimedOut(_) => timeout,
        Reply::Failed(e) => e@,
        _ => Seq::empty(),
    }
}

/// Why the answer to a probe fails a trial.
pub open spec fn answer_failure(reply: Reply) -> Seq<u8> {
    match reply {
        Reply::Failed(e) => "read transport/protocol error: ".spec_bytes() + e@,
        _ => if reply.silent() {
            "candidate did not confirm".spec_bytes()
        } else {
            "partial read/echo timeout".spec_bytes()
        },
    }
}

/// Why a trial fails with a reply, if it does.
pub open spec fn trial_failure(t: Trial, reply: Reply) -> Option<Seq<u8>> {
    match t.stage {
        TrialStage::Relock(_) | TrialStage::Drain(_) => if reply is Done {
            None
        } else {
            Some(operation_failure(Seq::empty(), reply))
        },
        TrialStage::Query(_) => match reply {
            Reply::Id(id) => if id == t.state.software_id {
                None
            } else {
                Some("software ID changed".spec_bytes())
            },
            _ => Some(operation_failure("diagnostic timeout".spec_bytes(), reply)),
        },
        TrialStage::Unlock(_) => if reply is Done {
            None
        } else {
            Some(operation_failure("diagnostic timeout".spec_bytes(), reply))
        },
        TrialStage::Begin(_) => if reply is Done {
            None
        } else {
            Some(operation_failure("read request/echo timeout".spec_bytes(), reply))
        },
        TrialStage::Finish(round) => if reply is Done || (reply.silent() && (round
            == Round::FirstAttempt || round == Round::SecondAttempt)) {
            None
        } else {
            Some(answer_failure(reply))
        },
        TrialStage::Read(_) => if reply is Data {
            None
        } else {
            Some(operation_failure("diagnostic timeout".spec_bytes(), reply))
        },
        TrialStage::Recover => None,
    }
}

/// The warning about a failed candidate.
pub open spec fn candidate_warning(key: u16, why: Seq<u8>) -> Seq<u8> {
    "Autonomous key 0x".spec_bytes() + hex(key as nat, 4) + ": ".spec_bytes() + why
}

fn push_operation_failure(out: &mut Vec<u8>, timeout: &[u8], reply: &Reply)
    ensures
        final(out)@ == old(out)@ + operation_failure(timeout@, *reply),
{
    match reply {
        Reply::TimedOut(_) => push_bytes(out, timeout),
        Reply::Failed(e) => push_bytes(out, e.as_slice()),
        _ => {
            assert(out@ =~= out@ + Seq::<u8>::empty());
        },
    }
}

fn push_answer_failure(out: &mut Vec<u8>, reply: &Reply)
    ensures
        final(out)@ == old(out)@ + answer_failure(*reply),
{
    match reply {
        Reply::Failed(e) => {
            push_text(out, "read transport/protocol error: ");
            push_bytes(out, e.as_slice());
            assert(out@ =~= old(out)@ + answer_failure(*reply));
        },
        _ => {
            if reply.is_silent() {
                push_text(out, "candidate did not confirm");
            } else {
                push_text(out, "partial read/echo timeout");
            }
        },
    }
}

impl Trial {
    fn fails(&self, reply: &Reply) -> (r: bool)
        ensures
            r == (trial_failure(*self, *reply) is Some),
    {
        let done = match reply {
            Reply::Done => true,
            _ => false,
        };
        match self.stage {
            TrialStage::Relock(_) | TrialStage::Drain(_) | TrialStage::Unlock(_)
            | TrialStage::Begin(_) => !done,
            TrialStage::Query(_) => match reply {
                Reply::Id(id) => *id != self.state.software_id,
                _ => true,
            },
            TrialStage::Finish(round) => match round {
                Round::FirstAttempt | Round::SecondAttempt => !done && !reply.is_silent(),
                _ => !done,
            },
            TrialStage::Read(_) => match reply {
                Reply::Data(_) => false,
                _ => true,
            },
            TrialStage::Recover => false,
        }
    }

    /// Writes the warning that the candidate fails with a reply to the wanted operation,
    /// if it does.
    pub fn warning(&self, reply: &Reply) -> (r: Option<Vec<u8>>)
        ensures
            r matches Some(line) ==> (trial_failure(*self, *reply) matches Some(why) && line@
                == candidate_warning(self.key, why)),
            r is None ==> trial_failure(*self, *reply) is None,
    {
        if !self.fails(reply) {
            return None;
        }
        let mut out = text_bytes("Autonomous key 0x");
        push_hex(&mut out, self.key as u64, 4);
        push_text(&mut out, ": ");
        match self.stage {
            TrialStage::Query(_) => match reply {
                Reply::Id(_) => push_text(&mut out, "software ID changed"),
                _ => push_operation_failure(&mut out, "diagnostic timeout".as_bytes(), reply),
            },
            TrialStage::Unlock(_) | TrialStage::Read(_) => {
                push_operation_failure(&mut out, "diagnostic timeout".as_bytes(), reply);
            },
            TrialStage::Begin(_) => {
                push_operation_failure(&mut out, "read request/echo timeout".as_bytes(), reply);
            },
            TrialStage::Finish(_) => push_answer_failure(&mut out, reply),
            _ => {
                let none: Vec<u8> = Vec::new();
                push_operation_failure(&mut out, none.as_slice(), reply);
                assert(none@ =~= Seq::empty());
            },
        }
        Some(out)
    }
}

/// A trial warns exactly where it fails: the line is then regained, and nothing else
/// brings a trial there.
pub proof fn lemma_failed_trial_warns(t: Trial, reply: Reply)
    ensures
        trial_failure(t, reply) is Some <==> (t.after(reply) matches TrialStep::Do(next)
            && next.stage == TrialStage::Recover),
{
}

/// The trial that a job begins, or the completed job where its range is
/// exhausted.
pub open spec fn scan_begun(s: State, keys: Seq<ReadKeyCandidate>) -> TrialStep {
    let (s, found) = candidate(s, keys);
    match found {
        Some((key, known)) => TrialStep::Do(
            Trial { state: s, key, known, stage: TrialStage::Query(Round::FirstAttempt) },
        ),
        None => TrialStep::Over(s.exhausted()),
    }
}

/// Begins one step of a running job.
pub fn autonomous_scan_step(s: State, keys: &[ReadKeyCandidate]) -> (r: TrialStep)
    requires
        s.well_formed(),
    ensures
        r == scan_begun(s, keys@),
        r matches TrialStep::Do(trial) ==> trial.well_formed(),
        r matches TrialStep::Over(done) ==> done.well_formed() && done.phase == Phase::Done,
{
    let (state, found) = choose_candidate(s, keys);
    match found {
        Some((key, known)) => TrialStep::Do(
            Trial { state, key, known, stage: TrialStage::Query(Round::FirstAttempt) },
        ),
        None => TrialStep::Over(State { phase: Phase::Done, ..state }),
    }
}

// ---------------------------------------------------------------------------
// What the scanner promises
// ---------------------------------------------------------------------------
/// Every key that the job counts as done is among the keys that met with
/// silence since the observations last began anew.
pub open spec fn covers(s: State, keys: Seq<ReadKeyCandidate>, tried: Set<u16>) -> bool {
    &&& forall|key: u16| s.start <= key < s.next ==> #[trigger] tried.contains(key)
    &&& forall|i: int|
        0 <= i < keys.len() && i < TRACKED && marked(s.known_mask, i) ==> tried.contains(
            #[trigger] keys[i].key,
        )
}

proof fn lemma_next_sequential(s: State, keys: Seq<ReadKeyCandidate>, next: int)
    requires
        0 <= next <= s.end + 1,
    ensures
        next <= next_sequential(s, keys, next) <= s.end + 1,
        forall|k: int|
            next <= k < next_sequential(s, keys, next) ==> known_tried(
                s,
                keys,
                #[trigger] (k as u16),
            ),
        next_sequential(s, keys, next) <= s.end ==> !known_tried(
            s,
            keys,
            next_sequential(s, keys, next) as u16,
        ),
    decreases s.end + 1 - next,
{
    if next <= s.end && known_tried(s, keys, next as u16) {
        lemma_next_sequential(s, keys, next + 1);
    }
}

proof fn lemma_first_wanted(s: State, keys: Seq<ReadKeyCandidate>, i: int)
    requires
        0 <= i <= keys.len(),
    ensures
        first_wanted(s, keys, i) matches Some(j) ==> i <= j && wanted(s, keys, j),
        first_wanted(s, keys, i) is None ==> forall|j: int| i <= j ==> !wanted(s, keys, j),
    decreases keys.len() - i,
{
    if i < keys.len() {
        lemma_first_wanted(s, keys, i + 1);
    }
}

/// Choosing a candidate passes over nothing but keys that were tried, and the
/// candidate is one that the job has not counted as done.
pub proof fn lemma_candidate_skips_only_tried(
    s: State,
    keys: Seq<ReadKeyCandidate>,
    tried: Set<u16>,
)
    requires
        s.well_formed(),
        covers(s, keys, tried),
    ensures
        covers(candidate(s, keys).0, keys, tried),
        candidate(s, keys).1 matches Some((key, Some(i))) ==> wanted(s, keys, i as int)
            && keys[i as int].key == key,
        candidate(s, keys).1 matches Some((key, None)) ==> key == candidate(s, keys).0.next
            && !known_tried(s, keys, key),
{
    lemma_first_wanted(s, keys, 0);
    lemma_next_sequential(s, keys, s.next as int);
    let (t, found) = candidate(s, keys);
    assert forall|key: u16| t.start <= key < t.next implies #[trigger] tried.contains(key) by {
        if key >= s.next {
            assert(known_tried(s, keys, ((key as int) as u16)));
            let i = choose|i: int|
                0 <= i < keys.len() && i < TRACKED && #[trigger] keys[i].key == key && marked(
                    s.known_mask,
                    i,
                );
            assert(tried.contains(keys[i].key));
        }
    }
}

/// Silence adds the candidate, and only it, to the keys that count as done.
pub proof fn lemma_silence_covers_candidate(
    s: State,
    keys: Seq<ReadKeyCandidate>,
    tried: Set<u16>,
    key: u16,
    known: Option<u8>,
)
    requires
        s.well_formed(),
        covers(s, keys, tried),
        candidate(s, keys).1 == Some((key, known)),
    ensures
        covers(candidate(s, keys).0.after_silence(key, known), keys, tried.insert(key)),
        known matches Some(i) ==> forall|j: int|
            j != i ==> wanted(candidate(s, keys).0.after_silence(key, known), keys, j) == wanted(
                s,
                keys,
                j,
            ),
        known matches Some(i) ==> wanted(s, keys, i as int) && !wanted(
            candidate(s, keys).0.after_silence(key, known),
            keys,
            i as int,
        ),
        known is None ==> candidate(s, keys).0.after_silence(key, known).next > s.next,
{
    lemma_candidate_skips_only_tried(s, keys, tried);
    lemma_next_sequential(s, keys, s.next as int);
    let t = candidate(s, keys).0;
    let u = t.after_silence(key, known);
    if let Some(i) = known {
        assert forall|j: int| 0 <= j < 32 implies marked(u.known_mask, j) == (i == j || marked(
            s.known_mask,
            j,
        )) by {
            lemma_mark(s.known_mask, i as u32, j as u32);
        }
        assert forall|j: int|
            0 <= j < keys.len() && j < TRACKED && marked(u.known_mask, j) implies tried.insert(
            key,
        ).contains(#[trigger] keys[j].key) by {
            if j != i {
                assert(tried.contains(keys[j].key));
            }
        }
    }
}

/// The job counts `key` as done: the cursor has passed it, or it was tried as a
/// registry entry.
pub open spec fn done_with(s: State, keys: Seq<ReadKeyCandidate>, key: u16) -> bool {
    s.start <= key < s.next || known_tried(s, keys, key)
}

/// The cursor leaves the start of the range only once no registry entry is left.
pub open spec fn entries_first(s: State, keys: Seq<ReadKeyCandidate>) -> bool {
    s.next == s.start || first_wanted(s, keys, 0) is None
}

/// No two registry entries have the same key.
pub open spec fn distinct_keys(keys: Seq<ReadKeyCandidate>) -> bool {
    forall|i: int, j: int|
        0 <= i < j < keys.len() ==> #[trigger] keys[i].key != #[trigger] keys[j].key
}

/// Each key is observed once for a setting of the timeout: a candidate is never a key
/// that the job counts as done, and silence adds it, and nothing else, to those.
pub proof fn lemma_candidate_is_not_repeated(
    s: State,
    keys: Seq<ReadKeyCandidate>,
    key: u16,
    known: Option<u8>,
)
    requires
        s.well_formed(),
        distinct_keys(keys),
        entries_first(s, keys),
        candidate(s, keys).1 == Some((key, known)),
    ensures
        s.start <= key <= s.end,
        !done_with(s, keys, key),
        forall|k: u16|
            #[trigger]
            done_with(candidate(s, keys).0.after_silence(key, known), keys, k) == (k == key
                || done_with(s, keys, k)),
        entries_first(candidate(s, keys).0.after_silence(key, known), keys),
{
    lemma_first_wanted(s, keys, 0);
    lemma_next_sequential(s, keys, s.next as int);
    let t = candidate(s, keys).0;
    let u = t.after_silence(key, known);
    if let Some(i) = known {
        let i = i as int;
        assert forall|j: int| 0 <= j < 32 implies marked(u.known_mask, j) == (i == j || marked(
            s.known_mask,
            j,
        )) by {
            lemma_mark(s.known_mask, i as u32, j as u32);
        }
        assert forall|k: u16| #[trigger]
            known_tried(u, keys, k) == (k == key || known_tried(s, keys, k)) by {
            if known_tried(s, keys, k) {
                let j = choose|j: int|
                    0 <= j < keys.len() && j < TRACKED && #[trigger] keys[j].key == k && marked(
                        s.known_mask,
                        j,
                    );
                assert(keys[j].key == k && marked(u.known_mask, j));
            }
            assert(keys[i].key == key && marked(u.known_mask, i));
        }
    } else {
        lemma_first_wanted(u, keys, 0);
        assert forall|j: int| wanted(u, keys, j) == wanted(s, keys, j) by {}
        assert forall|k: u16| known_tried(u, keys, k) == known_tried(s, keys, k) by {
            if known_tried(s, keys, k) {
                let j = choose|j: int|
                    0 <= j < keys.len() && j < TRACKED && #[trigger] keys[j].key == k && marked(
                        s.known_mask,
                        j,
                    );
                assert(keys[j].key == k && marked(u.known_mask, j));
            }
        }
        assert forall|k: u16| s.next <= k < key implies known_tried(s, keys, k) by {
            assert((k as int) as u16 == k);
        }
    }
}

/// A new job and one that begins anew with a longer timeout have all of their range
/// before them, registry entries first.
pub proof fn lemma_fresh_job_has_done_nothing(s: State, keys: Seq<ReadKeyCandidate>)
    requires
        s.well_formed(),
        s.next == s.start,
        s.known_mask == 0,
    ensures
        entries_first(s, keys),
        forall|key: u16| !#[trigger] done_with(s, keys, key),
{
    assert forall|i: int| 0 <= i < TRACKED implies !marked(0, i) by {
        let j = i as u32;
        assert(0u32 & (1u32 << j) == 0) by (bit_vector);
    }
}

/// A failure that raises the timeout discards every observation; one at the cap
/// keeps them all.
pub proof fn lemma_failure_covers(s: State, keys: Seq<ReadKeyCandidate>, tried: Set<u16>)
    requires
        s.well_formed(),
        covers(s, keys, tried),
    ensures
        s.timeout_ms < s.maximum_ms ==> covers(s.after_failure(), keys, Set::empty()),
        s.timeout_ms == s.maximum_ms ==> covers(s.after_failure(), keys, tried),
{
    assert forall|i: int| 0 <= i < TRACKED implies !marked(0, i) by {
        let j = i as u32;
        assert(0u32 & (1u32 << j) == 0) by (bit_vector);
    }
}

/// A job is done only when every key of its range met with silence.
pub proof fn lemma_done_means_exhausted(s: State, keys: Seq<ReadKeyCandidate>, tried: Set<u16>)
    requires
        s.well_formed(),
        covers(s, keys, tried),
        scan_begun(s, keys) is Over,
    ensures
        scan_begun(s, keys)->Over_0.phase == Phase::Done,
        forall|key: u16| s.start <= key <= s.end ==> #[trigger] tried.contains(key),
{
    lemma_candidate_skips_only_tried(s, keys, tried);
    lemma_next_sequential(s, keys, s.next as int);
}

/// How a trial can come to each of its stages. A key is unlocked only after the
/// appliance gave the job's software ID. A candidate is given up only after two
/// silent probes, each followed by a clean drain. A key is found only after two
/// confirmations, each of which relocks first, probes again and reads.
pub proof fn lemma_trial_order(t: Trial, reply: Reply)
    requires
        t.well_formed(),
    ensures
        t.after(reply) matches TrialStep::Do(n) ==> {
            &&& n.stage matches TrialStage::Relock(r) ==> reply is Done && (r
                == Round::FirstConfirmation && (t.stage == TrialStage::Finish(Round::FirstAttempt)
                || t.stage == TrialStage::Finish(Round::SecondAttempt)))
                || reply is Data && r == Round::SecondConfirmation && t.stage == TrialStage::Read(
                Round::FirstConfirmation,
            )
            &&& n.stage matches TrialStage::Query(r) ==> reply is Done && (t.stage
                == TrialStage::Relock(r) || r == Round::SecondAttempt && t.stage
                == TrialStage::Drain(Round::FirstAttempt))
            &&& n.stage matches TrialStage::Unlock(r) ==> t.stage == TrialStage::Query(r) && reply
                == Reply::Id(t.state.software_id)
            &&& n.stage matches TrialStage::Begin(r) ==> t.stage == TrialStage::Unlock(r) && reply
                is Done
            &&& n.stage matches TrialStage::Finish(r) ==> t.stage == TrialStage::Begin(r) && reply
                is Done
            &&& n.stage matches TrialStage::Drain(r) ==> t.stage == TrialStage::Finish(r)
                && reply.silent()
            &&& n.stage matches TrialStage::Read(r) ==> t.stage == TrialStage::Finish(r) && reply
                is Done
        },
        t.after(reply) matches TrialStep::Over(s) ==> {
            ||| t.stage == TrialStage::Recover && s == t.state
            ||| t.stage == TrialStage::Drain(Round::SecondAttempt) && reply is Done && s
                == t.state.after_silence(t.key, t.known)
            ||| t.stage == TrialStage::Read(Round::SecondConfirmation) && reply is Data && s
                == t.state.after_hit(t.key)
        },
{
}

} // verus!
