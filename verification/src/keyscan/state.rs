//! The state of a key-scan job.

use vstd::prelude::*;

verus! {

/// Where a scan job stands.
#[derive(Clone, Copy, Debug, PartialEq, Eq, Structural)]
pub enum Phase {
    Idle,
    Running,
    Paused,
    Found,
    Done,
    StorageError,
}

impl Phase {
    /// The name under which status reports show the phase.
    pub open spec fn label(self) -> &'static str {
        match self {
            Phase::Idle => "idle",
            Phase::Running => "running",
            Phase::Paused => "paused",
            Phase::Found => "found",
            Phase::Done => "done",
            Phase::StorageError => "storage_error",
        }
    }

    pub fn name(self) -> (r: &'static str)
        ensures
            r == self.label(),
    {
        match self {
            Phase::Idle => "idle",
            Phase::Running => "running",
            Phase::Paused => "paused",
            Phase::Found => "found",
            Phase::Done => "done",
            Phase::StorageError => "storage_error",
        }
    }

    /// The number that stands for the phase in a stored record.
    pub open spec fn number(self) -> u8 {
        match self {
            Phase::Idle => 0,
            Phase::Running => 1,
            Phase::Paused => 2,
            Phase::Found => 3,
            Phase::Done => 4,
            Phase::StorageError => 5,
        }
    }

    /// The phase that a stored number stands for.
    pub open spec fn of_number(n: u8) -> Option<Phase> {
        match n {
            0 => Some(Phase::Idle),
            1 => Some(Phase::Running),
            2 => Some(Phase::Paused),
            3 => Some(Phase::Found),
            4 => Some(Phase::Done),
            5 => Some(Phase::StorageError),
            _ => None,
        }
    }

    /// The number that stands for the phase in a stored record.
    pub fn code(self) -> (r: u8)
        ensures
            r == self.number(),
    {
        match self {
            Phase::Idle => 0,
            Phase::Running => 1,
            Phase::Paused => 2,
            Phase::Found => 3,
            Phase::Done => 4,
            Phase::StorageError => 5,
        }
    }

    /// The phase that a stored number stands for, if any.
    pub fn from_code(n: u8) -> (r: Option<Phase>)
        ensures
            r == Phase::of_number(n),
    {
        match n {
            0 => Some(Phase::Idle),
            1 => Some(Phase::Running),
            2 => Some(Phase::Paused),
            3 => Some(Phase::Found),
            4 => Some(Phase::Done),
            5 => Some(Phase::StorageError),
            _ => None,
        }
    }
}

/// A scan job: its range and timing, its progress and its result.
///
/// `next` is the next sequential candidate; one past `end` once the range is
/// exhausted. Bit `i` of `known_mask` is set once candidate `i` of the registry
/// was tried. `timeout_ms` is the timeout in effect between its two limits.
#[derive(Clone, Copy, Debug, PartialEq, Eq, Structural)]
pub struct State {
    pub phase: Phase,
    pub software_id: u16,
    pub start: u16,
    pub end: u16,
    pub next: u32,
    pub minimum_ms: u16,
    pub timeout_ms: u16,
    pub maximum_ms: u16,
    pub known_mask: u32,
    pub found: Option<u16>,
    pub errors: u32,
    pub increases: u32,
    pub tested: u32,
}

/// `n + 1`, held at the largest counter value.
pub open spec fn counted(n: u32) -> u32 {
    if n == u32::MAX {
        n
    } else {
        (n + 1) as u32
    }
}

impl State {
    /// The range is not empty and the timeouts are 40 to 2000 ms in steps of 5.
    pub open spec fn valid_parameters(start: u16, end: u16, minimum: u16, maximum: u16) -> bool {
        &&& start <= end
        &&& 40 <= minimum <= maximum <= 2000
        &&& minimum % 5 == 0
        &&& maximum % 5 == 0
    }

    /// The parameters are valid, the cursor stands within the range or just
    /// behind it, and the timeout lies between its limits.
    pub open spec fn well_formed(self) -> bool {
        &&& State::valid_parameters(self.start, self.end, self.minimum_ms, self.maximum_ms)
        &&& self.start <= self.next <= self.end + 1
        &&& self.minimum_ms <= self.timeout_ms <= self.maximum_ms
    }

    /// No job: the full range, the default timeouts and no progress.
    pub open spec fn idle() -> State {
        State {
            phase: Phase::Idle,
            software_id: 0,
            start: 0,
            end: 0xffff,
            next: 0,
            minimum_ms: 100,
            timeout_ms: 100,
            maximum_ms: 500,
            known_mask: 0,
            found: None,
            errors: 0,
            increases: 0,
            tested: 0,
        }
    }

    /// A running job that has tried nothing yet.
    pub open spec fn fresh(id: u16, start: u16, end: u16, minimum: u16, maximum: u16) -> State {
        State {
            phase: Phase::Running,
            software_id: id,
            start,
            end,
            next: start as u32,
            minimum_ms: minimum,
            timeout_ms: minimum,
            maximum_ms: maximum,
            ..State::idle()
        }
    }

    /// The job after a transport failure: below the cap the timeout rises by
    /// 5 ms and all silence observed so far is to be observed again; at the cap
    /// the job pauses with its progress.
    pub open spec fn after_failure(self) -> State {
        if self.timeout_ms < self.maximum_ms {
            State {
                errors: counted(self.errors),
                timeout_ms: if self.timeout_ms + 5 <= self.maximum_ms {
                    (self.timeout_ms + 5) as u16
                } else {
                    self.maximum_ms
                },
                increases: counted(self.increases),
                next: self.start as u32,
                known_mask: 0,
                tested: 0,
                ..self
            }
        } else {
            State { errors: counted(self.errors), phase: Phase::Paused, ..self }
        }
    }

    pub fn empty() -> (r: State)
        ensures
            r == State::idle(),
            r.well_formed(),
    {
        State {
            phase: Phase::Idle,
            software_id: 0,
            start: 0,
            end: 0xffff,
            next: 0,
            minimum_ms: 100,
            timeout_ms: 100,
            maximum_ms: 500,
            known_mask: 0,
            found: None,
            errors: 0,
            increases: 0,
            tested: 0,
        }
    }

    /// Starts a job, unless its parameters are not acceptable.
    pub fn start(id: u16, start: u16, end: u16, minimum: u16, maximum: u16) -> (r: Option<State>)
        ensures
            r == if State::valid_parameters(start, end, minimum, maximum) {
                Some(State::fresh(id, start, end, minimum, maximum))
            } else {
                None
            },
            r matches Some(s) ==> s.well_formed(),
    {
        if start > end || minimum < 40 || minimum > maximum || maximum > 2000 || minimum % 5 != 0
            || maximum % 5 != 0 {
            return None;
        }
        Some(
            State {
                phase: Phase::Running,
                software_id: id,
                start,
                end,
                next: u32::from(start),
                minimum_ms: minimum,
                timeout_ms: minimum,
                maximum_ms: maximum,
                ..State::empty()
            },
        )
    }

    /// Retry all silence observations when their timing assumption changes.
    /// At the cap, pause instead of skipping an untestable key.
    pub fn failure(&mut self)
        ensures
            *final(self) == old(self).after_failure(),
    {
        self.errors = self.errors.saturating_add(1);
        if self.timeout_ms < self.maximum_ms {
            let raised = self.timeout_ms.saturating_add(5);
            self.timeout_ms = if raised < self.maximum_ms {
                raised
            } else {
                self.maximum_ms
            };
            self.increases = self.increases.saturating_add(1);
            self.next = u32::from(self.start);
            self.known_mask = 0;
            self.tested = 0;
        } else {
            self.phase = Phase::Paused;
        }
    }
}

/// `n` transport failures in a row.
pub open spec fn after_failures(s: State, n: nat) -> State
    decreases n,
{
    if n == 0 {
        s
    } else {
        after_failures(s, (n - 1) as nat).after_failure()
    }
}

/// A failure keeps the job well formed and keeps its range, limits and
/// software ID; it never lowers the timeout.
pub proof fn lemma_failure_keeps_job(s: State)
    requires
        s.well_formed(),
    ensures
        s.after_failure().well_formed(),
        s.after_failure().software_id == s.software_id,
        s.after_failure().start == s.start,
        s.after_failure().end == s.end,
        s.after_failure().minimum_ms == s.minimum_ms,
        s.after_failure().maximum_ms == s.maximum_ms,
        s.after_failure().found == s.found,
        s.after_failure().timeout_ms >= s.timeout_ms,
{
}

/// The sum, held at the largest counter value.
pub open spec fn counted_up(n: u32, by: int) -> int {
    if n + by <= u32::MAX {
        n + by
    } else {
        u32::MAX as int
    }
}

/// The failures out of `n` that raise the timeout of the job: as many as there are
/// steps of 5 ms below its limit.
pub open spec fn raising_failures(s: State, n: nat) -> int {
    let steps = (s.maximum_ms - s.timeout_ms + 4) / 5;
    if n <= steps {
        n as int
    } else {
        steps
    }
}

/// Failures raise the timeout in steps of 5 ms up to its limit, and once it
/// stands there the next failure pauses the job. Every failure is counted, and so
/// is every rise.
pub proof fn lemma_failures_raise_then_pause(s: State, n: nat)
    requires
        s.well_formed(),
        s.phase != Phase::Paused,
    ensures
        after_failures(s, n).well_formed(),
        after_failures(s, n).maximum_ms == s.maximum_ms,
        s.timeout_ms + 5 * n <= s.maximum_ms ==> after_failures(s, n).timeout_ms == s.timeout_ms
            + 5 * n && after_failures(s, n).phase == s.phase,
        s.timeout_ms + 5 * n >= s.maximum_ms ==> after_failures(s, n).timeout_ms == s.maximum_ms,
        s.timeout_ms + 5 * n >= s.maximum_ms + 5 ==> after_failures(s, n).phase == Phase::Paused,
        after_failures(s, n).errors == counted_up(s.errors, n as int),
        after_failures(s, n).increases == counted_up(s.increases, raising_failures(s, n)),
    decreases n,
{
    if n > 0 {
        lemma_failures_raise_then_pause(s, (n - 1) as nat);
        lemma_failure_keeps_job(after_failures(s, (n - 1) as nat));
    }
}

/// A fresh job after `n` failures: it has counted them all, and each rise of the
/// timeout up to its limit.
pub proof fn lemma_fresh_job_counts_failures(
    id: u16,
    start: u16,
    end: u16,
    minimum: u16,
    maximum: u16,
    n: nat,
)
    requires
        State::valid_parameters(start, end, minimum, maximum),
        n <= u32::MAX,
    ensures
        ({
            let s = after_failures(State::fresh(id, start, end, minimum, maximum), n);
            &&& s.errors == n
            &&& s.increases == if n <= (maximum - minimum) / 5 {
                n as int
            } else {
                (maximum - minimum) / 5
            }
        }),
{
    lemma_failures_raise_then_pause(State::fresh(id, start, end, minimum, maximum), n);
}

} // verus!
