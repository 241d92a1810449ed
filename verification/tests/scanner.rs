use freemdu_home::keyscan::job::{scan_status, ScanJob, NO_CANDIDATE};
use freemdu_home::keyscan::journal::Journal;
use freemdu_home::keyscan::scanner::{
    autonomous_scan_step, choose_candidate, Round, Trial, TrialStage, TrialStep, TRACKED,
};
use freemdu_home::keyscan::{Phase, State};
use freemdu_home::known_read_keys::{parse_registry, ReadKeyCandidate, RegistryError};
use freemdu_home::link::{Reply, Request, DEVICE_TIMEOUT_MS};
use freemdu_home::optical::OpticalProgress;

fn keys(list: &[u16]) -> Vec<ReadKeyCandidate> {
    list.iter()
        .map(|key| ReadKeyCandidate {
            key: *key,
            software_ids: "410 498",
            source: "report",
        })
        .collect()
}

/// An appliance with one right key; it answers reads once unlocked.
struct Appliance {
    id: u16,
    right: u16,
    unlocked: bool,
    log: Vec<Request>,
}

impl Appliance {
    fn new(id: u16, right: u16) -> Self {
        Self {
            id,
            right,
            unlocked: false,
            log: vec![],
        }
    }

    fn answer(&mut self, request: Request) -> Reply {
        self.log.push(request);
        match request {
            Request::QueryId => Reply::Id(self.id),
            Request::Unlock { key } => {
                self.unlocked = key == self.right;
                Reply::Done
            }
            Request::FinishProbe { .. } if !self.unlocked => Reply::Unanswered {
                before: OpticalProgress::default(),
                after: OpticalProgress::default(),
            },
            Request::ReadMemory { .. } => Reply::Data(vec![0; 16]),
            Request::Resynchronize => {
                self.unlocked = false;
                Reply::Done
            }
            _ => Reply::Done,
        }
    }
}

fn run(appliance: &mut Appliance, mut trial: Trial) -> State {
    loop {
        let reply = appliance.answer(trial.request());
        match trial.supply(reply) {
            TrialStep::Do(next) => trial = next,
            TrialStep::Over(state) => return state,
        }
    }
}

fn step(appliance: &mut Appliance, state: State, list: &[ReadKeyCandidate]) -> State {
    match autonomous_scan_step(state, list) {
        TrialStep::Do(trial) => run(appliance, trial),
        TrialStep::Over(state) => state,
    }
}

#[test]
fn scan_finds_the_key() {
    let list = keys(&[9, 3, 700]);
    let mut appliance = Appliance::new(410, 6);
    let mut state = State::start(410, 2, 20, 40, 500).unwrap();
    let mut steps = 0;
    while state.phase == Phase::Running {
        state = step(&mut appliance, state, &list);
        steps += 1;
    }
    assert_eq!(state.phase, Phase::Found);
    assert_eq!(state.found, Some(6));
    // The two known keys of the range come first, then 2, 4 and 5; 3 is skipped.
    assert_eq!(state.known_mask, 0b11);
    assert_eq!(state.tested, 5);
    assert_eq!(steps, 6);
    let tried: Vec<u16> = appliance
        .log
        .iter()
        .filter_map(|r| match r {
            Request::Unlock { key } => Some(*key),
            _ => None,
        })
        .collect();
    // Silence is observed twice, a hit is confirmed twice.
    assert_eq!(tried, [9, 9, 3, 3, 2, 2, 4, 4, 5, 5, 6, 6, 6]);
}

#[test]
fn scan_ends_when_the_range_is_exhausted() {
    let list = keys(&[4]);
    let mut appliance = Appliance::new(410, 1000);
    let mut state = State::start(410, 3, 5, 40, 500).unwrap();
    while state.phase == Phase::Running {
        state = step(&mut appliance, state, &list);
    }
    assert_eq!(state.phase, Phase::Done);
    assert_eq!((state.next, state.tested, state.known_mask), (6, 3, 1));
}

#[test]
fn candidate_is_tried_in_this_order() {
    let mut appliance = Appliance::new(410, 7);
    let state = State::start(410, 7, 7, 45, 500).unwrap();
    let found = step(&mut appliance, state, &[]);
    assert_eq!(found.found, Some(7));
    let read = Request::ReadMemory {
        address: 0,
        length: 16,
        timeout_ms: DEVICE_TIMEOUT_MS,
    };
    let confirmation = [
        Request::Resynchronize,
        Request::QueryId,
        Request::Unlock { key: 7 },
        Request::BeginProbe,
        Request::FinishProbe { timeout_ms: 1000 },
        read,
    ];
    let mut expected = vec![
        Request::QueryId,
        Request::Unlock { key: 7 },
        Request::BeginProbe,
        Request::FinishProbe { timeout_ms: 45 },
    ];
    expected.extend(confirmation);
    expected.extend(confirmation);
    assert_eq!(appliance.log, expected);
}

#[test]
fn changed_appliance_pauses_the_scan() {
    let state = State::start(410, 0, 9, 40, 500).unwrap();
    let mut other = Appliance::new(498, 3);
    let paused = step(&mut other, state, &[]);
    assert_eq!(
        paused,
        State {
            phase: Phase::Paused,
            errors: 1,
            ..state
        }
    );
    assert_eq!(other.log, [Request::QueryId, Request::Resynchronize]);
}

#[test]
fn failures_raise_the_timeout() {
    let state = State::start(410, 0, 9, 40, 500).unwrap();
    let TrialStep::Do(trial) = autonomous_scan_step(state, &[]) else {
        panic!("a candidate is left");
    };
    // A partial answer within the probe is no silence.
    let TrialStep::Do(trial) = trial.supply(Reply::Id(410)) else {
        panic!("the trial goes on");
    };
    let TrialStep::Do(trial) = trial.supply(Reply::Done) else {
        panic!("the trial goes on");
    };
    let TrialStep::Do(trial) = trial.supply(Reply::Done) else {
        panic!("the trial goes on");
    };
    assert_eq!(trial.request(), Request::FinishProbe { timeout_ms: 40 });
    let TrialStep::Do(trial) = trial.supply(Reply::Unanswered {
        before: OpticalProgress { tx: 4, rx: 2 },
        after: OpticalProgress { tx: 4, rx: 3 },
    }) else {
        panic!("the line is regained");
    };
    assert_eq!(trial.request(), Request::Resynchronize);
    // Whether the line is regained does not matter.
    let TrialStep::Over(after) = trial.supply(Reply::Failed(vec![])) else {
        panic!("the trial is over");
    };
    let mut expected = state;
    expected.failure();
    assert_eq!(after, expected);
    assert_eq!((after.timeout_ms, after.errors, after.increases), (45, 1, 1));
}

#[test]
fn only_the_first_entries_are_tracked() {
    let many: Vec<u16> = (0..40).collect();
    let list = keys(&many);
    let mut state = State::start(410, 0, 39, 40, 500).unwrap();
    for i in 0..TRACKED {
        let (same, candidate) = choose_candidate(state, &list);
        assert_eq!(same, state);
        assert_eq!(candidate, Some((i as u16, Some(i as u8))));
        state.known_mask |= 1 << i;
    }
    let (advanced, candidate) = choose_candidate(state, &list);
    assert_eq!(candidate, Some((32, None)));
    assert_eq!(advanced.next, 32);
}

#[test]
fn last_key_is_tried() {
    let mut state = State::start(410, 0xffff, 0xffff, 40, 500).unwrap();
    let mut appliance = Appliance::new(410, 0);
    state = step(&mut appliance, state, &[]);
    assert_eq!((state.next, state.phase), (0x10000, Phase::Running));
    state = step(&mut appliance, state, &[]);
    assert_eq!(state.phase, Phase::Done);
}

#[test]
fn status_is_reported() {
    let mut s = State::start(410, 0x10, 0xfff, 40, 500).unwrap();
    s.next = 0x123;
    s.timeout_ms = 65;
    s.tested = 275;
    s.errors = 6;
    s.increases = 5;
    let line = "OK scan_version=3 state=running software_id=410 start=0x0010 end=0x0fff \
                next=0x00123 timeout_ms=65 minimum_ms=40 maximum_ms=500 tested=275 errors=6 \
                increases=5";
    assert_eq!(
        scan_status(s, NO_CANDIDATE).as_bytes(),
        format!("{line}\n").as_bytes()
    );
    assert_eq!(
        scan_status(s, 0x123).as_bytes(),
        format!("{line} current=0x0123\n").as_bytes()
    );
    s.found = Some(0xabc);
    assert_eq!(
        scan_status(s, 0xffff).as_bytes(),
        format!("{line} current=0xffff read_key=0x0abc confirmed=2\n").as_bytes()
    );
}

#[test]
fn job_without_storage_is_an_error() {
    let mut job = ScanJob::unavailable();
    assert_eq!(job.state.phase, Phase::StorageError);
    assert!(job.save().is_none());
    let journal = Journal {
        sequence: 7,
        slot: 9,
    };
    let state = State::start(410, 0, 9, 40, 500).unwrap();
    job = ScanJob::opened(journal, state);
    assert!(job.save().is_some());
    let next = Journal {
        sequence: 8,
        slot: 10,
    };
    job.saved(Some(next), true);
    assert_eq!((job.journal, job.state), (Some(next), state));
    job.saved(Some(journal), false);
    assert_eq!(job.state.phase, Phase::StorageError);
    assert_eq!(job.journal, Some(journal));
}

#[test]
fn registry_is_read() {
    let csv = b"key,software_ids,source\r\n0x2b2c,498,device/id498.rs\n0xFFFF,,report\n";
    let rows = parse_registry(csv).unwrap();
    let rows: Vec<(u16, &[u8], &[u8])> = rows
        .iter()
        .map(|r| (r.key, r.software_ids.as_slice(), r.source.as_slice()))
        .collect();
    assert_eq!(
        rows,
        [
            (0x2b2c, &b"498"[..], &b"device/id498.rs"[..]),
            (0xffff, b"", b"report")
        ]
    );
    assert!(parse_registry(b"").unwrap().is_empty());
    assert!(parse_registry(b"key,software_ids,source").unwrap().is_empty());
}

#[test]
fn registry_errors() {
    for (row, error) in [
        ("0x0001,1", RegistryError::Columns),
        ("0x0001,1,a,b", RegistryError::Columns),
        ("", RegistryError::Columns),
        ("1234,1,a", RegistryError::Prefix),
        ("0X1234,1,a", RegistryError::Prefix),
        ("0x,1,a", RegistryError::Key),
        ("0x10000,1,a", RegistryError::Key),
        ("0xzz,1,a", RegistryError::Key),
        ("0x0007,1,again", RegistryError::Duplicate),
    ] {
        let csv = format!("head\n0x7,1,a\n{row}\n0x8,1,a\n");
        assert_eq!(parse_registry(csv.as_bytes()).unwrap_err(), error, "{row}");
    }
}

#[test]
fn failed_candidate_is_warned_about() {
    let state = State::start(410, 0x2b2c, 0x2b2c, 40, 500).unwrap();
    let failed = || Reply::Failed(b"no echo".to_vec());
    let timed_out = || Reply::TimedOut(b"TimeoutError".to_vec());
    let unanswered = |rx| Reply::Unanswered {
        before: OpticalProgress { tx: 4, rx: 2 },
        after: OpticalProgress { tx: 4, rx },
    };
    let warn = |stage: TrialStage, reply: Reply| {
        let trial = Trial {
            state,
            key: 0x2b2c,
            known: None,
            stage,
        };
        let warning = trial.warning(&reply);
        let regains = matches!(
            trial.supply(reply),
            TrialStep::Do(next) if next.stage == TrialStage::Recover
        );
        assert_eq!(warning.is_some(), regains);
        warning.map(|line| String::from_utf8(line).unwrap())
    };
    let some = |why: &str| Some(format!("Autonomous key 0x2b2c: {why}"));
    let attempt = Round::FirstAttempt;
    let confirmation = Round::SecondConfirmation;

    assert_eq!(warn(TrialStage::Query(attempt), Reply::Id(410)), None);
    assert_eq!(
        warn(TrialStage::Query(attempt), Reply::Id(498)),
        some("software ID changed")
    );
    assert_eq!(
        warn(TrialStage::Query(attempt), timed_out()),
        some("diagnostic timeout")
    );
    assert_eq!(
        warn(TrialStage::Unlock(attempt), timed_out()),
        some("diagnostic timeout")
    );
    assert_eq!(warn(TrialStage::Unlock(attempt), failed()), some("no echo"));
    assert_eq!(
        warn(TrialStage::Begin(attempt), timed_out()),
        some("read request/echo timeout")
    );
    assert_eq!(warn(TrialStage::Begin(attempt), Reply::Done), None);
    assert_eq!(warn(TrialStage::Finish(attempt), unanswered(2)), None);
    assert_eq!(
        warn(TrialStage::Finish(confirmation), unanswered(2)),
        some("candidate did not confirm")
    );
    assert_eq!(
        warn(TrialStage::Finish(attempt), unanswered(3)),
        some("partial read/echo timeout")
    );
    assert_eq!(
        warn(TrialStage::Finish(attempt), failed()),
        some("read transport/protocol error: no echo")
    );
    assert_eq!(warn(TrialStage::Drain(attempt), failed()), some("no echo"));
    assert_eq!(warn(TrialStage::Relock(confirmation), failed()), some("no echo"));
    assert_eq!(
        warn(TrialStage::Read(confirmation), timed_out()),
        some("diagnostic timeout")
    );
    assert_eq!(warn(TrialStage::Recover, failed()), None);
}
