use freemdu_home::link::{Reply, Request};
use freemdu_home::trace::{id410_trace_is_volatile, Id410Trace, TraceStage, TraceStep, Tracing};

fn lines(list: &[Vec<u8>]) -> Vec<String> {
    list.iter()
        .map(|line| String::from_utf8(line.clone()).unwrap())
        .collect()
}

fn memory(changes: &[(usize, u8)]) -> [u8; 1024] {
    let mut m = [0; 1024];
    for (at, value) in changes {
        m[*at] = *value;
    }
    m
}

#[test]
fn volatility_needs_history() {
    assert!(!id410_trace_is_volatile(3, 3));
    assert!(!id410_trace_is_volatile(1, 4));
    assert!(id410_trace_is_volatile(2, 4));
    assert!(id410_trace_is_volatile(2, 8));
    assert!(!id410_trace_is_volatile(2, 9));
    assert!(id410_trace_is_volatile(255, 255));
    assert!(id410_trace_is_volatile(64, 255));
    assert!(!id410_trace_is_volatile(63, 255));
}

#[test]
fn first_sweep_is_the_baseline() {
    let mut trace = Id410Trace::new();
    let report = trace.sweep(&memory(&[(0xcd, 3), (0xa2, 0x1f), (5, 9)]));
    assert_eq!(
        lines(&report.lines),
        ["ID410 TRACE baseline captured: state=0x03 phase=0x1f"]
    );
    assert!(report.verbose.is_empty());
    assert!(trace.initialized);
    assert_eq!((trace.last_state, trace.last_phase), (3, 0x1f));
    assert_eq!(trace.observed_sweeps, 0);
    assert_eq!(trace.shadow[5], 9);
}

#[test]
fn unchanged_memory_is_silent() {
    let mut trace = Id410Trace::new();
    let m = memory(&[(5, 9)]);
    trace.sweep(&m);
    let report = trace.sweep(&m);
    assert!(report.lines.is_empty());
    assert!(report.verbose.is_empty());
    assert_eq!(trace.observed_sweeps, 1);
    assert!(trace.change_counts.iter().all(|c| *c == 0));
}

#[test]
fn changes_are_reported() {
    let mut trace = Id410Trace::new();
    trace.sweep(&memory(&[]));
    let report = trace.sweep(&memory(&[(0x3ff, 0xab), (7, 1)]));
    assert_eq!(
        lines(&report.lines),
        [
            "ID410 TRACE 0x0007 00->01",
            "ID410 TRACE 0x03ff 00->ab",
            "ID410 TRACE sweep: 2 byte(s) changed (2 stable, 0 volatile), state=0x00, phase=0x00",
        ]
    );
    assert_eq!(trace.change_counts[7], 1);
    assert_eq!(trace.snapshot_seq, 0);
}

#[test]
fn transitions_take_a_snapshot() {
    let mut trace = Id410Trace::new();
    trace.sweep(&memory(&[]));
    for n in 1..=4 {
        trace.sweep(&memory(&[(7, n)]));
    }
    let m = memory(&[(7, 9), (0xcd, 2), (0xa2, 0x11)]);
    let report = trace.sweep(&m);
    let mut expected: Vec<String> = [
        "ID410 TRACE 0x0007 04->09",
        "ID410 TRACE 0x00a2 00->11",
        "ID410 STABLE 0x00a2 00->11 history=0/4",
        "ID410 TRACE 0x00cd 00->02",
        "ID410 STABLE 0x00cd 00->02 history=0/4",
        "ID410 TRACE sweep: 3 byte(s) changed (2 stable, 1 volatile), state=0x02, phase=0x11",
        "ID410 STABLE transition seq=1: 2 stable change(s), 1 volatile change(s) suppressed",
        "ID410 SNAPSHOT BEGIN seq=1 state=00->02 phase=00->11",
    ]
    .map(String::from)
    .to_vec();
    for offset in (0..1024).step_by(16) {
        let data = &m[offset..offset + 16];
        expected.push(format!("ID410 SNAPSHOT seq=1 {offset:04x} {data:02x?}"));
    }
    expected.push("ID410 SNAPSHOT END seq=1".into());
    assert_eq!(lines(&report.lines), expected);
    assert_eq!((trace.last_state, trace.last_phase), (2, 0x11));
}

#[test]
fn noisy_addresses_are_noted_once() {
    let mut trace = Id410Trace::new();
    trace.sweep(&memory(&[]));
    let mut notes = vec![];
    for n in 1..=6 {
        notes.push(lines(&trace.sweep(&memory(&[(7, n)])).verbose));
    }
    assert_eq!(notes.concat(), ["ID410 TRACE volatile 0x0007: 4/4 sweeps changed"]);
    assert_eq!(notes[3].len(), 1);
}

#[test]
fn history_decays() {
    let mut trace = Id410Trace::new();
    trace.sweep(&memory(&[]));
    for n in 0..255_u32 {
        trace.sweep(&memory(&[(7, (n % 2 + 1) as u8)]));
    }
    assert_eq!(trace.observed_sweeps, 255);
    assert_eq!(trace.change_counts[7], 255);
    trace.sweep(&memory(&[(7, 9)]));
    assert_eq!(trace.observed_sweeps, 128);
    assert_eq!(trace.change_counts[7], 128);
}

/// Runs a sweep over the link; gives the operations and how it came out.
fn run(trace: &mut Id410Trace, ids: &[u16], failing: Option<usize>) -> (Vec<Request>, TraceStep) {
    let mut log = vec![];
    let mut asked = 0;
    let Some(mut tracing) = trace.trace_id410_memory() else {
        panic!("the trace is enabled");
    };
    loop {
        let request = tracing.request();
        let reply = if failing == Some(log.len()) {
            Reply::TimedOut(b"T".to_vec())
        } else {
            match request {
                Request::QueryId => {
                    asked += 1;
                    Reply::Id(ids[asked - 1])
                }
                Request::ReadMemory { address, .. } => {
                    Reply::Data(vec![(address / 16) as u8; 16])
                }
                _ => Reply::Done,
            }
        };
        log.push(request);
        match trace.supply(tracing, reply) {
            TraceStep::Do(next) => tracing = next,
            step => return (log, step),
        }
    }
}

#[test]
fn memory_is_swept_over_the_link() {
    let mut trace = Id410Trace::new();
    let (log, step) = run(&mut trace, &[410, 410], None);
    assert!(matches!(step, TraceStep::Swept(_)));
    assert_eq!(
        log[..4],
        [
            Request::QueryId,
            Request::Pause { ms: 250 },
            Request::QueryId,
            Request::Unlock { key: 0x43ea },
        ]
    );
    assert_eq!(log.len(), 4 + 2 * 64);
    for (i, pair) in log[4..].chunks(2).enumerate() {
        assert_eq!(
            pair,
            [
                Request::ReadMemory {
                    address: 16 * i as u32,
                    length: 16,
                    timeout_ms: 2000
                },
                Request::Pause { ms: 5 }
            ]
        );
    }
    for i in 0..1024 {
        assert_eq!(trace.shadow[i], (i / 16) as u8);
    }
    // The device is not identified again.
    let (log, step) = run(&mut trace, &[410], None);
    assert_eq!(log[0], Request::Pause { ms: 250 });
    match step {
        TraceStep::Swept(report) => assert!(report.lines.is_empty()),
        _ => panic!("the memory is swept"),
    }
}

#[test]
fn other_appliances_are_not_traced() {
    let mut trace = Id410Trace::new();
    let (log, step) = run(&mut trace, &[498], None);
    assert!(matches!(step, TraceStep::Disabled));
    assert_eq!(log.len(), 1);
    assert!(trace.trace_id410_memory().is_none());
    // The appliance is exchanged between two queries.
    let mut trace = Id410Trace::new();
    let (_, step) = run(&mut trace, &[410, 498], None);
    assert!(matches!(step, TraceStep::Failed));
    assert!(trace.trace_id410_memory().is_none());
}

#[test]
fn failed_sweep_keeps_the_pending_transition() {
    let mut trace = Id410Trace::new();
    run(&mut trace, &[410, 410], None);
    trace.last_state = 0x77;
    trace.change_counts[3] = 9;
    // The query, the unlocking, and the first, a middle and the last read.
    for at in [1, 2, 3, 57, 129] {
        let before = (trace.shadow, trace.change_counts, trace.last_state);
        let (log, step) = run(&mut trace, &[410], Some(at));
        assert_eq!(log.len(), at + 1);
        assert!(matches!(step, TraceStep::Failed));
        assert_eq!(
            before,
            (trace.shadow, trace.change_counts, trace.last_state)
        );
    }
    match run(&mut trace, &[410], None).1 {
        TraceStep::Swept(report) => assert!(lines(&report.lines)
            .iter()
            .any(|line| line.starts_with("ID410 SNAPSHOT BEGIN seq=1 state=77->"))),
        _ => panic!("the memory is swept"),
    }
}

#[test]
fn failed_sweep_tells_why() {
    let failed = |text: &str| Reply::Failed(text.as_bytes().to_vec());
    let timed_out = || Reply::TimedOut(b"TimeoutError".to_vec());
    let why = |stage: TraceStage, filled: usize, reply: Reply| {
        let tracing = Tracing {
            stage,
            filled,
            current: [0; 1024],
        };
        let mut trace = Id410Trace::new();
        let text = tracing.failure(&reply);
        let step = trace.supply(tracing, reply);
        assert_eq!(text.is_some(), matches!(step, TraceStep::Failed));
        text.map(|text| String::from_utf8(text).unwrap())
    };
    let some = |text: &str| Some(text.to_string());

    assert_eq!(why(TraceStage::Identify, 0, Reply::Id(410)), None);
    assert_eq!(why(TraceStage::Identify, 0, Reply::Id(498)), None);
    assert_eq!(
        why(TraceStage::Identify, 0, timed_out()),
        some("software-ID query timed out: TimeoutError")
    );
    assert_eq!(
        why(TraceStage::Identify, 0, failed("no echo")),
        some("no echo")
    );
    assert_eq!(why(TraceStage::Settle, 0, Reply::Done), None);
    assert_eq!(why(TraceStage::Query, 0, Reply::Id(410)), None);
    assert_eq!(
        why(TraceStage::Query, 0, Reply::Id(498)),
        some("trace handshake unexpectedly returned software ID 498")
    );
    assert_eq!(
        why(TraceStage::Query, 0, timed_out()),
        some("trace software-ID query timed out: TimeoutError")
    );
    assert_eq!(why(TraceStage::Unlock, 0, Reply::Done), None);
    assert_eq!(
        why(TraceStage::Unlock, 0, timed_out()),
        some("trace read unlock timed out: TimeoutError")
    );
    assert_eq!(
        why(TraceStage::Unlock, 0, failed("no echo")),
        some("no echo")
    );
    assert_eq!(why(TraceStage::Read, 0, Reply::Data(vec![0; 16])), None);
    assert_eq!(
        why(TraceStage::Read, 0x3f0, timed_out()),
        some("RAM read 0x03f0 timed out: TimeoutError")
    );
    assert_eq!(
        why(TraceStage::Read, 0x10, failed("no echo")),
        some("RAM read 0x0010 failed: no echo")
    );
    assert_eq!(why(TraceStage::Rest, 0x10, Reply::Done), None);
}

#[test]
fn trace_is_announced_once_the_appliance_is_identified() {
    let tracing = Id410Trace::new().trace_id410_memory().unwrap();
    let announce = |reply: Reply| {
        let line = tracing.announcement(&reply, 15)?;
        Some(String::from_utf8(line).unwrap())
    };
    assert_eq!(
        announce(Reply::Id(410)).unwrap(),
        "ID410 TRACE enabled: read-only 0x0000..0x03ff sweep every 15 s"
    );
    assert_eq!(
        announce(Reply::Id(498)).unwrap(),
        "ID410 TRACE disabled: connected appliance has software ID 498"
    );
    assert_eq!(announce(Reply::Done), None);
    let later = Tracing {
        stage: TraceStage::Query,
        ..tracing
    };
    assert_eq!(later.announcement(&Reply::Id(410), 15), None);
}
