use freemdu_home::diagnostics::command::DiagnosticCommand;
use freemdu_home::diagnostics::engine::{
    diagnostic_error, execute_diagnostic_command, EngineReply, EngineRequest, EngineStep,
};
use freemdu_home::keyscan::job::{scan_status, ScanJob, NO_CANDIDATE};
use freemdu_home::keyscan::journal::Journal;
use freemdu_home::keyscan::{Phase, State};
use freemdu_home::link::{Reply, Request, DEVICE_TIMEOUT_MS};

const JOURNAL: Journal = Journal {
    sequence: 4,
    slot: 40,
};

const NEXT: Journal = Journal {
    sequence: 5,
    slot: 41,
};

fn idle() -> ScanJob {
    ScanJob::opened(JOURNAL, State::empty())
}

fn job(phase: Phase) -> ScanJob {
    let mut state = State::start(410, 1, 9, 40, 500).unwrap();
    state.phase = phase;
    ScanJob::opened(JOURNAL, state)
}

/// Executes a command against a scripted link, and checks what was asked.
fn execute(
    command: DiagnosticCommand,
    job: ScanJob,
    script: Vec<(EngineRequest, EngineReply)>,
) -> (ScanJob, String) {
    let mut step = execute_diagnostic_command(command, job, false, NO_CANDIDATE);
    for (expected, reply) in script {
        match step {
            EngineStep::Do(engine) => {
                assert_eq!(engine.request(), expected);
                step = engine.supply(reply, NO_CANDIDATE);
            }
            EngineStep::Answer(_, response) => {
                panic!("answered with {:?}", String::from_utf8_lossy(response.as_bytes()))
            }
        }
    }
    match step {
        EngineStep::Answer(job, response) => (
            job,
            String::from_utf8(response.as_bytes().to_vec()).unwrap(),
        ),
        EngineStep::Do(engine) => panic!("asks for {:?}", engine.request()),
    }
}

fn link(request: Request, reply: Reply) -> (EngineRequest, EngineReply) {
    (EngineRequest::Link(request), EngineReply::Link(reply))
}

fn saved() -> (EngineRequest, EngineReply) {
    (
        EngineRequest::Save,
        EngineReply::Saved {
            journal: Some(NEXT),
            success: true,
        },
    )
}

fn status(state: State) -> String {
    String::from_utf8(scan_status(state, NO_CANDIDATE).as_bytes().to_vec()).unwrap()
}

fn start(first: u16, last: u16) -> DiagnosticCommand {
    DiagnosticCommand::ScanStart {
        start: first,
        end: last,
        timeout_ms: 40,
        maximum_ms: 500,
    }
}

#[test]
fn queries_are_answered() {
    let ask = |reply| {
        execute(
            DiagnosticCommand::QueryId,
            idle(),
            vec![link(Request::QueryId, reply)],
        )
        .1
    };
    assert_eq!(ask(Reply::Id(410)), "OK software_id=410 hex=0x019a\n");
    assert_eq!(
        ask(Reply::Failed(b"Checksum".to_vec())),
        "ERR query_software_id Checksum\n"
    );
    assert_eq!(
        ask(Reply::TimedOut(b"TimeoutError".to_vec())),
        "ERR query_software_id timeout TimeoutError\n"
    );
    let ask = |reply| {
        execute(
            DiagnosticCommand::QueryMaxBaud,
            idle(),
            vec![link(Request::QueryMaxBaud, reply)],
        )
        .1
    };
    assert_eq!(ask(Reply::Baud(9600)), "OK max_baud=9600\n");
    assert_eq!(
        ask(Reply::Failed(b"Checksum".to_vec())),
        "ERR query_max_baud_rate Checksum\n"
    );
    assert_eq!(
        ask(Reply::TimedOut(b"TimeoutError".to_vec())),
        "ERR query_max_baud_rate timeout TimeoutError\n"
    );
}

#[test]
fn single_reads() {
    let read = Request::ReadMemory {
        address: 0x1234,
        length: 16,
        timeout_ms: DEVICE_TIMEOUT_MS,
    };
    let command = DiagnosticCommand::ReadMemory16 {
        key: 7,
        address: 0x1234,
    };
    let run = |reply| {
        execute(
            command,
            idle(),
            vec![
                link(Request::QueryId, Reply::Id(1)),
                link(Request::Unlock { key: 7 }, Reply::Done),
                link(read, reply),
            ],
        )
        .1
    };
    assert_eq!(
        run(Reply::Data((0..16).collect())),
        "OK kind=memory address=0x00001234 data=000102030405060708090a0b0c0d0e0f\n"
    );
    assert_eq!(run(Reply::Failed(b"X".to_vec())), "ERR read_memory X\n");
    assert_eq!(
        run(Reply::TimedOut(b"T".to_vec())),
        "ERR read_memory timeout T\n"
    );
    // Preparing the access reports no cause.
    let prepare = |script| execute(command, idle(), script).1;
    assert_eq!(
        prepare(vec![link(Request::QueryId, Reply::Failed(b"X".to_vec()))]),
        "ERR query_software_id\n"
    );
    assert_eq!(
        prepare(vec![link(Request::QueryId, Reply::TimedOut(b"X".to_vec()))]),
        "ERR query_software_id timeout\n"
    );
    assert_eq!(
        prepare(vec![
            link(Request::QueryId, Reply::Id(1)),
            link(Request::Unlock { key: 7 }, Reply::Failed(vec![]))
        ]),
        "ERR unlock_read_access\n"
    );
    assert_eq!(
        prepare(vec![
            link(Request::QueryId, Reply::Id(1)),
            link(Request::Unlock { key: 7 }, Reply::TimedOut(vec![]))
        ]),
        "ERR unlock_read_access timeout\n"
    );
    for (command, length) in [
        (
            DiagnosticCommand::ReadEeprom1 {
                key: 7,
                address: 0xab,
            },
            1_u16,
        ),
        (
            DiagnosticCommand::ReadEeprom16 {
                key: 7,
                address: 0xab,
            },
            16,
        ),
    ] {
        let run = |reply| {
            execute(
                command,
                idle(),
                vec![
                    link(Request::QueryId, Reply::Id(1)),
                    link(Request::Unlock { key: 7 }, Reply::Done),
                    link(
                        Request::ReadEeprom {
                            address: 0xab,
                            length,
                        },
                        reply,
                    ),
                ],
            )
            .1
        };
        assert_eq!(
            run(Reply::Data(vec![0xf0; length as usize])),
            format!(
                "OK kind=eeprom address=0x00ab data={}\n",
                "f0".repeat(length as usize)
            )
        );
        assert_eq!(run(Reply::Failed(b"X".to_vec())), "ERR read_eeprom X\n");
        assert_eq!(
            run(Reply::TimedOut(b"T".to_vec())),
            "ERR read_eeprom timeout T\n"
        );
    }
}

/// The operations of a read of 128 bytes, all answered.
fn blocks(
    lead: Vec<(EngineRequest, EngineReply)>,
    read: impl Fn(u32) -> Request,
) -> Vec<(EngineRequest, EngineReply)> {
    let mut script = lead;
    for block in 0..8_u32 {
        if block % 4 == 0 {
            script.push(link(Request::QueryId, Reply::Id(498)));
            script.push(link(Request::Unlock { key: 7 }, Reply::Done));
        }
        script.push(link(read(block), Reply::Data(vec![block as u8; 16])));
        script.push(link(Request::Pause { ms: 5 }, Reply::Done));
    }
    script
}

fn block_data() -> String {
    (0..8).map(|b| format!("{b:02x}").repeat(16)).collect()
}

#[test]
fn memory_blocks() {
    let command = DiagnosticCommand::ReadMemory128 {
        key: 7,
        address: 0x200,
    };
    let read = |block: u32| Request::ReadMemory {
        address: 0x200 + 16 * block,
        length: 16,
        timeout_ms: DEVICE_TIMEOUT_MS,
    };
    assert_eq!(
        execute(command, idle(), blocks(vec![], read)).1,
        format!("OK kind=memory address=0x00000200 data={}\n", block_data())
    );
    let mut script = blocks(vec![], read);
    script.truncate(4);
    script.push(link(read(1), Reply::TimedOut(b"T".to_vec())));
    assert_eq!(
        execute(command, idle(), script).1,
        "ERR read_memory timeout address=0x00000210 T\n"
    );
    let mut script = blocks(vec![], read);
    script.truncate(2);
    script.push(link(read(0), Reply::Failed(b"X".to_vec())));
    assert_eq!(
        execute(command, idle(), script).1,
        "ERR read_memory address=0x00000200 X\n"
    );
}

#[test]
fn eeprom_blocks_follow_the_address_unit() {
    let command = DiagnosticCommand::ReadEeprom128 {
        key: 7,
        address: 0x40,
    };
    for (id, step) in [(498, 16), (410, 8)] {
        let read = |block: u32| Request::ReadEeprom {
            address: (0x40 + step * block) as u16,
            length: 16,
        };
        let lead = || vec![link(Request::QueryId, Reply::Id(id))];
        assert_eq!(
            execute(command, idle(), blocks(lead(), read)).1,
            format!("OK kind=eeprom address=0x0040 data={}\n", block_data())
        );
        let mut script = blocks(lead(), read);
        script.truncate(5);
        script.push(link(read(1), Reply::Failed(b"X".to_vec())));
        assert_eq!(
            execute(command, idle(), script).1,
            format!("ERR read_eeprom address=0x{:04x} X\n", 0x40 + step)
        );
        let mut script = blocks(lead(), read);
        script.truncate(5);
        script.push(link(read(1), Reply::TimedOut(b"T".to_vec())));
        assert_eq!(
            execute(command, idle(), script).1,
            format!("ERR read_eeprom timeout address=0x{:04x} T\n", 0x40 + step)
        );
    }
    assert_eq!(
        execute(
            command,
            idle(),
            vec![link(Request::QueryId, Reply::TimedOut(vec![]))]
        )
        .1,
        "ERR query_software_id failed\n"
    );
}

#[test]
fn running_job_keeps_the_port() {
    for command in [
        DiagnosticCommand::QueryId,
        DiagnosticCommand::PartitionInstall,
        DiagnosticCommand::ReadEeprom1 { key: 1, address: 2 },
    ] {
        let (after, answer) = execute(command, job(Phase::Running), vec![]);
        assert_eq!(answer, "ERR scan_busy\n");
        assert_eq!(after, job(Phase::Running));
    }
    let (after, answer) = execute(DiagnosticCommand::ScanResume, job(Phase::Running), vec![]);
    assert_eq!(answer, status(after.state));
    assert_eq!(after, job(Phase::Running));
}

#[test]
fn job_is_paused_and_resumed() {
    let (after, answer) = execute(
        DiagnosticCommand::ScanPause,
        job(Phase::Running),
        vec![saved()],
    );
    assert_eq!(after.state.phase, Phase::Paused);
    assert_eq!(after.journal, Some(NEXT));
    assert_eq!(answer, status(after.state));
    // Pausing anything else changes nothing.
    let (same, _) = execute(DiagnosticCommand::ScanPause, job(Phase::Found), vec![]);
    assert_eq!(same, job(Phase::Found));
    let (after, answer) = execute(
        DiagnosticCommand::ScanResume,
        job(Phase::Paused),
        vec![link(Request::Resynchronize, Reply::Done), saved()],
    );
    assert_eq!(after.state.phase, Phase::Running);
    assert_eq!(answer, status(after.state));
    let (same, answer) = execute(
        DiagnosticCommand::ScanResume,
        job(Phase::Paused),
        vec![link(Request::Resynchronize, Reply::Failed(vec![]))],
    );
    assert_eq!(answer, "ERR noisy_line\n");
    assert_eq!(same, job(Phase::Paused));
}

#[test]
fn unsaved_change_is_a_storage_error() {
    let (after, answer) = execute(
        DiagnosticCommand::ScanReset,
        job(Phase::Paused),
        vec![(
            EngineRequest::Save,
            EngineReply::Saved {
                journal: Some(JOURNAL),
                success: false,
            },
        )],
    );
    assert_eq!(after.state.phase, Phase::StorageError);
    assert_eq!(after.state.start, 0);
    assert_eq!(answer, status(after.state));
}

#[test]
fn job_is_started() {
    let (after, answer) = execute(
        start(1, 9),
        idle(),
        vec![
            link(Request::Resynchronize, Reply::Done),
            link(Request::QueryId, Reply::Id(410)),
            saved(),
        ],
    );
    assert_eq!(after.state, State::start(410, 1, 9, 40, 500).unwrap());
    assert_eq!(answer, status(after.state));
    // Again, after a lost answer.
    let (same, answer) = execute(start(1, 9), after, vec![]);
    assert_eq!(same, after);
    assert_eq!(answer, status(after.state));
    let (same, answer) = execute(start(1, 8), after, vec![]);
    assert_eq!(same, after);
    assert_eq!(answer, "ERR different_scan use_scan_reset_first\n");
    // A paused job goes on.
    let (resumed, _) = execute(
        start(1, 9),
        job(Phase::Paused),
        vec![link(Request::Resynchronize, Reply::Done), saved()],
    );
    assert_eq!(resumed.state.phase, Phase::Running);
}

#[test]
fn start_fails() {
    let (_, answer) = execute(start(1, 9), ScanJob::unavailable(), vec![]);
    assert_eq!(answer, "ERR scan_storage_unavailable\n");
    let (same, answer) = execute(
        start(1, 9),
        idle(),
        vec![link(Request::Resynchronize, Reply::TimedOut(vec![]))],
    );
    assert_eq!(answer, "ERR noisy_line\n");
    assert_eq!(same, idle());
    let (same, answer) = execute(
        start(1, 9),
        idle(),
        vec![
            link(Request::Resynchronize, Reply::Done),
            link(Request::QueryId, Reply::Failed(b"X".to_vec())),
        ],
    );
    assert_eq!(answer, "ERR query_software_id timeout\n");
    assert_eq!(same, idle());
    let (_, answer) = execute(
        start(9, 1),
        idle(),
        vec![
            link(Request::Resynchronize, Reply::Done),
            link(Request::QueryId, Reply::Id(1)),
        ],
    );
    assert_eq!(answer, "ERR invalid_scan_arguments\n");
}

#[test]
fn partition_is_installed() {
    let opened = ScanJob::opened(NEXT, State::empty());
    let (after, answer) = execute(
        DiagnosticCommand::PartitionInstall,
        ScanJob::unavailable(),
        vec![(EngineRequest::Install, EngineReply::Installed(opened))],
    );
    assert_eq!(after, opened);
    assert_eq!(answer, "OK partition=keyscan installed_and_verified\n");
    let (same, answer) = execute(
        DiagnosticCommand::PartitionInstall,
        idle(),
        vec![(EngineRequest::Install, EngineReply::NotInstalled)],
    );
    assert_eq!(same, idle());
    assert_eq!(answer, "ERR partition_migration_failed see_usb_log\n");
    match execute_diagnostic_command(
        DiagnosticCommand::PartitionInstall,
        idle(),
        true,
        NO_CANDIDATE,
    ) {
        EngineStep::Answer(same, response) => {
            assert_eq!(same, idle());
            assert_eq!(
                response.as_bytes(),
                b"ERR busy pause_scan_and_finish_ota_first\n"
            );
        }
        EngineStep::Do(_) => panic!("an update is active"),
    }
}

#[test]
fn responses_end_at_their_capacity() {
    let long = "x".repeat(600);
    assert_eq!(diagnostic_error(&long).as_bytes(), &long.as_bytes()[..512]);
    assert_eq!(diagnostic_error("ERR").as_bytes(), b"ERR\n");
}

#[test]
fn long_reads_stay_in_their_address_space() {
    let memory = |address| DiagnosticCommand::ReadMemory128 { key: 1, address };
    let eeprom = |address| DiagnosticCommand::ReadEeprom128 { key: 1, address };
    assert!(memory(0xffff_ff8f).fits());
    assert!(!memory(0xffff_ff90).fits());
    assert!(eeprom(0xff8f).fits());
    assert!(!eeprom(0xff90).fits());
    assert!(DiagnosticCommand::QueryId.fits());
}
