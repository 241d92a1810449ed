//! Diagnostic commands: what each does to the stored job and asks of the appliance, and
//! what it answers.

use crate::buffers::response;
use crate::diagnostics::command::DiagnosticCommand;
use crate::diagnostics::engine::{address_text, begun, data_text};
use crate::diagnostics::engine::{EngineReply, EngineRequest, EngineView, Stage, StepView};
use crate::keyscan::job::{status_text, ScanJob};
use crate::keyscan::journal::Journal;
use crate::keyscan::{Phase, State};
use crate::link::{Reply, Request};
use crate::text::{decimal, hex, hex_bytes};
use vstd::prelude::*;
use vstd::string::*;
use vstd::utf8::*;

verus! {

/// The command is answered at once with this line, and the job is left alone.
pub open spec fn answers_line(step: StepView, job: ScanJob, message: &str) -> bool {
    step matches StepView::Answer(after, text) && after == job && text == response(
        message.spec_bytes() + "\n".spec_bytes(),
    )
}

/// The command is answered at once with the status of the job, which is left alone.
pub open spec fn answers_status(step: StepView, job: ScanJob, current: u32) -> bool {
    step matches StepView::Answer(after, text) && after == job && text == response(
        status_text(job.state, current),
    )
}

/// The command wants this operation first, with this job.
pub open spec fn wants(step: StepView, operation: EngineRequest, job: ScanJob) -> bool {
    step matches StepView::Do(e) && e.operation() == operation && e.job == job
}

/// The job, but for its phase.
pub open spec fn same_but_phase(a: ScanJob, b: ScanJob, phase: Phase) -> bool {
    &&& a.journal == b.journal
    &&& a.state == (State { phase, ..b.state })
}

// ---------------------------------------------------------------------------
// The stored job
// ---------------------------------------------------------------------------
/// A start with any other range or timing than those of the stored job is refused, and
/// the job is left as it is, whether it runs, is paused or is finished.
pub proof fn lemma_different_start_is_refused(
    job: ScanJob,
    start: u16,
    end: u16,
    timeout_ms: u16,
    maximum_ms: u16,
    ota_active: bool,
    current: u32,
)
    requires
        job.journal is Some,
        job.state.phase != Phase::Idle,
        start != job.state.start || end != job.state.end || timeout_ms != job.state.minimum_ms
            || maximum_ms != job.state.maximum_ms,
    ensures
        answers_line(
            begun(
                DiagnosticCommand::ScanStart { start, end, timeout_ms, maximum_ms },
                job,
                ota_active,
                current,
            ),
            job,
            "ERR different_scan use_scan_reset_first",
        ),
{
}

/// A start with the range and timing of the stored job gives back that job: it is
/// reported, or resumed where it is paused, after the line was regained.
pub proof fn lemma_same_start_gives_back_the_job(job: ScanJob, ota_active: bool, current: u32)
    requires
        job.journal is Some,
        job.state.phase != Phase::Idle,
    ensures
        ({
            let again = begun(
                DiagnosticCommand::ScanStart {
                    start: job.state.start,
                    end: job.state.end,
                    timeout_ms: job.state.minimum_ms,
                    maximum_ms: job.state.maximum_ms,
                },
                job,
                ota_active,
                current,
            );
            &&& job.state.phase == Phase::Paused ==> wants(
                again,
                EngineRequest::Link(Request::Resynchronize),
                job,
            ) && again == begun_like_resume(again, job, ota_active, current)
            &&& job.state.phase != Phase::Paused ==> answers_status(again, job, current)
        }),
{
}

/// What resuming the job begins with, for the command of `step`.
pub open spec fn begun_like_resume(
    step: StepView,
    job: ScanJob,
    ota_active: bool,
    current: u32,
) -> StepView {
    match (step, begun(DiagnosticCommand::ScanResume, job, ota_active, current)) {
        (StepView::Do(e), StepView::Do(resumed)) => StepView::Do(
            EngineView { command: e.command, ..resumed },
        ),
        (_, other) => other,
    }
}

/// Without storage no job is started.
pub proof fn lemma_start_needs_storage(
    job: ScanJob,
    start: u16,
    end: u16,
    timeout_ms: u16,
    maximum_ms: u16,
    ota_active: bool,
    current: u32,
)
    requires
        job.journal is None,
    ensures
        answers_line(
            begun(
                DiagnosticCommand::ScanStart { start, end, timeout_ms, maximum_ms },
                job,
                ota_active,
                current,
            ),
            job,
            "ERR scan_storage_unavailable",
        ),
{
}

/// The stages of a start in an idle adapter: the line is regained, the appliance names
/// itself, and a job for that appliance, with the range and timing that were asked for
/// and without progress, is saved.
pub proof fn lemma_start_saves_a_fresh_job(
    job: ScanJob,
    start: u16,
    end: u16,
    timeout_ms: u16,
    maximum_ms: u16,
    id: u16,
    ota_active: bool,
    current: u32,
)
    requires
        job.journal is Some,
        job.state.phase == Phase::Idle,
    ensures
        begun(
            DiagnosticCommand::ScanStart { start, end, timeout_ms, maximum_ms },
            job,
            ota_active,
            current,
        ) matches StepView::Do(first) && first.operation() == EngineRequest::Link(
            Request::Resynchronize,
        ) && (first.after(EngineReply::Link(Reply::Done), current) matches StepView::Do(second)
            && second.operation() == EngineRequest::Link(Request::QueryId) && ({
            let third = second.after(EngineReply::Link(Reply::Id(id)), current);
            let valid = start <= end && 40 <= timeout_ms <= maximum_ms <= 2000 && timeout_ms % 5
                == 0 && maximum_ms % 5 == 0;
            &&& !valid ==> answers_line(third, job, "ERR invalid_scan_arguments")
            &&& valid ==> (third matches StepView::Do(saving) && {
                let s = saving.job.state;
                &&& saving.operation() == EngineRequest::Save
                &&& saving.job.journal == job.journal
                &&& s.phase == Phase::Running
                &&& s.software_id == id
                &&& s.start == start && s.end == end && s.next == start
                &&& s.minimum_ms == timeout_ms && s.timeout_ms == timeout_ms
                &&& s.maximum_ms == maximum_ms
                &&& s.found is None && s.tested == 0 && s.errors == 0 && s.increases == 0
                &&& s.known_mask == 0
            })
        })),
{
}

/// A start or a resume on a line that cannot be regained, and a start without a software
/// ID, change nothing.
pub proof fn lemma_start_and_resume_need_the_line(e: EngineView, reply: Reply, current: u32)
    requires
        !(reply is Done),
        !(reply is Id),
    ensures
        e.stage == Stage::Start || e.stage == Stage::Resume ==> answers_line(
            e.after(EngineReply::Link(reply), current),
            e.job,
            "ERR noisy_line",
        ),
        e.stage == Stage::StartId ==> answers_line(
            e.after(EngineReply::Link(reply), current),
            e.job,
            "ERR query_software_id timeout",
        ),
{
}

/// Pausing and resuming change the phase of the job and nothing else, and only from the
/// other phase; a job that is in neither is reported.
pub proof fn lemma_pause_and_resume(job: ScanJob, ota_active: bool, current: u32)
    ensures
        ({
            let paused = begun(DiagnosticCommand::ScanPause, job, ota_active, current);
            &&& job.state.phase == Phase::Running ==> (paused matches StepView::Do(e)
                && e.operation() == EngineRequest::Save && same_but_phase(
                e.job,
                job,
                Phase::Paused,
            ))
            &&& job.state.phase != Phase::Running ==> answers_status(paused, job, current)
        }),
        ({
            let resumed = begun(DiagnosticCommand::ScanResume, job, ota_active, current);
            &&& job.state.phase == Phase::Paused ==> (resumed matches StepView::Do(e)
                && e.operation() == EngineRequest::Link(Request::Resynchronize) && e.job == job && (
            e.after(EngineReply::Link(Reply::Done), current) matches StepView::Do(saving)
                && saving.operation() == EngineRequest::Save && same_but_phase(
                saving.job,
                job,
                Phase::Running,
            )))
            &&& job.state.phase != Phase::Paused ==> answers_status(resumed, job, current)
        }),
        answers_status(
            begun(DiagnosticCommand::ScanStatus, job, ota_active, current),
            job,
            current,
        ),
{
}

/// A reset saves that there is no job, whatever there was.
pub proof fn lemma_reset_discards_the_job(job: ScanJob, ota_active: bool, current: u32)
    ensures
        begun(DiagnosticCommand::ScanReset, job, ota_active, current) matches StepView::Do(e) && {
            &&& e.operation() == EngineRequest::Save
            &&& e.job.journal == job.journal
            &&& e.job.state.phase == Phase::Idle
            &&& e.job.state.found is None
            &&& e.job.state.tested == 0
            &&& e.job.state.errors == 0
            &&& e.job.state.next == 0
            &&& e.job.state.known_mask == 0
        },
{
}

/// Whatever was to be saved is reported afterwards: as it is where the save succeeded,
/// and as a storage error where it did not.
pub proof fn lemma_save_is_reported(
    e: EngineView,
    journal: Option<Journal>,
    success: bool,
    current: u32,
)
    requires
        e.stage == Stage::Save,
    ensures
        e.after(EngineReply::Saved { journal, success }, current) matches StepView::Answer(
            job,
            text,
        ) && {
            &&& job.journal == journal
            &&& text == response(status_text(job.state, current))
            &&& success && journal is Some ==> job.state == e.job.state
            &&& !success || journal is None ==> job.state == (State {
                phase: Phase::StorageError,
                ..e.job.state
            })
        },
{
}

/// While a job runs, nothing but the commands about the job is served.
pub proof fn lemma_running_job_owns_the_line(
    command: DiagnosticCommand,
    job: ScanJob,
    ota_active: bool,
    current: u32,
)
    requires
        job.state.phase == Phase::Running,
        command is QueryId || command is QueryMaxBaud || command is PartitionInstall || command
            is ReadMemory16 || command is ReadMemory128 || command is ReadEeprom1 || command
            is ReadEeprom16 || command is ReadEeprom128,
    ensures
        answers_line(begun(command, job, ota_active, current), job, "ERR scan_busy"),
{
}

/// A status report begins with `OK`.
pub proof fn lemma_status_is_ok(s: State, current: u32)
    ensures
        response(status_text(s, current)).len() > 2,
        response(status_text(s, current))[0] == 79,
        response(status_text(s, current))[1] == 75,
{
    reveal_strlit("OK scan_version=3 state=");
    is_ascii_spec_bytes("OK scan_version=3 state=");
    lemma_response_is_cut(status_text(s, current));
    assert(status_text(s, current)[0] == 79);
    assert(status_text(s, current)[1] == 75);
}

/// A response is the text, or the first 512 bytes of it.
pub proof fn lemma_response_is_cut(text: Seq<u8>)
    ensures
        text.len() <= 512 ==> response(text) == text,
        text.len() > 512 ==> response(text) == text.subrange(0, 512),
{
    assert(Seq::<u8>::empty() + text =~= text);
    if text.len() > 512 {
        assert(Seq::<u8>::empty() + text.subrange(0, 512) =~= text.subrange(0, 512));
    }
}

/// The partition is installed only while neither a job runs nor an update does, and the
/// job is then the one that was opened anew.
pub proof fn lemma_partition_install(
    job: ScanJob,
    opened: ScanJob,
    reply: EngineReply,
    ota_active: bool,
    current: u32,
)
    requires
        job.state.phase != Phase::Running,
    ensures
        ({
            let first = begun(DiagnosticCommand::PartitionInstall, job, ota_active, current);
            &&& ota_active ==> answers_line(first, job, "ERR busy pause_scan_and_finish_ota_first")
            &&& !ota_active ==> (first matches StepView::Do(e) && e.operation()
                == EngineRequest::Install && answers_line(
                e.after(EngineReply::Installed(opened), current),
                opened,
                "OK partition=keyscan installed_and_verified",
            ) && answers_line(
                e.after(EngineReply::NotInstalled, current),
                job,
                "ERR partition_migration_failed see_usb_log",
            ))
        }),
{
}

// ---------------------------------------------------------------------------
// Reads
// ---------------------------------------------------------------------------
/// The answers of the two questions, with the job left alone.
pub proof fn lemma_questions_are_answered(
    job: ScanJob,
    id: u16,
    rate: u32,
    ota_active: bool,
    current: u32,
)
    requires
        job.state.phase != Phase::Running,
    ensures
        begun(DiagnosticCommand::QueryId, job, ota_active, current) matches StepView::Do(e)
            && e.operation() == EngineRequest::Link(Request::QueryId) && e.after(
            EngineReply::Link(Reply::Id(id)),
            current,
        ) == StepView::Answer(
            job,
            response(
                "OK software_id=".spec_bytes() + decimal(id as nat) + " hex=0x".spec_bytes() + hex(
                    id as nat,
                    4,
                ) + "\n".spec_bytes(),
            ),
        ),
        begun(DiagnosticCommand::QueryMaxBaud, job, ota_active, current) matches StepView::Do(e)
            && e.operation() == EngineRequest::Link(Request::QueryMaxBaud) && e.after(
            EngineReply::Link(Reply::Baud(rate)),
            current,
        ) == StepView::Answer(
            job,
            response("OK max_baud=".spec_bytes() + decimal(rate as nat) + "\n".spec_bytes()),
        ),
{
}

/// Failures of the two questions tell what failed: the error, or that it took too long.
pub proof fn lemma_question_failures(e: EngineView, cause: Vec<u8>, current: u32)
    requires
        e.stage == Stage::AskId || e.stage == Stage::AskBaud,
    ensures
        ({
            let what = if e.stage == Stage::AskId {
                "query_software_id".spec_bytes()
            } else {
                "query_max_baud_rate".spec_bytes()
            };
            &&& e.after(EngineReply::Link(Reply::Failed(cause)), current) == StepView::Answer(
                e.job,
                response(
                    "ERR ".spec_bytes() + what + " ".spec_bytes() + cause@ + "\n".spec_bytes(),
                ),
            )
            &&& e.after(EngineReply::Link(Reply::TimedOut(cause)), current) == StepView::Answer(
                e.job,
                response(
                    "ERR ".spec_bytes() + what + " ".spec_bytes() + ("timeout ".spec_bytes()
                        + cause@) + "\n".spec_bytes(),
                ),
            )
        }),
{
}

/// A short read: the appliance names itself, the key of the command unlocks it, and the
/// bytes at the address of the command are answered.
pub proof fn lemma_short_reads(
    job: ScanJob,
    key: u16,
    address: u32,
    id: u16,
    data: Vec<u8>,
    ota_active: bool,
    current: u32,
)
    requires
        job.state.phase != Phase::Running,
    ensures
        reads_once(
            DiagnosticCommand::ReadMemory16 { key, address },
            job,
            key,
            Request::ReadMemory { address, length: 16, timeout_ms: 1000 },
            id,
            data,
            "OK kind=memory address=0x".spec_bytes() + hex(address as nat, 8)
                + " data=".spec_bytes(),
            ota_active,
            current,
        ),
        address <= 0xffff ==> reads_once(
            DiagnosticCommand::ReadEeprom16 { key, address: address as u16 },
            job,
            key,
            Request::ReadEeprom { address: address as u16, length: 16 },
            id,
            data,
            "OK kind=eeprom address=0x".spec_bytes() + hex(address as nat, 4)
                + " data=".spec_bytes(),
            ota_active,
            current,
        ),
        address <= 0xffff ==> reads_once(
            DiagnosticCommand::ReadEeprom1 { key, address: address as u16 },
            job,
            key,
            Request::ReadEeprom { address: address as u16, length: 1 },
            id,
            data,
            "OK kind=eeprom address=0x".spec_bytes() + hex(address as nat, 4)
                + " data=".spec_bytes(),
            ota_active,
            current,
        ),
{
    lemma_data_text(DiagnosticCommand::ReadMemory16 { key, address }, data@);
    lemma_data_text(DiagnosticCommand::ReadEeprom16 { key, address: address as u16 }, data@);
    lemma_data_text(DiagnosticCommand::ReadEeprom1 { key, address: address as u16 }, data@);
}

/// The command is a handshake with this key and one read, whose bytes it answers in
/// hexadecimal behind `head`.
pub open spec fn reads_once(
    command: DiagnosticCommand,
    job: ScanJob,
    key: u16,
    read: Request,
    id: u16,
    data: Vec<u8>,
    head: Seq<u8>,
    ota_active: bool,
    current: u32,
) -> bool {
    begun(command, job, ota_active, current) matches StepView::Do(first) && first.operation()
        == EngineRequest::Link(Request::QueryId) && (first.after(
        EngineReply::Link(Reply::Id(id)),
        current,
    ) matches StepView::Do(second) && second.operation() == EngineRequest::Link(
        Request::Unlock { key },
    ) && (second.after(EngineReply::Link(Reply::Done), current) matches StepView::Do(third)
        && third.operation() == EngineRequest::Link(read) && third.after(
        EngineReply::Link(Reply::Data(data)),
        current,
    ) == StepView::Answer(job, response(head + hex_bytes(data@) + "\n".spec_bytes()))))
}

proof fn lemma_data_text(command: DiagnosticCommand, data: Seq<u8>)
    ensures
        ({
            let memory = command is ReadMemory16 || command is ReadMemory128;
            let address = match command {
                DiagnosticCommand::ReadMemory16 { address, .. } => address as int,
                DiagnosticCommand::ReadMemory128 { address, .. } => address as int,
                DiagnosticCommand::ReadEeprom1 { address, .. } => address as int,
                DiagnosticCommand::ReadEeprom16 { address, .. } => address as int,
                DiagnosticCommand::ReadEeprom128 { address, .. } => address as int,
                _ => 0,
            };
            &&& memory ==> data_text(command, data) == "OK kind=memory address=0x".spec_bytes()
                + hex(address as nat, 8) + " data=".spec_bytes() + hex_bytes(data)
                + "\n".spec_bytes()
            &&& !memory ==> data_text(command, data) == "OK kind=eeprom address=0x".spec_bytes()
                + hex(address as nat, 4) + " data=".spec_bytes() + hex_bytes(data)
                + "\n".spec_bytes()
        }),
{
    reveal_strlit("OK kind=");
    reveal_strlit("memory");
    reveal_strlit("eeprom");
    reveal_strlit(" address=");
    reveal_strlit("0x");
    reveal_strlit("OK kind=memory address=0x");
    reveal_strlit("OK kind=eeprom address=0x");
    is_ascii_spec_bytes("OK kind=");
    is_ascii_spec_bytes("memory");
    is_ascii_spec_bytes("eeprom");
    is_ascii_spec_bytes(" address=");
    is_ascii_spec_bytes("0x");
    is_ascii_spec_bytes("OK kind=memory address=0x");
    is_ascii_spec_bytes("OK kind=eeprom address=0x");
    let memory = "OK kind=".spec_bytes() + "memory".spec_bytes() + " address=".spec_bytes()
        + "0x".spec_bytes();
    let eeprom = "OK kind=".spec_bytes() + "eeprom".spec_bytes() + " address=".spec_bytes()
        + "0x".spec_bytes();
    assert(memory =~= "OK kind=memory address=0x".spec_bytes());
    assert(eeprom =~= "OK kind=eeprom address=0x".spec_bytes());
    let at = command.read_address();
    let head = "OK kind=".spec_bytes() + (if command.of_memory() {
        "memory".spec_bytes()
    } else {
        "eeprom".spec_bytes()
    }) + " address=".spec_bytes();
    assert(head + address_text(command.of_memory(), at) =~= head + "0x".spec_bytes() + hex(
        at as nat,
        if command.of_memory() {
            8
        } else {
            4
        },
    ));
}

/// A read that was not unlocked is not made: what failed is told, and whether it took
/// too long.
pub proof fn lemma_reads_need_the_handshake(e: EngineView, cause: Vec<u8>, current: u32)
    requires
        e.stage == Stage::Query || e.stage == Stage::Unlock,
    ensures
        ({
            let what = if e.stage == Stage::Query {
                "query_software_id".spec_bytes()
            } else {
                "unlock_read_access".spec_bytes()
            };
            &&& e.after(EngineReply::Link(Reply::Failed(cause)), current) == StepView::Answer(
                e.job,
                response("ERR ".spec_bytes() + what + Seq::empty() + "\n".spec_bytes()),
            )
            &&& e.after(EngineReply::Link(Reply::TimedOut(cause)), current) == StepView::Answer(
                e.job,
                response("ERR ".spec_bytes() + what + " timeout".spec_bytes() + "\n".spec_bytes()),
            )
        }),
{
}

/// The bytes that an address of an EEPROM stands for: one on the dryer, two elsewhere.
pub proof fn lemma_eeprom_units(
    job: ScanJob,
    key: u16,
    address: u16,
    id: u16,
    ota_active: bool,
    current: u32,
)
    requires
        job.state.phase != Phase::Running,
    ensures
        begun(
            DiagnosticCommand::ReadEeprom128 { key, address },
            job,
            ota_active,
            current,
        ) matches StepView::Do(first) && first.operation() == EngineRequest::Link(Request::QueryId)
            && (first.after(EngineReply::Link(Reply::Id(id)), current) matches StepView::Do(e)
            && e.operation() == EngineRequest::Link(Request::QueryId) && e.data.len() == 0
            && e.stage == Stage::Query && (id == 498 ==> e.unit == 1) && (id != 498 ==> e.unit
            == 2)),
{
}

/// Block `k` of a long read: memory advances by 16 bytes, EEPROM by as many addresses as
/// make up 16 bytes; the blocks are joined in order, with a rest behind each, a new
/// handshake with the same key after the first half, and the answer after the eighth.
pub proof fn lemma_long_reads(
    e: EngineView,
    key: u16,
    address: u32,
    k: int,
    data: Vec<u8>,
    rested: Reply,
    current: u32,
)
    requires
        0 <= k < 8,
        e.stage == Stage::Read,
        e.data.len() == 16 * k,
        data@.len() == 16,
        e.unit == 1 || e.unit == 2,
        e.command == (DiagnosticCommand::ReadMemory128 { key, address }) && address <= 0xffff_ff8f
            || address <= 0xff8f && e.command == (DiagnosticCommand::ReadEeprom128 {
            key,
            address: address as u16,
        }),
    ensures
        e.command is ReadMemory128 ==> e.operation() == EngineRequest::Link(
            Request::ReadMemory {
                address: (address + 16 * k) as u32,
                length: 16,
                timeout_ms: 1000,
            },
        ),
        e.command is ReadEeprom128 && e.unit == 1 ==> e.operation() == EngineRequest::Link(
            Request::ReadEeprom { address: (address + 16 * k) as u16, length: 16 },
        ),
        e.command is ReadEeprom128 && e.unit == 2 ==> e.operation() == EngineRequest::Link(
            Request::ReadEeprom { address: (address + 8 * k) as u16, length: 16 },
        ),
        e.after(EngineReply::Link(Reply::Data(data)), current) matches StepView::Do(rest) && {
            let next = rest.after(EngineReply::Link(rested), current);
            &&& rest.operation() == EngineRequest::Link(Request::Pause { ms: 5 })
            &&& rest.data == e.data + data@
            &&& rest.job == e.job
            &&& k == 7 ==> next == StepView::Answer(
                e.job,
                response(
                    (if e.command is ReadMemory128 {
                        "OK kind=memory address=0x".spec_bytes() + hex(address as nat, 8)
                    } else {
                        "OK kind=eeprom address=0x".spec_bytes() + hex(address as nat, 4)
                    }) + " data=".spec_bytes() + hex_bytes(e.data + data@) + "\n".spec_bytes(),
                ),
            )
            &&& k < 7 ==> (next matches StepView::Do(n) && n.data == e.data + data@ && n.unit
                == e.unit && n.command == e.command && n.job == e.job && n.stage == if k == 3 {
                Stage::Query
            } else {
                Stage::Read
            })
        },
        (EngineView { stage: Stage::Unlock, ..e }).operation() == EngineRequest::Link(
            Request::Unlock { key },
        ),
{
    lemma_data_text(e.command, e.data + data@);
}

/// The text of a failed read: which space, whether it took too long, for a long read the
/// block, and the cause.
pub proof fn lemma_read_failures(
    e: EngineView,
    key: u16,
    address: u32,
    cause: Vec<u8>,
    current: u32,
)
    requires
        e.stage == Stage::Read,
        e.data.len() == 0,
    ensures
        e.command == (DiagnosticCommand::ReadMemory16 { key, address }) ==> e.after(
            EngineReply::Link(Reply::Failed(cause)),
            current,
        ) == StepView::Answer(
            e.job,
            response(
                "ERR ".spec_bytes() + "read_memory".spec_bytes() + Seq::empty() + Seq::empty()
                    + " ".spec_bytes() + cause@ + "\n".spec_bytes(),
            ),
        ),
        e.command == (DiagnosticCommand::ReadMemory128 { key, address }) ==> e.after(
            EngineReply::Link(Reply::TimedOut(cause)),
            current,
        ) == StepView::Answer(
            e.job,
            response(
                "ERR ".spec_bytes() + "read_memory".spec_bytes() + " timeout".spec_bytes() + (
                " address=".spec_bytes() + ("0x".spec_bytes() + hex(address as nat, 8)))
                    + " ".spec_bytes() + cause@ + "\n".spec_bytes(),
            ),
        ),
        address <= 0xffff && e.command == (DiagnosticCommand::ReadEeprom16 {
            key,
            address: address as u16,
        }) ==> e.after(EngineReply::Link(Reply::TimedOut(cause)), current) == StepView::Answer(
            e.job,
            response(
                "ERR ".spec_bytes() + "read_eeprom".spec_bytes() + " timeout".spec_bytes()
                    + Seq::empty() + " ".spec_bytes() + cause@ + "\n".spec_bytes(),
            ),
        ),
        address <= 0xffff && e.command == (DiagnosticCommand::ReadEeprom128 {
            key,
            address: address as u16,
        }) ==> e.after(EngineReply::Link(Reply::Failed(cause)), current) == StepView::Answer(
            e.job,
            response(
                "ERR ".spec_bytes() + "read_eeprom".spec_bytes() + Seq::empty() + (
                " address=".spec_bytes() + ("0x".spec_bytes() + hex(address as nat, 4)))
                    + " ".spec_bytes() + cause@ + "\n".spec_bytes(),
            ),
        ),
{
}

/// The long reads that stay in their address space.
pub proof fn lemma_long_reads_that_fit(key: u16, memory: u32, eeprom: u16)
    ensures
        (DiagnosticCommand::ReadMemory128 { key, address: memory }).in_bounds() <==> memory
            < 0xffff_ff90,
        (DiagnosticCommand::ReadEeprom128 { key, address: eeprom }).in_bounds() <==> eeprom
            < 0xff90,
        (DiagnosticCommand::ReadMemory16 { key, address: memory }).in_bounds(),
        (DiagnosticCommand::ReadEeprom16 { key, address: eeprom }).in_bounds(),
{
}

/// How much each read reads, and in blocks of which length.
pub proof fn lemma_read_lengths(c: DiagnosticCommand)
    ensures
        c is ReadMemory16 || c is ReadEeprom16 ==> c.read_length() == 16 && c.block_length() == 16
            && !c.is_long(),
        c is ReadMemory128 || c is ReadEeprom128 ==> c.read_length() == 128 && c.block_length()
            == 16 && c.is_long(),
        c is ReadEeprom1 ==> c.read_length() == 1 && c.block_length() == 1 && !c.is_long(),
        c.is_read() <==> c is ReadMemory16 || c is ReadMemory128 || c is ReadEeprom1 || c
            is ReadEeprom16 || c is ReadEeprom128,
        c.of_memory() <==> c is ReadMemory16 || c is ReadMemory128,
{
}

} // verus!
