//! The execution of a diagnostic command.
//!
//! The engine names the operation that it wants next, on the appliance link or
//! on the stored job, until it has the response.

use super::command::DiagnosticCommand;
use crate::buffers::{respond, response, DiagnosticResponse};
use crate::keyscan::job::{scan_status, status_text, ScanJob};
use crate::keyscan::journal::Journal;
use crate::keyscan::{Phase, State};
use crate::link::{Reply, Request, DEVICE_TIMEOUT_MS};
use crate::text::{decimal, hex, hex_bytes, push_bytes, push_decimal, push_hex, push_hex_bytes};
use crate::text::push_text;
use vstd::prelude::*;
use vstd::string::*;
use vstd::utf8::*;

verus! {

/// The pause after each block of a long read. It avoids hammering old
/// controllers with back-to-back reads.
pub const BLOCK_PAUSE_MS: u64 = 5;

/// The software ID whose EEPROM is addressed by bytes instead of words.
pub const BYTE_ADDRESSED_ID: u16 = 498;

/// A response that is one line of text.
pub open spec fn line_text(message: &str) -> Seq<u8> {
    message.spec_bytes() + "\n".spec_bytes()
}

/// Makes a response of one line.
pub fn diagnostic_error(message: &str) -> (r: DiagnosticResponse)
    ensures
        r@ == response(line_text(message)),
{
    let mut out: Vec<u8> = Vec::new();
    push_text(&mut out, message);
    push_text(&mut out, "\n");
    assert(out@ =~= line_text(message));
    respond(out.as_slice())
}

// ---------------------------------------------------------------------------
// Reads
// ---------------------------------------------------------------------------
impl DiagnosticCommand {
    /// The command only concerns the stored job.
    pub open spec fn concerns_scan(self) -> bool {
        self is ScanStatus || self is ScanPause || self is ScanResume || self is ScanReset || self
            is ScanStart
    }

    /// No block of the command lies past the end of its address space.
    pub open spec fn in_bounds(self) -> bool {
        &&& self matches DiagnosticCommand::ReadMemory128 { address, .. } ==> address + 0x70
            <= 0xffff_ffff
        &&& self matches DiagnosticCommand::ReadEeprom128 { address, .. } ==> address + 0x70
            <= 0xffff
    }

    /// The command reads from the appliance.
    pub open spec fn is_read(self) -> bool {
        self is ReadMemory16 || self is ReadMemory128 || self is ReadEeprom1 || self is ReadEeprom16
            || self is ReadEeprom128
    }

    /// The command reads memory and not EEPROM.
    pub open spec fn of_memory(self) -> bool {
        self is ReadMemory16 || self is ReadMemory128
    }

    /// The key that unlocks the read.
    pub open spec fn read_key(self) -> u16 {
        match self {
            DiagnosticCommand::ReadMemory16 { key, .. } => key,
            DiagnosticCommand::ReadMemory128 { key, .. } => key,
            DiagnosticCommand::ReadEeprom1 { key, .. } => key,
            DiagnosticCommand::ReadEeprom16 { key, .. } => key,
            DiagnosticCommand::ReadEeprom128 { key, .. } => key,
            _ => 0,
        }
    }

    /// The first address of the read.
    pub open spec fn read_address(self) -> int {
        match self {
            DiagnosticCommand::ReadMemory16 { address, .. } => address as int,
            DiagnosticCommand::ReadMemory128 { address, .. } => address as int,
            DiagnosticCommand::ReadEeprom1 { address, .. } => address as int,
            DiagnosticCommand::ReadEeprom16 { address, .. } => address as int,
            DiagnosticCommand::ReadEeprom128 { address, .. } => address as int,
            _ => 0,
        }
    }

    /// The number of bytes that are read.
    pub open spec fn read_length(self) -> int {
        if self is ReadMemory128 || self is ReadEeprom128 {
            128
        } else if self is ReadEeprom1 {
            1
        } else {
            16
        }
    }

    /// The number of bytes of one block.
    pub open spec fn block_length(self) -> int {
        if self is ReadEeprom1 {
            1
        } else {
            16
        }
    }

    /// The read is made in several blocks.
    pub open spec fn is_long(self) -> bool {
        self is ReadMemory128 || self is ReadEeprom128
    }

    /// The address of the block behind so many bytes, where an address stands
    /// for so many bytes.
    pub open spec fn block_address(self, bytes: int, unit: int) -> int {
        if self is ReadEeprom128 && unit == 2 {
            self.read_address() + bytes / 2
        } else {
            self.read_address() + bytes
        }
    }

    /// Tells whether every block of the command lies within its address space.
    pub fn fits(&self) -> (r: bool)
        ensures
            r == self.in_bounds(),
    {
        match *self {
            DiagnosticCommand::ReadMemory128 { address, .. } => address <= 0xffff_ff8f,
            DiagnosticCommand::ReadEeprom128 { address, .. } => address <= 0xff8f,
            _ => true,
        }
    }

    fn key_of(self) -> (r: u16)
        ensures
            r == self.read_key(),
    {
        match self {
            DiagnosticCommand::ReadMemory16 { key, .. } => key,
            DiagnosticCommand::ReadMemory128 { key, .. } => key,
            DiagnosticCommand::ReadEeprom1 { key, .. } => key,
            DiagnosticCommand::ReadEeprom16 { key, .. } => key,
            DiagnosticCommand::ReadEeprom128 { key, .. } => key,
            _ => 0,
        }
    }

    fn address_of(self) -> (r: u32)
        ensures
            r == self.read_address(),
    {
        match self {
            DiagnosticCommand::ReadMemory16 { address, .. } => address,
            DiagnosticCommand::ReadMemory128 { address, .. } => address,
            DiagnosticCommand::ReadEeprom1 { address, .. } => u32::from(address),
            DiagnosticCommand::ReadEeprom16 { address, .. } => u32::from(address),
            DiagnosticCommand::ReadEeprom128 { address, .. } => u32::from(address),
            _ => 0,
        }
    }

    fn length_of(self) -> (r: usize)
        ensures
            r == self.read_length(),
    {
        match self {
            DiagnosticCommand::ReadMemory128 { .. } => 128,
            DiagnosticCommand::ReadEeprom128 { .. } => 128,
            DiagnosticCommand::ReadEeprom1 { .. } => 1,
            _ => 16,
        }
    }

    fn block_length_of(self) -> (r: u16)
        ensures
            r == self.block_length(),
    {
        match self {
            DiagnosticCommand::ReadEeprom1 { .. } => 1,
            _ => 16,
        }
    }

    fn is_long_of(self) -> (r: bool)
        ensures
            r == self.is_long(),
    {
        match self {
            DiagnosticCommand::ReadMemory128 { .. } => true,
            DiagnosticCommand::ReadEeprom128 { .. } => true,
            _ => false,
        }
    }

    fn of_memory_of(self) -> (r: bool)
        ensures
            r == self.of_memory(),
    {
        match self {
            DiagnosticCommand::ReadMemory16 { .. } => true,
            DiagnosticCommand::ReadMemory128 { .. } => true,
            _ => false,
        }
    }
}

// ---------------------------------------------------------------------------
// Texts
// ---------------------------------------------------------------------------
/// `0x` and the address, in the width of its address space.
pub open spec fn address_text(memory: bool, address: int) -> Seq<u8> {
    "0x".spec_bytes() + hex(
        address as nat,
        if memory {
            8
        } else {
            4
        },
    )
}

/// The response to a completed read.
pub open spec fn data_text(command: DiagnosticCommand, data: Seq<u8>) -> Seq<u8> {
    "OK kind=".spec_bytes() + (if command.of_memory() {
        "memory".spec_bytes()
    } else {
        "eeprom".spec_bytes()
    }) + " address=".spec_bytes() + address_text(command.of_memory(), command.read_address())
        + " data=".spec_bytes() + hex_bytes(data) + "\n".spec_bytes()
}

/// What went wrong with an operation: nothing but the failure itself, or the
/// word `timeout` and the timer's own word.
pub open spec fn failure_text(what: Seq<u8>, reply: Reply) -> Seq<u8> {
    "ERR ".spec_bytes() + what + " ".spec_bytes() + (match reply {
        Reply::Failed(e) => e@,
        Reply::TimedOut(e) => "timeout ".spec_bytes() + e@,
        _ => Seq::empty(),
    }) + "\n".spec_bytes()
}

/// What went wrong with a read. A long read names its block.
pub open spec fn read_failure_text(
    command: DiagnosticCommand,
    address: int,
    reply: Reply,
) -> Seq<u8> {
    "ERR ".spec_bytes() + (if command.of_memory() {
        "read_memory".spec_bytes()
    } else {
        "read_eeprom".spec_bytes()
    }) + (if reply is TimedOut {
        " timeout".spec_bytes()
    } else {
        Seq::empty()
    }) + (if command.is_long() {
        " address=".spec_bytes() + address_text(command.of_memory(), address)
    } else {
        Seq::empty()
    }) + " ".spec_bytes() + (match reply {
        Reply::Failed(e) => e@,
        Reply::TimedOut(e) => e@,
        _ => Seq::empty(),
    }) + "\n".spec_bytes()
}

/// The response that tells a software ID.
pub open spec fn id_text(id: u16) -> Seq<u8> {
    "OK software_id=".spec_bytes() + decimal(id as nat) + " hex=0x".spec_bytes() + hex(id as nat, 4)
        + "\n".spec_bytes()
}

/// The response that tells a baud rate.
pub open spec fn baud_text(rate: u32) -> Seq<u8> {
    "OK max_baud=".spec_bytes() + decimal(rate as nat) + "\n".spec_bytes()
}

/// The response where read access could not be prepared.
pub open spec fn refusal_text(what: Seq<u8>, reply: Reply) -> Seq<u8> {
    "ERR ".spec_bytes() + what + (if reply is TimedOut {
        " timeout".spec_bytes()
    } else {
        Seq::empty()
    }) + "\n".spec_bytes()
}

fn push_address(out: &mut Vec<u8>, memory: bool, address: u32)
    ensures
        final(out)@ == old(out)@ + address_text(memory, address as int),
{
    push_text(out, "0x");
    push_hex(
        out,
        address as u64,
        if memory {
            8
        } else {
            4
        },
    );
    assert(out@ =~= old(out)@ + address_text(memory, address as int));
}

fn data_response(command: DiagnosticCommand, data: &[u8]) -> (r: DiagnosticResponse)
    ensures
        r@ == response(data_text(command, data@)),
{
    let mut out: Vec<u8> = Vec::new();
    push_text(&mut out, "OK kind=");
    if command.of_memory_of() {
        push_text(&mut out, "memory");
    } else {
        push_text(&mut out, "eeprom");
    }
    push_text(&mut out, " address=");
    push_address(&mut out, command.of_memory_of(), command.address_of());
    push_text(&mut out, " data=");
    push_hex_bytes(&mut out, data);
    push_text(&mut out, "\n");
    assert(out@ =~= data_text(command, data@));
    respond(out.as_slice())
}

fn failure_response(what: &str, reply: &Reply) -> (r: DiagnosticResponse)
    ensures
        r@ == response(failure_text(what.spec_bytes(), *reply)),
{
    let mut out: Vec<u8> = Vec::new();
    push_text(&mut out, "ERR ");
    push_text(&mut out, what);
    push_text(&mut out, " ");
    match reply {
        Reply::Failed(e) => push_bytes(&mut out, e.as_slice()),
        Reply::TimedOut(e) => {
            push_text(&mut out, "timeout ");
            push_bytes(&mut out, e.as_slice());
        },
        _ => {},
    }
    push_text(&mut out, "\n");
    assert(out@ =~= failure_text(what.spec_bytes(), *reply));
    respond(out.as_slice())
}

fn read_failure_response(command: DiagnosticCommand, address: u32, reply: &Reply) -> (r:
    DiagnosticResponse)
    ensures
        r@ == response(read_failure_text(command, address as int, *reply)),
{
    let mut out: Vec<u8> = Vec::new();
    push_text(&mut out, "ERR ");
    if command.of_memory_of() {
        push_text(&mut out, "read_memory");
    } else {
        push_text(&mut out, "read_eeprom");
    }
    match reply {
        Reply::TimedOut(_) => push_text(&mut out, " timeout"),
        _ => {},
    }
    if command.is_long_of() {
        push_text(&mut out, " address=");
        push_address(&mut out, command.of_memory_of(), address);
    }
    push_text(&mut out, " ");
    match reply {
        Reply::Failed(e) => push_bytes(&mut out, e.as_slice()),
        Reply::TimedOut(e) => push_bytes(&mut out, e.as_slice()),
        _ => {},
    }
    push_text(&mut out, "\n");
    assert(out@ =~= read_failure_text(command, address as int, *reply));
    respond(out.as_slice())
}

// ---------------------------------------------------------------------------
// The engine
// ---------------------------------------------------------------------------
/// The step of an execution.
#[derive(Clone, Copy, Debug, PartialEq, Eq, Structural)]
pub enum Stage {
    /// Regain the line, then let the paused job run.
    Resume,
    /// Regain the line, then start a job.
    Start,
    /// Ask for the software ID of the job to start.
    StartId,
    /// Save the job, then report it.
    Save,
    /// Add the scanner partition, then open the job anew.
    Install,
    /// Answer with the software ID.
    AskId,
    /// Answer with the baud rate.
    AskBaud,
    /// Ask for the software ID that tells how EEPROM is addressed.
    AskUnit,
    /// Prepare read access: ask for the software ID.
    Query,
    /// Prepare read access: unlock it.
    Unlock,
    /// Read a block.
    Read,
    /// Let the controller rest behind a block.
    Rest,
}

/// An operation that the engine wants.
#[derive(Clone, Copy, Debug, PartialEq, Eq, Structural)]
pub enum EngineRequest {
    /// An operation on the appliance link.
    Link(Request),
    /// Save the engine's job.
    Save,
    /// Run the partition installation, and then open the journal.
    Install,
}

/// The answer to an engine's operation.
#[derive(Debug)]
pub enum EngineReply {
    Link(Reply),
    /// The end of a save: the journal's position, if there was a save at all,
    /// and whether it succeeded.
    Saved { journal: Option<Journal>, success: bool },
    /// The partition is installed, and this is the job as opened anew.
    Installed(ScanJob),
    /// The installation failed.
    NotInstalled,
}

/// A command in execution.
#[derive(Debug)]
pub struct Engine {
    pub command: DiagnosticCommand,
    pub job: ScanJob,
    pub stage: Stage,
    pub unit: u16,
    pub data: Vec<u8>,
}

/// A command in execution, with the bytes read so far.
pub ghost struct EngineView {
    pub command: DiagnosticCommand,
    pub job: ScanJob,
    pub stage: Stage,
    pub unit: u16,
    pub data: Seq<u8>,
}

impl View for Engine {
    type V = EngineView;

    open spec fn view(&self) -> EngineView {
        EngineView {
            command: self.command,
            job: self.job,
            stage: self.stage,
            unit: self.unit,
            data: self.data@,
        }
    }
}

/// What comes after a reply.
pub enum EngineStep {
    /// The engine wants another operation.
    Do(Engine),
    /// The response, and the job as the command left it.
    Answer(ScanJob, DiagnosticResponse),
}

/// What comes after a reply, in the abstract.
pub ghost enum StepView {
    Do(EngineView),
    Answer(ScanJob, Seq<u8>),
}

impl View for EngineStep {
    type V = StepView;

    open spec fn view(&self) -> StepView {
        match *self {
            EngineStep::Do(engine) => StepView::Do(engine@),
            EngineStep::Answer(job, r) => StepView::Answer(job, r@),
        }
    }
}

/// The answer of one line, the job being as it was.
pub open spec fn line(job: ScanJob, message: &str) -> StepView {
    StepView::Answer(job, response(line_text(message)))
}

/// The status report of the job.
pub open spec fn report(job: ScanJob, current: u32) -> StepView {
    StepView::Answer(job, response(status_text(job.state, current)))
}

/// The job in another phase.
pub open spec fn in_phase(job: ScanJob, phase: Phase) -> ScanJob {
    ScanJob { state: State { phase, ..job.state }, ..job }
}

/// The execution at another stage.
pub open spec fn stage(command: DiagnosticCommand, job: ScanJob, stage: Stage) -> StepView {
    StepView::Do(EngineView { command, job, stage, unit: 1, data: Seq::empty() })
}

/// The start command asks for the very job that is stored.
pub open spec fn same_job(s: State, start: u16, end: u16, timeout_ms: u16, maximum_ms: u16) -> bool {
    s.start == start && s.end == end && s.minimum_ms == timeout_ms && s.maximum_ms == maximum_ms
}

/// How the execution of a command begins.
pub open spec fn begun(
    command: DiagnosticCommand,
    job: ScanJob,
    ota_active: bool,
    current: u32,
) -> StepView {
    if job.state.phase == Phase::Running && !command.concerns_scan() {
        line(job, "ERR scan_busy")
    } else {
        match command {
            DiagnosticCommand::ScanStatus => report(job, current),
            DiagnosticCommand::ScanPause => if job.state.phase == Phase::Running {
                stage(command, in_phase(job, Phase::Paused), Stage::Save)
            } else {
                report(job, current)
            },
            DiagnosticCommand::ScanResume => if job.state.phase == Phase::Paused {
                stage(command, job, Stage::Resume)
            } else {
                report(job, current)
            },
            DiagnosticCommand::ScanReset => stage(
                command,
                ScanJob { state: State::idle(), ..job },
                Stage::Save,
            ),
            DiagnosticCommand::PartitionInstall => if ota_active {
                line(job, "ERR busy pause_scan_and_finish_ota_first")
            } else {
                stage(command, job, Stage::Install)
            },
            DiagnosticCommand::ScanStart { start, end, timeout_ms, maximum_ms } => if job.journal
                is None {
                line(job, "ERR scan_storage_unavailable")
            } else if job.state.phase == Phase::Idle {
                stage(command, job, Stage::Start)
            } else if !same_job(job.state, start, end, timeout_ms, maximum_ms) {
                line(job, "ERR different_scan use_scan_reset_first")
            } else if job.state.phase == Phase::Paused {
                stage(command, job, Stage::Resume)
            } else {
                report(job, current)
            },
            DiagnosticCommand::QueryId => stage(command, job, Stage::AskId),
            DiagnosticCommand::QueryMaxBaud => stage(command, job, Stage::AskBaud),
            DiagnosticCommand::ReadEeprom128 { .. } => stage(command, job, Stage::AskUnit),
            _ => stage(command, job, Stage::Query),
        }
    }
}

impl EngineView {
    /// The operation that is wanted.
    pub open spec fn operation(self) -> EngineRequest {
        match self.stage {
            Stage::Resume => EngineRequest::Link(Request::Resynchronize),
            Stage::Start => EngineRequest::Link(Request::Resynchronize),
            Stage::StartId => EngineRequest::Link(Request::QueryId),
            Stage::Save => EngineRequest::Save,
            Stage::Install => EngineRequest::Install,
            Stage::AskId => EngineRequest::Link(Request::QueryId),
            Stage::AskBaud => EngineRequest::Link(Request::QueryMaxBaud),
            Stage::AskUnit => EngineRequest::Link(Request::QueryId),
            Stage::Query => EngineRequest::Link(Request::QueryId),
            Stage::Unlock => EngineRequest::Link(Request::Unlock { key: self.command.read_key() }),
            Stage::Read => EngineRequest::Link(
                if self.command.of_memory() {
                    Request::ReadMemory {
                        address: self.block_address() as u32,
                        length: self.command.block_length() as u16,
                        timeout_ms: DEVICE_TIMEOUT_MS,
                    }
                } else {
                    Request::ReadEeprom {
                        address: self.block_address() as u16,
                        length: self.command.block_length() as u16,
                    }
                },
            ),
            Stage::Rest => EngineRequest::Link(Request::Pause { ms: BLOCK_PAUSE_MS }),
        }
    }

    /// The address of the block that is read next.
    pub open spec fn block_address(self) -> int {
        self.command.block_address(self.data.len() as int, self.unit as int)
    }

    pub open spec fn well_formed(self) -> bool {
        &&& self.job.well_formed()
        &&& self.command.in_bounds()
        &&& self.unit == 1 || self.unit == 2
        &&& self.stage == Stage::StartId || self.stage == Stage::Start ==> self.command is ScanStart
        &&& self.stage == Stage::AskUnit ==> self.command is ReadEeprom128 && self.data.len() == 0
        &&& self.stage == Stage::Query || self.stage == Stage::Unlock || self.stage == Stage::Read
            ==> self.command.is_read() && self.data.len() + self.command.block_length()
            <= self.command.read_length() && self.data.len() % 16 == 0
        &&& self.stage == Stage::Rest ==> self.command.is_long() && 0 < self.data.len()
            <= self.command.read_length() && self.data.len() % 16 == 0
    }

    /// The reply is one that the wanted operation can have.
    pub open spec fn fits(self, reply: EngineReply) -> bool {
        match self.operation() {
            EngineRequest::Save => reply matches EngineReply::Saved { journal, .. } && (journal
                matches Some(journal) ==> journal.well_formed()),
            EngineRequest::Install => reply is NotInstalled || (
            reply matches EngineReply::Installed(job) && job.well_formed()),
            EngineRequest::Link(request) => reply matches EngineReply::Link(reply) && (match request {
                Request::Resynchronize => reply is Done || reply is Failed,
                Request::QueryId => reply is Id || reply is Failed || reply is TimedOut,
                Request::QueryMaxBaud => reply is Baud || reply is Failed || reply is TimedOut,
                Request::Unlock { .. } => reply is Done || reply is Failed || reply is TimedOut,
                Request::ReadMemory { length, .. } => (reply matches Reply::Data(data) ==> data@.len()
                    == length) && (reply is Data || reply is Failed || reply is TimedOut),
                Request::ReadEeprom { length, .. } => (reply matches Reply::Data(data) ==> data@.len()
                    == length) && (reply is Data || reply is Failed || reply is TimedOut),
                _ => true,
            }),
        }
    }

    /// The execution at another stage.
    pub open spec fn at(self, stage: Stage) -> StepView {
        StepView::Do(EngineView { stage, ..self })
    }

    /// After read access is prepared or not.
    pub open spec fn refused(self, what: &str, reply: Reply) -> StepView {
        StepView::Answer(
            self.job,
            response(refusal_text(what.spec_bytes(), reply)),
        )
    }

    /// What comes after a reply; `current` is the key on trial.
    pub open spec fn after(self, reply: EngineReply, current: u32) -> StepView {
        let link = reply->Link_0;
        match self.stage {
            Stage::Resume => if link is Done {
                StepView::Do(
                    EngineView {
                        job: in_phase(self.job, Phase::Running),
                        stage: Stage::Save,
                        ..self
                    },
                )
            } else {
                line(self.job, "ERR noisy_line")
            },
            Stage::Start => if link is Done {
                self.at(Stage::StartId)
            } else {
                line(self.job, "ERR noisy_line")
            },
            Stage::StartId => match (self.command, link) {
                (
                    DiagnosticCommand::ScanStart { start, end, timeout_ms, maximum_ms },
                    Reply::Id(id),
                ) => if State::valid_parameters(start, end, timeout_ms, maximum_ms) {
                    StepView::Do(
                        EngineView {
                            job: ScanJob {
                                state: State::fresh(id, start, end, timeout_ms, maximum_ms),
                                ..self.job
                            },
                            stage: Stage::Save,
                            ..self
                        },
                    )
                } else {
                    line(self.job, "ERR invalid_scan_arguments")
                },
                _ => line(self.job, "ERR query_software_id timeout"),
            },
            Stage::Save => match reply {
                EngineReply::Saved { journal, success } => {
                    let job = ScanJob { journal, ..self.job };
                    if journal is Some && success {
                        report(job, current)
                    } else {
                        report(job.unsaved(), current)
                    }
                },
                _ => report(self.job, current),
            },
            Stage::Install => match reply {
                EngineReply::Installed(job) => line(
                    job,
                    "OK partition=keyscan installed_and_verified",
                ),
                _ => line(self.job, "ERR partition_migration_failed see_usb_log"),
            },
            Stage::AskId => match link {
                Reply::Id(id) => StepView::Answer(
                    self.job,
                    response(id_text(id)),
                ),
                _ => StepView::Answer(
                    self.job,
                    response(failure_text("query_software_id".spec_bytes(), link)),
                ),
            },
            Stage::AskBaud => match link {
                Reply::Baud(rate) => StepView::Answer(
                    self.job,
                    response(baud_text(rate)),
                ),
                _ => StepView::Answer(
                    self.job,
                    response(failure_text("query_max_baud_rate".spec_bytes(), link)),
                ),
            },
            Stage::AskUnit => match link {
                Reply::Id(id) => StepView::Do(
                    EngineView {
                        stage: Stage::Query,
                        unit: if id == BYTE_ADDRESSED_ID {
                            1
                        } else {
                            2
                        },
                        ..self
                    },
                ),
                _ => line(self.job, "ERR query_software_id failed"),
            },
            Stage::Query => if link is Id {
                self.at(Stage::Unlock)
            } else {
                self.refused("query_software_id", link)
            },
            Stage::Unlock => if link is Done {
                self.at(Stage::Read)
            } else {
                self.refused("unlock_read_access", link)
            },
            Stage::Read => match link {
                Reply::Data(data) => if self.command.is_long() {
                    StepView::Do(
                        EngineView { stage: Stage::Rest, data: self.data + data@, ..self },
                    )
                } else {
                    StepView::Answer(self.job, response(data_text(self.command, data@)))
                },
                _ => StepView::Answer(
                    self.job,
                    response(read_failure_text(self.command, self.block_address(), link)),
                ),
            },
            Stage::Rest => if self.data.len() == self.command.read_length() {
                StepView::Answer(self.job, response(data_text(self.command, self.data)))
            } else if self.data.len() == 64 {
                self.at(Stage::Query)
            } else {
                self.at(Stage::Read)
            },
        }
    }
}

fn answer_line(job: ScanJob, message: &str) -> (r: EngineStep)
    ensures
        r@ == line(job, message),
{
    EngineStep::Answer(job, diagnostic_error(message))
}

fn answer_report(job: ScanJob, current: u32) -> (r: EngineStep)
    ensures
        r@ == report(job, current),
{
    EngineStep::Answer(job, scan_status(job.state, current))
}

fn go(command: DiagnosticCommand, job: ScanJob, at: Stage) -> (r: EngineStep)
    ensures
        r@ == stage(command, job, at),
{
    let r = EngineStep::Do(Engine { command, job, stage: at, unit: 1, data: Vec::new() });
    assert(r@->Do_0.data =~= Seq::<u8>::empty());
    r
}

/// Begins to execute a command on the stored job; `current` is the key on trial.
pub fn execute_diagnostic_command(
    command: DiagnosticCommand,
    job: ScanJob,
    ota_active: bool,
    current: u32,
) -> (r: EngineStep)
    requires
        job.well_formed(),
        command.in_bounds(),
    ensures
        r@ == begun(command, job, ota_active, current),
        r matches EngineStep::Do(engine) ==> engine@.well_formed(),
{
    if job.state.phase == Phase::Running {
        match command {
            DiagnosticCommand::ScanStatus | DiagnosticCommand::ScanPause
            | DiagnosticCommand::ScanResume | DiagnosticCommand::ScanReset
            | DiagnosticCommand::ScanStart { .. } => {},
            _ => return answer_line(job, "ERR scan_busy"),
        }
    }
    match command {
        DiagnosticCommand::ScanStatus => answer_report(job, current),
        DiagnosticCommand::ScanPause => {
            if job.state.phase == Phase::Running {
                let mut job = job;
                job.state.phase = Phase::Paused;
                return go(command, job, Stage::Save);
            }
            answer_report(job, current)
        },
        DiagnosticCommand::ScanResume => {
            if job.state.phase == Phase::Paused {
                return go(command, job, Stage::Resume);
            }
            answer_report(job, current)
        },
        DiagnosticCommand::ScanReset => {
            let mut job = job;
            job.state = State::empty();
            go(command, job, Stage::Save)
        },
        DiagnosticCommand::PartitionInstall => {
            if ota_active {
                return answer_line(job, "ERR busy pause_scan_and_finish_ota_first");
            }
            go(command, job, Stage::Install)
        },
        DiagnosticCommand::ScanStart { start, end, timeout_ms, maximum_ms } => {
            if job.journal.is_none() {
                return answer_line(job, "ERR scan_storage_unavailable");
            }
            // Repeated start is idempotent, including after a lost TCP reply.
            if job.state.phase != Phase::Idle {
                let same = job.state.start == start && job.state.end == end && job.state.minimum_ms
                    == timeout_ms && job.state.maximum_ms == maximum_ms;
                if !same {
                    return answer_line(job, "ERR different_scan use_scan_reset_first");
                }
                if job.state.phase == Phase::Paused {
                    return go(command, job, Stage::Resume);
                }
                return answer_report(job, current);
            }
            go(command, job, Stage::Start)
        },
        DiagnosticCommand::QueryId => go(command, job, Stage::AskId),
        DiagnosticCommand::QueryMaxBaud => go(command, job, Stage::AskBaud),
        DiagnosticCommand::ReadEeprom128 { .. } => go(command, job, Stage::AskUnit),
        _ => go(command, job, Stage::Query),
    }
}

impl Engine {
    fn block_address_of(&self) -> (r: u32)
        requires
            self@.well_formed(),
            self.stage == Stage::Read,
        ensures
            r == self@.block_address(),
            !self.command.of_memory() ==> r <= 0xffff,
    {
        let bytes = self.data.len() as u32;
        match self.command {
            DiagnosticCommand::ReadEeprom128 { .. } => {
                let offset = if self.unit == 2 {
                    bytes / 2
                } else {
                    bytes
                };
                self.command.address_of() + offset
            },
            _ => self.command.address_of() + bytes,
        }
    }

    /// The operation that is wanted.
    pub fn request(&self) -> (r: EngineRequest)
        requires
            self@.well_formed(),
        ensures
            r == self@.operation(),
    {
        match self.stage {
            Stage::Resume => EngineRequest::Link(Request::Resynchronize),
            Stage::Start => EngineRequest::Link(Request::Resynchronize),
            Stage::StartId => EngineRequest::Link(Request::QueryId),
            Stage::Save => EngineRequest::Save,
            Stage::Install => EngineRequest::Install,
            Stage::AskId => EngineRequest::Link(Request::QueryId),
            Stage::AskBaud => EngineRequest::Link(Request::QueryMaxBaud),
            Stage::AskUnit => EngineRequest::Link(Request::QueryId),
            Stage::Query => EngineRequest::Link(Request::QueryId),
            Stage::Unlock => EngineRequest::Link(Request::Unlock { key: self.command.key_of() }),
            Stage::Read => {
                let address = self.block_address_of();
                let length = self.command.block_length_of();
                EngineRequest::Link(
                    if self.command.of_memory_of() {
                        Request::ReadMemory { address, length, timeout_ms: DEVICE_TIMEOUT_MS }
                    } else {
                        Request::ReadEeprom { address: address as u16, length }
                    },
                )
            },
            Stage::Rest => EngineRequest::Link(Request::Pause { ms: BLOCK_PAUSE_MS }),
        }
    }

    fn at(self, stage: Stage) -> (r: EngineStep)
        ensures
            r@ == self@.at(stage),
    {
        EngineStep::Do(Engine { stage, ..self })
    }

    fn refuse(self, what: &str, reply: &Reply) -> (r: EngineStep)
        ensures
            r@ == self@.refused(what, *reply),
    {
        let mut out: Vec<u8> = Vec::new();
        push_text(&mut out, "ERR ");
        push_text(&mut out, what);
        match reply {
            Reply::TimedOut(_) => push_text(&mut out, " timeout"),
            _ => {},
        }
        push_text(&mut out, "\n");
        assert(out@ =~= refusal_text(what.spec_bytes(), *reply));
        EngineStep::Answer(self.job, respond(out.as_slice()))
    }

    fn store(self, reply: EngineReply, current: u32) -> (r: EngineStep)
        requires
            self@.well_formed(),
            self@.fits(reply),
            self.stage == Stage::Save || self.stage == Stage::Install,
        ensures
            r@ == self@.after(reply, current),
            r matches EngineStep::Answer(job, _) ==> job.well_formed(),
            r is Answer,
    {
        match reply {
            EngineReply::Saved { journal, success } => {
                let mut job = self.job;
                job.saved(journal, success);
                answer_report(job, current)
            },
            EngineReply::Installed(job) => answer_line(
                job,
                "OK partition=keyscan installed_and_verified",
            ),
            _ => answer_line(self.job, "ERR partition_migration_failed see_usb_log"),
        }
    }

    fn start(self, link: Reply) -> (r: EngineStep)
        requires
            self@.well_formed(),
            self.stage == Stage::StartId,
        ensures
            forall|current: u32| r@ == #[trigger] self@.after(EngineReply::Link(link), current),
            r matches EngineStep::Do(next) ==> next@.well_formed(),
            r matches EngineStep::Answer(job, _) ==> job.well_formed(),
    {
        match (self.command, link) {
            (
                DiagnosticCommand::ScanStart { start, end, timeout_ms, maximum_ms },
                Reply::Id(id),
            ) => {
                match State::start(id, start, end, timeout_ms, maximum_ms) {
                    Some(state) => EngineStep::Do(
                        Engine {
                            job: ScanJob { state, ..self.job },
                            stage: Stage::Save,
                            ..self
                        },
                    ),
                    None => answer_line(self.job, "ERR invalid_scan_arguments"),
                }
            },
            _ => answer_line(self.job, "ERR query_software_id timeout"),
        }
    }

    fn tell_id(self, link: Reply) -> (r: EngineStep)
        requires
            self.stage == Stage::AskId,
        ensures
            forall|current: u32| r@ == #[trigger] self@.after(EngineReply::Link(link), current),
            r matches EngineStep::Answer(job, _) && job == self.job,
    {
        if let Reply::Id(id) = link {
            let mut out: Vec<u8> = Vec::new();
            push_text(&mut out, "OK software_id=");
            push_decimal(&mut out, id as u64);
            push_text(&mut out, " hex=0x");
            push_hex(&mut out, id as u64, 4);
            push_text(&mut out, "\n");
            assert(out@ =~= id_text(id));
            return EngineStep::Answer(self.job, respond(out.as_slice()));
        }
        EngineStep::Answer(self.job, failure_response("query_software_id", &link))
    }

    fn tell_baud(self, link: Reply) -> (r: EngineStep)
        requires
            self.stage == Stage::AskBaud,
        ensures
            forall|current: u32| r@ == #[trigger] self@.after(EngineReply::Link(link), current),
            r matches EngineStep::Answer(job, _) && job == self.job,
    {
        if let Reply::Baud(rate) = link {
            let mut out: Vec<u8> = Vec::new();
            push_text(&mut out, "OK max_baud=");
            push_decimal(&mut out, rate as u64);
            push_text(&mut out, "\n");
            assert(out@ =~= baud_text(rate));
            return EngineStep::Answer(self.job, respond(out.as_slice()));
        }
        EngineStep::Answer(self.job, failure_response("query_max_baud_rate", &link))
    }

    fn take_block(self, link: Reply) -> (r: EngineStep)
        requires
            self@.well_formed(),
            self@.fits(EngineReply::Link(link)),
            self.stage == Stage::Read,
        ensures
            forall|current: u32| r@ == #[trigger] self@.after(EngineReply::Link(link), current),
            r matches EngineStep::Do(next) ==> next@.well_formed(),
            r matches EngineStep::Answer(job, _) ==> job == self.job,
    {
        let address = self.block_address_of();
        if let Reply::Data(data) = link {
            if self.command.is_long_of() {
                let mut all = self.data;
                push_bytes(&mut all, data.as_slice());
                return EngineStep::Do(Engine { stage: Stage::Rest, data: all, ..self });
            }
            return EngineStep::Answer(self.job, data_response(self.command, data.as_slice()));
        }
        EngineStep::Answer(self.job, read_failure_response(self.command, address, &link))
    }

    fn prepare(self, link: Reply) -> (r: EngineStep)
        requires
            self@.well_formed(),
            self.stage == Stage::AskUnit || self.stage == Stage::Query || self.stage
                == Stage::Unlock,
        ensures
            forall|current: u32| r@ == #[trigger] self@.after(EngineReply::Link(link), current),
            r matches EngineStep::Do(next) ==> next@.well_formed(),
            r matches EngineStep::Answer(job, _) ==> job == self.job,
    {
        match self.stage {
            Stage::AskUnit => {
                if let Reply::Id(id) = link {
                    let unit: u16 = if id == BYTE_ADDRESSED_ID {
                        1
                    } else {
                        2
                    };
                    return EngineStep::Do(
                        Engine { stage: Stage::Query, unit, ..self },
                    );
                }
                answer_line(self.job, "ERR query_software_id failed")
            },
            Stage::Query => {
                if let Reply::Id(_) = link {
                    return self.at(Stage::Unlock);
                }
                self.refuse("query_software_id", &link)
            },
            _ => {
                if let Reply::Done = link {
                    return self.at(Stage::Read);
                }
                self.refuse("unlock_read_access", &link)
            },
        }
    }

    fn regain(self, link: Reply) -> (r: EngineStep)
        requires
            self@.well_formed(),
            self.stage == Stage::Resume || self.stage == Stage::Start,
        ensures
            forall|current: u32| r@ == #[trigger] self@.after(EngineReply::Link(link), current),
            r matches EngineStep::Do(next) ==> next@.well_formed(),
            r matches EngineStep::Answer(job, _) ==> job == self.job,
    {
        if let Reply::Done = link {
            if self.stage == Stage::Start {
                return self.at(Stage::StartId);
            }
            let mut job = self.job;
            job.state.phase = Phase::Running;
            return EngineStep::Do(Engine { job, stage: Stage::Save, ..self });
        }
        answer_line(self.job, "ERR noisy_line")
    }

    fn go_on(self) -> (r: EngineStep)
        requires
            self@.well_formed(),
            self.stage == Stage::Rest,
        ensures
            forall|reply: EngineReply, current: u32| r@ == #[trigger] self@.after(reply, current),
            r matches EngineStep::Do(next) ==> next@.well_formed(),
            r matches EngineStep::Answer(job, _) ==> job == self.job,
    {
        if self.data.len() == self.command.length_of() {
            return EngineStep::Answer(
                self.job,
                data_response(self.command, self.data.as_slice()),
            );
        }
        if self.data.len() == 64 {
            // The session may have ended meanwhile: unlock it again.
            return self.at(Stage::Query);
        }
        self.at(Stage::Read)
    }

    /// Takes the reply to the wanted operation; `current` is the key on trial.
    pub fn supply(self, reply: EngineReply, current: u32) -> (r: EngineStep)
        requires
            self@.well_formed(),
            self@.fits(reply),
        ensures
            r@ == self@.after(reply, current),
            r matches EngineStep::Do(next) ==> next@.well_formed(),
            r matches EngineStep::Answer(job, _) ==> job.well_formed(),
    {
        let link = match reply {
            EngineReply::Link(link) => link,
            other => return self.store(other, current),
        };
        match self.stage {
            Stage::Resume | Stage::Start => self.regain(link),
            Stage::StartId => self.start(link),
            Stage::AskId => self.tell_id(link),
            Stage::AskBaud => self.tell_baud(link),
            Stage::AskUnit | Stage::Query | Stage::Unlock => self.prepare(link),
            Stage::Read => self.take_block(link),
            Stage::Rest => self.go_on(),
            Stage::Save | Stage::Install => self.store(EngineReply::Link(link), current),
        }
    }
}

// ---------------------------------------------------------------------------
// What the engine promises
// ---------------------------------------------------------------------------
impl EngineView {
    /// A bound on the replies that may still be wanted.
    pub open spec fn remaining(self) -> int {
        8 * (128 - self.data.len()) + match self.stage {
            Stage::AskUnit => 5int,
            Stage::Rest => 5,
            Stage::Query => 4,
            Stage::Unlock => 3,
            Stage::Read => 2,
            Stage::Start => 4,
            Stage::StartId => 3,
            Stage::Resume => 3,
            Stage::Save => 1,
            Stage::Install => 1,
            Stage::AskId => 1,
            Stage::AskBaud => 1,
        }
    }
}

/// Every execution comes to its response.
pub proof fn lemma_execution_ends(e: EngineView, reply: EngineReply, current: u32)
    requires
        e.well_formed(),
        e.fits(reply),
        e.data.len() <= 128,
    ensures
        e.after(reply, current) matches StepView::Do(next) ==> 0 <= next.remaining()
            < e.remaining() && next.data.len() <= 128,
{
}

/// While a job runs, every command that does not concern it is refused, and the
/// job stays as it is.
pub proof fn lemma_running_job_is_not_disturbed(
    command: DiagnosticCommand,
    job: ScanJob,
    ota_active: bool,
    current: u32,
)
    requires
        job.state.phase == Phase::Running,
        !command.concerns_scan(),
    ensures
        begun(command, job, ota_active, current) == line(job, "ERR scan_busy"),
{
}

/// Starting the stored job again changes nothing: a paused job is resumed, any
/// other is reported.
pub proof fn lemma_repeated_start_is_idempotent(job: ScanJob, ota_active: bool, current: u32)
    requires
        job.journal is Some,
        job.state.phase != Phase::Idle,
    ensures
        ({
            let s = job.state;
            let again = DiagnosticCommand::ScanStart {
                start: s.start,
                end: s.end,
                timeout_ms: s.minimum_ms,
                maximum_ms: s.maximum_ms,
            };
            begun(again, job, ota_active, current) == if s.phase == Phase::Paused {
                stage(again, job, Stage::Resume)
            } else {
                report(job, current)
            }
        }),
{
}

/// A job is replaced only by a reset, or by a start where there is none; every
/// other command keeps its range, timing, progress and result.
pub proof fn lemma_commands_keep_the_job(
    command: DiagnosticCommand,
    job: ScanJob,
    ota_active: bool,
    current: u32,
)
    requires
        !(command is ScanReset),
    ensures
        begun(command, job, ota_active, current) matches StepView::Answer(after, _) ==> after == job,
        begun(command, job, ota_active, current) matches StepView::Do(e) ==> e.job == job || e.job
            == in_phase(job, Phase::Paused),
        begun(command, job, ota_active, current) matches StepView::Do(e) ==> (e.stage == Stage::Start
            ==> job.state.phase == Phase::Idle),
{
}

/// The blocks of a long EEPROM read follow each other without gap or overlap,
/// whether an address stands for one byte or for two.
pub proof fn lemma_blocks_are_contiguous(command: DiagnosticCommand, bytes: int, unit: int)
    requires
        command is ReadEeprom128,
        unit == 1 || unit == 2,
        0 <= bytes,
        bytes % 16 == 0,
    ensures
        unit * command.block_address(bytes, unit) == unit * command.read_address() + bytes,
{
}

/// Nothing is read before the appliance has named itself and the key was
/// accepted, and after half of a long read both happen anew.
pub proof fn lemma_reads_are_unlocked(e: EngineView, reply: EngineReply, current: u32)
    requires
        e.well_formed(),
        e.fits(reply),
    ensures
        e.after(reply, current) matches StepView::Do(next) ==> (next.stage == Stage::Unlock
            ==> e.stage == Stage::Query && reply->Link_0 is Id),
        e.after(reply, current) matches StepView::Do(next) ==> (next.stage == Stage::Read ==> (
        e.stage == Stage::Unlock && reply->Link_0 is Done) || (e.stage == Stage::Rest
            && e.data.len() != 64)),
{
}

} // verus!
