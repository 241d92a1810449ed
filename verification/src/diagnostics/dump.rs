//! Memory dumps on the serial console, and the first-contact probe of an unknown
//! appliance. Both only read.

use super::command::DiagnosticCommand;
use crate::known_read_keys::ReadKeyCandidate;
use crate::text::{contents, decimal, first_word, has_prefix, hex, is_utf8, leading_word, number};
use crate::text::{parse_number, part_behind, push_bytes, push_decimal, push_hex, push_text};
use crate::text::{second_part, starts_with, strip_prefix, text_bytes, trim_end, trimmed_end};
use crate::text::{no_lines, push_line, without_prefix};
use vstd::prelude::*;
use vstd::string::*;
use vstd::utf8::*;

verus! {

/// The lines to print, the pause behind them, the lines to print then, and the dump
/// that goes on, if it does.
#[derive(Debug)]
pub struct DumpStep {
    pub lines: Vec<Vec<u8>>,
    pub pause_ms: u64,
    pub closing: Vec<Vec<u8>>,
    pub next: Option<Dump>,
}

/// A dump step in the abstract.
pub ghost struct DumpView {
    pub lines: Seq<Seq<u8>>,
    pub pause_ms: u64,
    pub closing: Seq<Seq<u8>>,
    pub next: Option<Dump>,
}

impl View for DumpStep {
    type V = DumpView;

    open spec fn view(&self) -> DumpView {
        DumpView {
            lines: contents(self.lines@),
            pause_ms: self.pause_ms,
            closing: contents(self.closing@),
            next: self.next,
        }
    }
}

/// The pause behind each block of a dump, so that other tasks stay responsive.
pub const DUMP_PAUSE_MS: u64 = 1;

/// A step that prints one line and does not pause.
pub open spec fn line_only(line: Seq<u8>, next: Option<Dump>) -> DumpView {
    DumpView { lines: seq![line], pause_ms: 0, closing: Seq::empty(), next }
}

/// A dump under way. It wants the response to a command: first, for EEPROM, the
/// software ID that tells how it is addressed, then block after block.
#[derive(Clone, Copy, Debug, PartialEq, Eq, Structural)]
pub struct Dump {
    pub memory: bool,
    pub key: u16,
    pub start: u32,
    pub end: u32,
    /// The bytes that an address stands for, once known.
    pub unit: Option<u32>,
    /// The block that is read next.
    pub offset: u32,
}

/// The word for what is dumped.
pub open spec fn kind_text(memory: bool) -> Seq<u8> {
    if memory {
        "memory".spec_bytes()
    } else {
        "eeprom".spec_bytes()
    }
}

/// The range can be dumped: it is not empty and consists of whole blocks.
pub open spec fn whole_blocks(start: u32, end: u32) -> bool {
    start <= end && start % 16 == 0 && (end + 1) % 16 == 0
}

/// The software ID that the response to a query tells.
pub open spec fn told_id(r: Seq<u8>) -> Option<nat> {
    if valid_utf8(r) {
        match without_prefix(r, "OK software_id=".spec_bytes()) {
            Some(rest) => match first_word(rest) {
                Some(word) => number(word, 10, 0xffff),
                None => None,
            },
            None => None,
        }
    } else {
        None
    }
}

impl Dump {
    pub open spec fn well_formed(self) -> bool {
        &&& whole_blocks(self.start, self.end)
        &&& self.end < u32::MAX
        &&& self.start <= self.offset <= self.end
        &&& self.offset % 16 == 0
        &&& self.unit matches Some(unit) ==> (unit == 1 || unit == 2) && (!self.memory ==> self.end
            < 0x10000 * unit)
        &&& self.unit is None ==> !self.memory
    }

    /// The line that begins the dump.
    pub open spec fn begin_line(self) -> Seq<u8> {
        "SERDUMP BEGIN ".spec_bytes() + kind_text(self.memory) + " key=0x".spec_bytes() + hex(
            self.key as nat,
            4,
        ) + " start=0x".spec_bytes() + hex(self.start as nat, 8) + " end=0x".spec_bytes() + hex(
            self.end as nat,
            8,
        )
    }

    /// The line that ends the dump.
    pub open spec fn end_line(self) -> Seq<u8> {
        "SERDUMP END ".spec_bytes() + kind_text(self.memory)
    }

    /// The line for a block.
    pub open spec fn data_line(self, data: Seq<u8>) -> Seq<u8> {
        "SERDUMP ".spec_bytes() + kind_text(self.memory) + " ".spec_bytes() + hex(
            self.offset as nat,
            8,
        ) + " ".spec_bytes() + data
    }

    /// The line where a block could not be read.
    pub open spec fn error_line(self, what: Seq<u8>) -> Seq<u8> {
        "SERDUMP ERROR ".spec_bytes() + kind_text(self.memory) + " 0x".spec_bytes() + hex(
            self.offset as nat,
            8,
        ) + " ".spec_bytes() + what
    }

    /// The command whose response is wanted.
    pub open spec fn command(self) -> DiagnosticCommand {
        match self.unit {
            None => DiagnosticCommand::QueryId,
            Some(unit) => if self.memory {
                DiagnosticCommand::ReadMemory16 { key: self.key, address: self.offset }
            } else {
                DiagnosticCommand::ReadEeprom16 {
                    key: self.key,
                    address: (if unit == 1 {
                        self.offset
                    } else {
                        self.offset / 2
                    }) as u16,
                }
            },
        }
    }

    /// What comes after a response. Behind each block the dump pauses; the line that
    /// ends it comes after the pause.
    pub open spec fn after(self, r: Seq<u8>) -> DumpView {
        if self.unit is None {
            match told_id(r) {
                None => line_only("SERDIAG ERR query_software_id failed".spec_bytes(), None),
                Some(id) => {
                    let unit: u32 = if id == 498 {
                        1
                    } else {
                        2
                    };
                    if self.end >= 0x10000 * unit {
                        line_only("SERDIAG ERR EEPROM byte offset out of range".spec_bytes(), None)
                    } else {
                        line_only(self.begin_line(), Some(Dump { unit: Some(unit), ..self }))
                    }
                },
            }
        } else if !valid_utf8(r) {
            line_only(self.error_line("invalid-response-encoding".spec_bytes()), None)
        } else {
            match second_part(trimmed_end(r), " data=".spec_bytes()) {
                None => line_only(self.error_line(trimmed_end(r)), None),
                Some(data) => {
                    let last = self.offset + 16 > self.end;
                    DumpView {
                        lines: seq![self.data_line(data)],
                        pause_ms: DUMP_PAUSE_MS,
                        closing: if last {
                            seq![self.end_line()]
                        } else {
                            Seq::empty()
                        },
                        next: if last {
                            None
                        } else {
                            Some(Dump { offset: (self.offset + 16) as u32, ..self })
                        },
                    }
                },
            }
        }
    }
}

/// How a dump begins: memory at once, EEPROM with the question how it is
/// addressed.
pub open spec fn dump_begun(memory: bool, key: u16, start: u32, end: u32) -> DumpView {
    let dump = Dump {
        memory,
        key,
        start,
        end,
        unit: if memory {
            Some(2)
        } else {
            None
        },
        offset: start,
    };
    if !whole_blocks(start, end) {
        line_only(
            "SERDIAG ERR dump range must be 16-byte aligned and inclusive".spec_bytes(),
            None,
        )
    } else if memory {
        line_only(dump.begin_line(), Some(dump))
    } else {
        DumpView { lines: Seq::empty(), pause_ms: 0, closing: Seq::empty(), next: Some(dump) }
    }
}

fn one(line: Vec<u8>) -> (r: Vec<Vec<u8>>)
    ensures
        contents(r@) == seq![line@],
{
    let mut r = no_lines();
    push_line(&mut r, line);
    r
}

fn print_line(line: Vec<u8>, next: Option<Dump>) -> (step: DumpStep)
    ensures
        step@ == line_only(line@, next),
        step.next == next,
{
    DumpStep { lines: one(line), pause_ms: 0, closing: no_lines(), next }
}

fn two(first: Vec<u8>, second: Vec<u8>) -> (r: Vec<Vec<u8>>)
    ensures
        contents(r@) == seq![first@, second@],
{
    let mut r = no_lines();
    push_line(&mut r, first);
    push_line(&mut r, second);
    r
}

fn read_id(r: &[u8]) -> (id: Option<u64>)
    ensures
        id matches Some(id) ==> told_id(r@) == Some(id as nat),
        id is None ==> told_id(r@) is None,
{
    if !is_utf8(r) {
        return None;
    }
    match strip_prefix(r, "OK software_id=".as_bytes()) {
        Some(rest) => match leading_word(rest) {
            Some(word) => parse_number(word, 10, 0xffff),
            None => None,
        },
        None => None,
    }
}

fn push_kind(out: &mut Vec<u8>, memory: bool)
    ensures
        final(out)@ == old(out)@ + kind_text(memory),
{
    if memory {
        push_text(out, "memory");
    } else {
        push_text(out, "eeprom");
    }
}

impl Dump {
    fn write_begin(&self) -> (r: Vec<u8>)
        ensures
            r@ == self.begin_line(),
    {
        let mut out = text_bytes("SERDUMP BEGIN ");
        push_kind(&mut out, self.memory);
        push_text(&mut out, " key=0x");
        push_hex(&mut out, self.key as u64, 4);
        push_text(&mut out, " start=0x");
        push_hex(&mut out, self.start as u64, 8);
        push_text(&mut out, " end=0x");
        push_hex(&mut out, self.end as u64, 8);
        assert(out@ =~= self.begin_line());
        out
    }

    fn write_end(&self) -> (r: Vec<u8>)
        ensures
            r@ == self.end_line(),
    {
        let mut out = text_bytes("SERDUMP END ");
        push_kind(&mut out, self.memory);
        out
    }

    fn write_data(&self, data: &[u8]) -> (r: Vec<u8>)
        ensures
            r@ == self.data_line(data@),
    {
        let mut out = text_bytes("SERDUMP ");
        push_kind(&mut out, self.memory);
        push_text(&mut out, " ");
        push_hex(&mut out, self.offset as u64, 8);
        push_text(&mut out, " ");
        push_bytes(&mut out, data);
        assert(out@ =~= self.data_line(data@));
        out
    }

    fn write_error(&self, what: &[u8]) -> (r: Vec<u8>)
        ensures
            r@ == self.error_line(what@),
    {
        let mut out = text_bytes("SERDUMP ERROR ");
        push_kind(&mut out, self.memory);
        push_text(&mut out, " 0x");
        push_hex(&mut out, self.offset as u64, 8);
        push_text(&mut out, " ");
        push_bytes(&mut out, what);
        assert(out@ =~= self.error_line(what@));
        out
    }

    /// The command whose response is wanted.
    pub fn request(&self) -> (r: DiagnosticCommand)
        requires
            self.well_formed(),
        ensures
            r == self.command(),
    {
        match self.unit {
            None => DiagnosticCommand::QueryId,
            Some(unit) => if self.memory {
                DiagnosticCommand::ReadMemory16 { key: self.key, address: self.offset }
            } else {
                // The console uses byte offsets.
                let address = if unit == 1 {
                    self.offset
                } else {
                    self.offset / 2
                };
                DiagnosticCommand::ReadEeprom16 { key: self.key, address: address as u16 }
            },
        }
    }

    fn take_id(self, r: &[u8]) -> (step: DumpStep)
        requires
            self.well_formed(),
            self.unit is None,
        ensures
            step@ == self.after(r@),
            step.next matches Some(next) ==> next.well_formed() && next.unit is Some && next.offset
                == self.offset && next.end == self.end,
    {
        let id = match read_id(r) {
            Some(id) => id,
            None => return print_line(text_bytes("SERDIAG ERR query_software_id failed"), None),
        };
        let unit: u32 = if id == 498 {
            1
        } else {
            2
        };
        if self.end > 0x10000 * unit - 1 {
            return print_line(text_bytes("SERDIAG ERR EEPROM byte offset out of range"), None);
        }
        print_line(self.write_begin(), Some(Dump { unit: Some(unit), ..self }))
    }

    /// Takes the response to the wanted command.
    pub fn supply(self, r: &[u8]) -> (step: DumpStep)
        requires
            self.well_formed(),
        ensures
            step@ == self.after(r@),
            step.next matches Some(next) ==> next.well_formed() && (next.offset > self.offset || (
            self.unit is None && next.unit is Some && next.offset == self.offset)) && next.end
                == self.end,
    {
        if self.unit.is_none() {
            return self.take_id(r);
        }
        if !is_utf8(r) {
            return print_line(self.write_error("invalid-response-encoding".as_bytes()), None);
        }
        proof {
            reveal_strlit(" data=");
            is_ascii_spec_bytes(" data=");
        }
        let text = trim_end(r);
        let data = match part_behind(text, " data=".as_bytes()) {
            Some(data) => data,
            None => return print_line(self.write_error(text), None),
        };
        let lines = one(self.write_data(data));
        assert(self.offset + 16 <= self.end + 1);
        let offset = self.offset + 16;
        if offset > self.end {
            let closing = one(self.write_end());
            DumpStep { lines, pause_ms: DUMP_PAUSE_MS, closing, next: None }
        } else {
            let next = Some(Dump { offset, ..self });
            DumpStep { lines, pause_ms: DUMP_PAUSE_MS, closing: no_lines(), next }
        }
    }
}

/// The addresses of the range can be counted to its end: a range that is refused for its
/// start is never counted.
pub open spec fn countable(start: u32, end: u32) -> bool {
    start <= end && start % 16 == 0 ==> end < u32::MAX
}

/// Tells whether a dump of the range can begin.
pub fn can_be_counted(start: u32, end: u32) -> (r: bool)
    ensures
        r == countable(start, end),
{
    start > end || start % 16 != 0 || end < u32::MAX
}

/// Begins a dump of an inclusive range.
pub fn serial_diag_dump(memory: bool, key: u16, start: u32, end: u32) -> (step: DumpStep)
    requires
        countable(start, end),
    ensures
        step@ == dump_begun(memory, key, start, end),
        step.next matches Some(dump) ==> dump.well_formed(),
{
    if start > end || start % 16 != 0 || (end + 1) % 16 != 0 {
        return print_line(
            text_bytes("SERDIAG ERR dump range must be 16-byte aligned and inclusive"),
            None,
        );
    }
    let unit = if memory {
        Some(2)
    } else {
        None
    };
    let dump = Dump { memory, key, start, end, unit, offset: start };
    if memory {
        return print_line(dump.write_begin(), Some(dump));
    }
    DumpStep { lines: no_lines(), pause_ms: 0, closing: no_lines(), next: Some(dump) }
}

/// The blocks of an EEPROM dump follow each other without gap or overlap, and
/// every address fits.
pub proof fn lemma_dump_addresses(d: Dump)
    requires
        d.well_formed(),
        !d.memory,
        d.unit is Some,
    ensures
        d.command() matches DiagnosticCommand::ReadEeprom16 { address, .. } && address
            * d.unit.unwrap() == d.offset,
{
    let unit = d.unit.unwrap();
    let address = if unit == 1 {
        d.offset
    } else {
        d.offset / 2
    };
    assert(address <= 0xffff);
    if unit == 1 {
        assert(address * unit == d.offset) by (nonlinear_arith)
            requires
                unit == 1,
                address == d.offset,
        ;
    } else {
        assert(address * unit == d.offset) by (nonlinear_arith)
            requires
                unit == 2,
                address == d.offset / 2,
                d.offset % 16 == 0,
        ;
    }
}

// ---------------------------------------------------------------------------
// The probe of an unknown appliance
// ---------------------------------------------------------------------------
/// The pause behind each question of a probe.
pub const PROBE_PAUSE_MS: u64 = 100;

/// The last address of the baseline dumps.
pub const BASELINE_END: u32 = 0x3ff;

/// The step of a probe.
#[derive(Clone, Copy, Debug, PartialEq, Eq, Structural)]
pub enum Probe {
    /// Ask for the software ID for the first, second or third time, so that a
    /// marginal optical alignment is visible and not taken for a mismatch.
    Sample(u8),
    /// Try a key of the registry.
    Candidate(usize),
    /// Dump memory with the key that worked.
    Memory(Dump),
    /// Dump EEPROM with the key that worked.
    Eeprom(Dump),
}

/// The lines to print, the pause behind them, the lines to print then, and the
/// probe that goes on, if it does.
#[derive(Debug)]
pub struct ProbeStep {
    pub lines: Vec<Vec<u8>>,
    pub pause_ms: u64,
    pub closing: Vec<Vec<u8>>,
    pub next: Option<Probe>,
}

/// A probe step in the abstract.
pub ghost struct ProbeView {
    pub lines: Seq<Seq<u8>>,
    pub pause_ms: u64,
    pub closing: Seq<Seq<u8>>,
    pub next: Option<Probe>,
}

impl View for ProbeStep {
    type V = ProbeView;

    open spec fn view(&self) -> ProbeView {
        ProbeView {
            lines: contents(self.lines@),
            pause_ms: self.pause_ms,
            closing: contents(self.closing@),
            next: self.next,
        }
    }
}

/// The line for a sample of the software ID.
pub open spec fn sample_line(n: u8, r: Seq<u8>) -> Seq<u8> {
    "SERPROBE ID sample=".spec_bytes() + decimal(n as nat) + " ".spec_bytes() + trimmed_end(r)
}

/// The line for a key that worked.
pub open spec fn key_line(key: u16) -> Seq<u8> {
    "SERPROBE READ_KEY key=0x".spec_bytes() + hex(key as nat, 4) + " result=ok".spec_bytes()
}

/// The line for a key that did not work.
pub open spec fn failed_key_line(key: u16, r: Seq<u8>) -> Seq<u8> {
    "SERPROBE READ_KEY key=0x".spec_bytes() + hex(key as nat, 4) + " result=failed ".spec_bytes() + (
    if valid_utf8(r) {
        "response=".spec_bytes() + trimmed_end(r)
    } else {
        "invalid-response-encoding".spec_bytes()
    })
}

/// The line before the baseline dumps.
pub open spec fn baseline_line(key: u16) -> Seq<u8> {
    "SERPROBE BASELINE key=0x".spec_bytes() + hex(key as nat, 4)
        + " memory=0x0000..0x03ff eeprom-bytes=0x0000..0x03ff".spec_bytes()
}

/// The line that ends a probe with its key.
pub open spec fn probe_end_line(key: u16) -> Seq<u8> {
    "SERPROBE END key=0x".spec_bytes() + hex(key as nat, 4)
}

/// The line that ends a probe without a key.
pub open spec fn no_key_line() -> Seq<u8> {
    "SERPROBE END no-known-read-key; use diag find-read-key only after reviewing the result".spec_bytes()
}

/// The registry key number `i` is tried next, or the probe ends without one.
pub open spec fn try_key(line: Seq<u8>, keys: Seq<ReadKeyCandidate>, i: int) -> ProbeView {
    ProbeView {
        lines: seq![line],
        pause_ms: PROBE_PAUSE_MS,
        closing: if i < keys.len() {
            Seq::empty()
        } else {
            seq![no_key_line()]
        },
        next: if i < keys.len() {
            Some(Probe::Candidate(i as usize))
        } else {
            None
        },
    }
}

impl Probe {
    pub open spec fn well_formed(self, keys: Seq<ReadKeyCandidate>) -> bool {
        match self {
            Probe::Sample(n) => 1 <= n <= 3,
            Probe::Candidate(i) => i < keys.len(),
            Probe::Memory(dump) => dump.well_formed(),
            Probe::Eeprom(dump) => dump.well_formed(),
        }
    }

    /// The command whose response is wanted.
    pub open spec fn command(self, keys: Seq<ReadKeyCandidate>) -> DiagnosticCommand {
        match self {
            Probe::Sample(_) => DiagnosticCommand::QueryId,
            Probe::Candidate(i) => DiagnosticCommand::ReadMemory16 {
                key: keys[i as int].key,
                address: 0,
            },
            Probe::Memory(dump) => dump.command(),
            Probe::Eeprom(dump) => dump.command(),
        }
    }

    /// What comes after a response.
    pub open spec fn after(self, keys: Seq<ReadKeyCandidate>, r: Seq<u8>) -> ProbeView {
        match self {
            Probe::Sample(n) => if !valid_utf8(r) {
                ProbeView {
                    lines: seq!["SERPROBE ERROR invalid ID response encoding".spec_bytes()],
                    pause_ms: 0,
                    closing: Seq::empty(),
                    next: None,
                }
            } else if n < 3 {
                ProbeView {
                    lines: seq![sample_line(n, r)],
                    pause_ms: PROBE_PAUSE_MS,
                    closing: Seq::empty(),
                    next: Some(Probe::Sample((n + 1) as u8)),
                }
            } else {
                try_key(sample_line(n, r), keys, 0)
            },
            Probe::Candidate(i) => {
                let key = keys[i as int].key;
                if has_prefix(r, "OK ".spec_bytes()) {
                    let begun = dump_begun(true, key, 0, BASELINE_END);
                    ProbeView {
                        lines: seq![key_line(key), baseline_line(key)] + begun.lines,
                        pause_ms: 0,
                        closing: Seq::empty(),
                        next: Some(Probe::Memory(begun.next.unwrap())),
                    }
                } else {
                    try_key(failed_key_line(key, r), keys, i + 1)
                }
            },
            Probe::Memory(dump) => {
                let step = dump.after(r);
                ProbeView {
                    lines: step.lines,
                    pause_ms: step.pause_ms,
                    closing: step.closing,
                    next: Some(
                        match step.next {
                            Some(next) => Probe::Memory(next),
                            None => Probe::Eeprom(
                                dump_begun(false, dump.key, 0, BASELINE_END).next.unwrap(),
                            ),
                        },
                    ),
                }
            },
            Probe::Eeprom(dump) => {
                let step = dump.after(r);
                match step.next {
                    Some(next) => ProbeView {
                        lines: step.lines,
                        pause_ms: step.pause_ms,
                        closing: step.closing,
                        next: Some(Probe::Eeprom(next)),
                    },
                    None => ProbeView {
                        lines: step.lines,
                        pause_ms: step.pause_ms,
                        closing: step.closing.push(probe_end_line(dump.key)),
                        next: None,
                    },
                }
            },
        }
    }
}

fn write_sample(n: u8, r: &[u8]) -> (line: Vec<u8>)
    ensures
        line@ == sample_line(n, r@),
{
    let mut out = text_bytes("SERPROBE ID sample=");
    push_decimal(&mut out, n as u64);
    push_text(&mut out, " ");
    push_bytes(&mut out, trim_end(r));
    out
}

fn write_key(prefix: &str, key: u16, suffix: &str) -> (line: Vec<u8>)
    ensures
        line@ == prefix.spec_bytes() + hex(key as nat, 4) + suffix.spec_bytes(),
{
    let mut out = text_bytes(prefix);
    push_hex(&mut out, key as u64, 4);
    push_text(&mut out, suffix);
    out
}

fn write_failed_key(key: u16, r: &[u8]) -> (line: Vec<u8>)
    ensures
        line@ == failed_key_line(key, r@),
{
    let mut out = write_key("SERPROBE READ_KEY key=0x", key, " result=failed ");
    if is_utf8(r) {
        push_text(&mut out, "response=");
        push_bytes(&mut out, trim_end(r));
    } else {
        push_text(&mut out, "invalid-response-encoding");
    }
    assert(out@ =~= failed_key_line(key, r@));
    out
}

fn go_to_key(line: Vec<u8>, keys: &[ReadKeyCandidate], i: usize) -> (r: ProbeStep)
    requires
        i <= keys@.len(),
    ensures
        r@ == try_key(line@, keys@, i as int),
        r.next matches Some(next) ==> next.well_formed(keys@),
{
    if i < keys.len() {
        ProbeStep {
            lines: one(line),
            pause_ms: PROBE_PAUSE_MS,
            closing: no_lines(),
            next: Some(Probe::Candidate(i)),
        }
    } else {
        ProbeStep {
            lines: one(line),
            pause_ms: PROBE_PAUSE_MS,
            closing: one(
                text_bytes(
                    "SERPROBE END no-known-read-key; use diag find-read-key only after reviewing the result",
                ),
            ),
            next: None,
        }
    }
}

impl Probe {
    /// The command whose response is wanted.
    pub fn request(&self, keys: &[ReadKeyCandidate]) -> (r: DiagnosticCommand)
        requires
            self.well_formed(keys@),
        ensures
            r == self.command(keys@),
    {
        match self {
            Probe::Sample(_) => DiagnosticCommand::QueryId,
            Probe::Candidate(i) => DiagnosticCommand::ReadMemory16 {
                key: keys[*i].key,
                address: 0,
            },
            Probe::Memory(dump) => dump.request(),
            Probe::Eeprom(dump) => dump.request(),
        }
    }

    fn found(keys: &[ReadKeyCandidate], i: usize) -> (r: ProbeStep)
        requires
            i < keys@.len(),
        ensures
            forall|text: Seq<u8>|
                has_prefix(text, "OK ".spec_bytes()) ==> r@ == #[trigger] Probe::Candidate(i).after(
                    keys@,
                    text,
                ),
            r.next matches Some(next) ==> next.well_formed(keys@),
    {
        let key = keys[i].key;
        let step = serial_diag_dump(true, key, 0, BASELINE_END);
        let mut lines = two(
            write_key("SERPROBE READ_KEY key=0x", key, " result=ok"),
            write_key(
                "SERPROBE BASELINE key=0x",
                key,
                " memory=0x0000..0x03ff eeprom-bytes=0x0000..0x03ff",
            ),
        );
        let ghost head = lines@;
        let mut more = step.lines;
        let ghost rest = more@;
        lines.append(&mut more);
        assert(contents(lines@) =~= contents(head) + contents(rest));
        let next = match step.next {
            Some(dump) => Some(Probe::Memory(dump)),
            None => None,
        };
        ProbeStep { lines, pause_ms: 0, closing: no_lines(), next }
    }

    fn take_sample(n: u8, keys: &[ReadKeyCandidate], r: &[u8]) -> (step: ProbeStep)
        requires
            1 <= n <= 3,
        ensures
            step@ == Probe::Sample(n).after(keys@, r@),
            step.next matches Some(next) ==> next.well_formed(keys@),
    {
        if !is_utf8(r) {
            return ProbeStep {
                lines: one(text_bytes("SERPROBE ERROR invalid ID response encoding")),
                pause_ms: 0,
                closing: no_lines(),
                next: None,
            };
        }
        let line = write_sample(n, r);
        if n < 3 {
            return ProbeStep {
                lines: one(line),
                pause_ms: PROBE_PAUSE_MS,
                closing: no_lines(),
                next: Some(Probe::Sample(n + 1)),
            };
        }
        go_to_key(line, keys, 0)
    }

    fn take_memory(dump: Dump, keys: &[ReadKeyCandidate], r: &[u8]) -> (step: ProbeStep)
        requires
            dump.well_formed(),
        ensures
            step@ == Probe::Memory(dump).after(keys@, r@),
            step.next matches Some(next) ==> next.well_formed(keys@),
    {
        let step = dump.supply(r);
        let next = match step.next {
            Some(next) => Some(Probe::Memory(next)),
            None => match serial_diag_dump(false, dump.key, 0, BASELINE_END).next {
                Some(dump) => Some(Probe::Eeprom(dump)),
                None => None,
            },
        };
        ProbeStep { lines: step.lines, pause_ms: step.pause_ms, closing: step.closing, next }
    }

    fn take_eeprom(dump: Dump, keys: &[ReadKeyCandidate], r: &[u8]) -> (step: ProbeStep)
        requires
            dump.well_formed(),
        ensures
            step@ == Probe::Eeprom(dump).after(keys@, r@),
            step.next matches Some(next) ==> next.well_formed(keys@),
    {
        let step = dump.supply(r);
        match step.next {
            Some(next) => ProbeStep {
                lines: step.lines,
                pause_ms: step.pause_ms,
                closing: step.closing,
                next: Some(Probe::Eeprom(next)),
            },
            None => {
                let mut line = text_bytes("SERPROBE END key=0x");
                push_hex(&mut line, dump.key as u64, 4);
                let mut closing = step.closing;
                push_line(&mut closing, line);
                ProbeStep { lines: step.lines, pause_ms: step.pause_ms, closing, next: None }
            },
        }
    }

    /// Takes the response to the wanted command.
    pub fn supply(self, keys: &[ReadKeyCandidate], r: &[u8]) -> (step: ProbeStep)
        requires
            self.well_formed(keys@),
        ensures
            step@ == self.after(keys@, r@),
            step.next matches Some(next) ==> next.well_formed(keys@),
    {
        match self {
            Probe::Sample(n) => Probe::take_sample(n, keys, r),
            Probe::Candidate(i) => {
                if starts_with(r, "OK ".as_bytes()) {
                    return Probe::found(keys, i);
                }
                let line = write_failed_key(keys[i].key, r);
                go_to_key(line, keys, i + 1)
            },
            Probe::Memory(dump) => Probe::take_memory(dump, keys, r),
            Probe::Eeprom(dump) => Probe::take_eeprom(dump, keys, r),
        }
    }
}

/// Begins the probe of an unknown appliance: the line to print, and the first
/// question.
pub fn serial_diag_probe_unknown() -> (r: (&'static str, Probe))
    ensures
        r == ("SERPROBE BEGIN read-only", Probe::Sample(1)),
{
    ("SERPROBE BEGIN read-only", Probe::Sample(1))
}

/// A probe asks for nothing but the software ID and reads.
pub proof fn lemma_probe_only_reads(p: Probe, keys: Seq<ReadKeyCandidate>)
    ensures
        p.command(keys) is QueryId || p.command(keys) is ReadMemory16 || p.command(keys)
            is ReadEeprom16,
{
}

} // verus!
