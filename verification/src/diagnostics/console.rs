//! The serial console: its line editor and its command lines.

use super::command::{argument, argument_of, eeprom_arguments, eeprom_arguments_of, is_scan_name};
use super::command::{memory_arguments, memory_arguments_of, names_scan, parse_scan_command};
use super::command::{scan_command, wide_argument, wide_argument_of, DiagnosticCommand};
use crate::text::{contents, copy_of, fields, fields_behind, is_text, is_utf8, push_bytes};
use crate::text::{split_fields, text_bytes, trim_end, trimmed_end};
use vstd::prelude::*;
use vstd::string::*;
use vstd::utf8::*;

verus! {

// ---------------------------------------------------------------------------
// The line editor
// ---------------------------------------------------------------------------
/// The longest command line.
pub const CONSOLE_LINE: usize = 160;

/// What a byte from the terminal comes to.
#[derive(Debug)]
pub enum EditEvent {
    /// Nothing is to be done.
    Pending,
    /// This command line is complete.
    Line(Vec<u8>),
    /// The line was dropped, and this is to be printed.
    Complain(&'static str),
}

/// What a byte comes to, in the abstract.
pub ghost enum EditView {
    Pending,
    Line(Seq<u8>),
    Complain(&'static str),
}

impl View for EditEvent {
    type V = EditView;

    open spec fn view(&self) -> EditView {
        match *self {
            EditEvent::Pending => EditView::Pending,
            EditEvent::Line(line) => EditView::Line(line@),
            EditEvent::Complain(text) => EditView::Complain(text),
        }
    }
}

/// The line and the event after a byte: a line feed completes a line that is not
/// empty, a carriage return is passed over, backspace and delete remove a byte,
/// and a line that grows too long is dropped.
pub open spec fn edited(line: Seq<u8>, b: u8) -> (Seq<u8>, EditView) {
    if b == 13 {
        (line, EditView::Pending)
    } else if b == 10 {
        if line.len() == 0 {
            (line, EditView::Pending)
        } else if valid_utf8(line) {
            (Seq::empty(), EditView::Line(line))
        } else {
            (Seq::empty(), EditView::Complain("SERDIAG ERR command is not UTF-8"))
        }
    } else if b == 8 || b == 127 {
        if line.len() == 0 {
            (line, EditView::Pending)
        } else {
            (line.drop_last(), EditView::Pending)
        }
    } else if line.len() < CONSOLE_LINE {
        (line.push(b), EditView::Pending)
    } else {
        (Seq::empty(), EditView::Complain("SERDIAG ERR command line too long"))
    }
}

/// A command line being typed.
#[derive(Debug)]
pub struct LineEditor {
    line: Vec<u8>,
}

impl View for LineEditor {
    type V = Seq<u8>;

    closed spec fn view(&self) -> Seq<u8> {
        self.line@
    }
}

impl LineEditor {
    /// An empty line.
    pub fn new() -> (r: LineEditor)
        ensures
            r@ == Seq::<u8>::empty(),
    {
        LineEditor { line: Vec::new() }
    }

    /// Takes a byte from the terminal.
    pub fn push(&mut self, b: u8) -> (r: EditEvent)
        ensures
            final(self)@ == edited(old(self)@, b).0,
            r@ == edited(old(self)@, b).1,
    {
        if b == 13 {
            return EditEvent::Pending;
        }
        if b == 10 {
            if self.line.len() == 0 {
                return EditEvent::Pending;
            }
            let line = copy_of(self.line.as_slice());
            self.line = Vec::new();
            assert(self.line@ =~= Seq::<u8>::empty());
            if is_utf8(line.as_slice()) {
                return EditEvent::Line(line);
            }
            return EditEvent::Complain("SERDIAG ERR command is not UTF-8");
        }
        if b == 8 || b == 127 {
            if self.line.len() > 0 {
                let _ = self.line.pop();
                assert(self.line@ =~= old(self)@.drop_last());
            }
            return EditEvent::Pending;
        }
        if self.line.len() < CONSOLE_LINE {
            self.line.push(b);
            return EditEvent::Pending;
        }
        self.line = Vec::new();
        assert(self.line@ =~= Seq::<u8>::empty());
        EditEvent::Complain("SERDIAG ERR command line too long")
    }
}

// ---------------------------------------------------------------------------
// Command lines
// ---------------------------------------------------------------------------
/// What a command line asks for.
#[derive(Clone, Copy, Debug)]
pub enum ConsoleAction {
    /// Nothing: the line is not for the console.
    Ignore,
    /// Print this line.
    Print(&'static str),
    /// Execute a command and print its response.
    Run(DiagnosticCommand),
    /// Probe an unknown appliance.
    Probe,
    /// Dump a range of memory or EEPROM.
    Dump { memory: bool, key: u16, start: u32, end: u32 },
}

/// The help of the console.
pub open spec fn console_usage() -> &'static str {
    "SERDIAG usage: diag id | diag mem16 KEY ADDR | diag eeprom16 KEY WORD_ADDR | diag dump-memory KEY START END | diag dump-eeprom KEY BYTE_START BYTE_END | diag find-read-key START END [TIMEOUT_MS] | diag max-baud | diag probe"
}

/// A key and a 32-bit range, and nothing else.
pub open spec fn dump_arguments(args: Seq<Seq<u8>>) -> Option<(u16, u32, u32)> {
    let key = argument(args, 0, None);
    let start = wide_argument(args, 1);
    let end = wide_argument(args, 2);
    if args.len() == 3 && key is Some && start is Some && end is Some {
        Some((key.unwrap() as u16, start.unwrap() as u32, end.unwrap() as u32))
    } else {
        None
    }
}

/// What the fields of a command line ask for behind the word `diag`.
pub open spec fn console_command(f: Seq<Seq<u8>>) -> ConsoleAction {
    if f.len() == 0 || f[0] == "help".spec_bytes() {
        ConsoleAction::Print(console_usage())
    } else {
        let name = f[0];
        let args = f.skip(1);
        if is_scan_name(name) {
            match scan_command(name, args) {
                Some(command) => ConsoleAction::Run(command),
                None => ConsoleAction::Print("SERDIAG ERR invalid scan command"),
            }
        } else if name == "id".spec_bytes() && args.len() == 0 {
            ConsoleAction::Run(DiagnosticCommand::QueryId)
        } else if name == "max-baud".spec_bytes() && args.len() == 0 {
            ConsoleAction::Run(DiagnosticCommand::QueryMaxBaud)
        } else if name == "probe".spec_bytes() && args.len() == 0 {
            ConsoleAction::Probe
        } else if name == "mem16".spec_bytes() {
            match memory_arguments(args) {
                Some((key, address)) => ConsoleAction::Run(
                    DiagnosticCommand::ReadMemory16 { key, address },
                ),
                None => ConsoleAction::Print("SERDIAG ERR usage: diag mem16 KEY ADDR"),
            }
        } else if name == "eeprom1".spec_bytes() {
            match eeprom_arguments(args) {
                Some((key, address)) => ConsoleAction::Run(
                    DiagnosticCommand::ReadEeprom1 { key, address },
                ),
                None => ConsoleAction::Print("SERDIAG ERR usage: diag eeprom1 KEY ADDR"),
            }
        } else if name == "eeprom16".spec_bytes() {
            match eeprom_arguments(args) {
                Some((key, address)) => ConsoleAction::Run(
                    DiagnosticCommand::ReadEeprom16 { key, address },
                ),
                None => ConsoleAction::Print("SERDIAG ERR usage: diag eeprom16 KEY WORD_ADDR"),
            }
        } else if name == "dump-memory".spec_bytes() {
            match dump_arguments(args) {
                Some((key, start, end)) => ConsoleAction::Dump { memory: true, key, start, end },
                None => ConsoleAction::Print("SERDIAG ERR usage: diag dump-memory KEY START END"),
            }
        } else if name == "dump-eeprom".spec_bytes() {
            match dump_arguments(args) {
                Some((key, start, end)) => ConsoleAction::Dump { memory: false, key, start, end },
                None => ConsoleAction::Print(
                    "SERDIAG ERR usage: diag dump-eeprom KEY BYTE_START BYTE_END",
                ),
            }
        } else {
            ConsoleAction::Print("SERDIAG ERR unknown command; type: diag help")
        }
    }
}

/// What a command line asks for.
pub open spec fn console_line(line: Seq<u8>) -> ConsoleAction {
    let f = fields(line);
    if f.len() == 0 || f[0] != "diag".spec_bytes() {
        ConsoleAction::Ignore
    } else {
        console_command(f.skip(1))
    }
}

fn dump_arguments_of(args: &[Vec<u8>]) -> (r: Option<(u16, u32, u32)>)
    ensures
        r == dump_arguments(contents(args@)),
{
    match (argument_of(args, 0, None), wide_argument_of(args, 1), wide_argument_of(args, 2)) {
        (Some(key), Some(start), Some(end)) => if args.len() == 3 {
            Some((key, start, end))
        } else {
            None
        },
        _ => None,
    }
}

fn read_console_command(f: &[Vec<u8>]) -> (r: ConsoleAction)
    ensures
        r == console_command(contents(f@)),
{
    if f.len() == 0 || is_text(f[0].as_slice(), "help") {
        return ConsoleAction::Print(
            "SERDIAG usage: diag id | diag mem16 KEY ADDR | diag eeprom16 KEY WORD_ADDR | diag dump-memory KEY START END | diag dump-eeprom KEY BYTE_START BYTE_END | diag find-read-key START END [TIMEOUT_MS] | diag max-baud | diag probe",
        );
    }
    let name = f[0].as_slice();
    let args = fields_behind(f, 1);
    if names_scan(name) {
        return match parse_scan_command(name, args) {
            Some(command) => ConsoleAction::Run(command),
            None => ConsoleAction::Print("SERDIAG ERR invalid scan command"),
        };
    }
    if is_text(name, "id") && args.len() == 0 {
        return ConsoleAction::Run(DiagnosticCommand::QueryId);
    }
    if is_text(name, "max-baud") && args.len() == 0 {
        return ConsoleAction::Run(DiagnosticCommand::QueryMaxBaud);
    }
    if is_text(name, "probe") && args.len() == 0 {
        return ConsoleAction::Probe;
    }
    if is_text(name, "mem16") {
        return match memory_arguments_of(args) {
            Some((key, address)) => ConsoleAction::Run(
                DiagnosticCommand::ReadMemory16 { key, address },
            ),
            None => ConsoleAction::Print("SERDIAG ERR usage: diag mem16 KEY ADDR"),
        };
    }
    if is_text(name, "eeprom1") {
        return match eeprom_arguments_of(args) {
            Some((key, address)) => ConsoleAction::Run(
                DiagnosticCommand::ReadEeprom1 { key, address },
            ),
            None => ConsoleAction::Print("SERDIAG ERR usage: diag eeprom1 KEY ADDR"),
        };
    }
    if is_text(name, "eeprom16") {
        return match eeprom_arguments_of(args) {
            Some((key, address)) => ConsoleAction::Run(
                DiagnosticCommand::ReadEeprom16 { key, address },
            ),
            None => ConsoleAction::Print("SERDIAG ERR usage: diag eeprom16 KEY WORD_ADDR"),
        };
    }
    if is_text(name, "dump-memory") {
        return match dump_arguments_of(args) {
            Some((key, start, end)) => ConsoleAction::Dump { memory: true, key, start, end },
            None => ConsoleAction::Print("SERDIAG ERR usage: diag dump-memory KEY START END"),
        };
    }
    if is_text(name, "dump-eeprom") {
        return match dump_arguments_of(args) {
            Some((key, start, end)) => ConsoleAction::Dump { memory: false, key, start, end },
            None => ConsoleAction::Print(
                "SERDIAG ERR usage: diag dump-eeprom KEY BYTE_START BYTE_END",
            ),
        };
    }
    ConsoleAction::Print("SERDIAG ERR unknown command; type: diag help")
}

/// Reads a command line.
pub fn handle_serial_diag_line(line: &[u8]) -> (r: ConsoleAction)
    ensures
        r == console_line(line@),
{
    let f = split_fields(line);
    let ghost all = contents(f@);
    assert(all == fields(line@));
    if f.len() == 0 || !is_text(f[0].as_slice(), "diag") {
        return ConsoleAction::Ignore;
    }
    assert(all[0] == f@[0]@);
    read_console_command(fields_behind(f.as_slice(), 1))
}

/// The console's line for a response.
pub open spec fn response_line(r: Seq<u8>) -> Seq<u8> {
    if valid_utf8(r) {
        "SERDIAG ".spec_bytes() + trimmed_end(r)
    } else {
        "SERDIAG ERR invalid response encoding".spec_bytes()
    }
}

/// Writes the console's line for a response.
pub fn serial_diag_print_response(r: &[u8]) -> (line: Vec<u8>)
    ensures
        line@ == response_line(r@),
{
    if !is_utf8(r) {
        return text_bytes("SERDIAG ERR invalid response encoding");
    }
    let mut out = text_bytes("SERDIAG ");
    push_bytes(&mut out, trim_end(r));
    out
}

} // verus!
