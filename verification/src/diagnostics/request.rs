//! The diagnostic request over TCP.

use super::command::{eeprom_arguments, eeprom_arguments_of, is_scan_name, memory_arguments};
use super::command::{memory_arguments_of, names_scan, parse_scan_command, scan_command};
use super::command::DiagnosticCommand;
use crate::header::{header_line, HeaderError, HeaderReader};
use crate::text::{contents, fields, fields_behind, is_text, same_bytes, split_fields};
use vstd::prelude::*;
use vstd::string::*;
use vstd::utf8::*;

verus! {

/// Why a diagnostic request is refused.
#[derive(Clone, Copy, Debug, PartialEq, Eq, Structural)]
pub enum RequestError {
    Malformed,
    Encoding,
    Token,
    Usage,
}

impl RequestError {
    /// The answer to a refused request.
    pub open spec fn text(self) -> &'static str {
        match self {
            RequestError::Malformed => "ERR malformed request\n",
            RequestError::Encoding => "ERR request encoding\n",
            RequestError::Token => "ERR invalid token\n",
            RequestError::Usage =>
                "ERR usage: id | find-read-key START END | mem16 KEY ADDR | eeprom16 KEY ADDR\n",
        }
    }

    /// The answer to a refused request.
    pub fn answer(self) -> (r: &'static str)
        ensures
            r == self.text(),
    {
        match self {
            RequestError::Malformed => "ERR malformed request\n",
            RequestError::Encoding => "ERR request encoding\n",
            RequestError::Token => "ERR invalid token\n",
            RequestError::Usage =>
                "ERR usage: id | find-read-key START END | mem16 KEY ADDR | eeprom16 KEY ADDR\n",
        }
    }
}

/// The command that the fields of a request write behind the token.
pub open spec fn network_command(f: Seq<Seq<u8>>) -> Option<DiagnosticCommand> {
    if f.len() == 0 {
        None
    } else {
        let name = f[0];
        let args = f.skip(1);
        if is_scan_name(name) {
            scan_command(name, args)
        } else if name == "id".spec_bytes() {
            if args.len() == 0 {
                Some(DiagnosticCommand::QueryId)
            } else {
                None
            }
        } else if name == "max-baud".spec_bytes() {
            if args.len() == 0 {
                Some(DiagnosticCommand::QueryMaxBaud)
            } else {
                None
            }
        } else if name == "mem16".spec_bytes() {
            match memory_arguments(args) {
                Some((key, address)) => Some(DiagnosticCommand::ReadMemory16 { key, address }),
                None => None,
            }
        } else if name == "mem128".spec_bytes() {
            match memory_arguments(args) {
                Some((key, address)) => Some(DiagnosticCommand::ReadMemory128 { key, address }),
                None => None,
            }
        } else if name == "eeprom1".spec_bytes() {
            match eeprom_arguments(args) {
                Some((key, address)) => Some(DiagnosticCommand::ReadEeprom1 { key, address }),
                None => None,
            }
        } else if name == "eeprom16".spec_bytes() {
            match eeprom_arguments(args) {
                Some((key, address)) => if address <= 0xfff0 {
                    Some(DiagnosticCommand::ReadEeprom16 { key, address })
                } else {
                    None
                },
                None => None,
            }
        } else if name == "eeprom128".spec_bytes() {
            match eeprom_arguments(args) {
                Some((key, address)) => if address <= 0xff80 {
                    Some(DiagnosticCommand::ReadEeprom128 { key, address })
                } else {
                    None
                },
                None => None,
            }
        } else {
            None
        }
    }
}

/// The command that a request line carries for the holder of `token`.
pub open spec fn request_command(line: Seq<u8>, token: Seq<u8>) -> Result<
    DiagnosticCommand,
    RequestError,
> {
    let f = fields(line);
    if f.len() < 2 || f[0] != "FMDUDIAG1".spec_bytes() || f[1] != token {
        Err(RequestError::Token)
    } else {
        match network_command(f.skip(2)) {
            Some(command) => Ok(command),
            None => Err(RequestError::Usage),
        }
    }
}

/// The command that a request header carries for the holder of `token`.
pub open spec fn header_command(header: Seq<u8>, token: Seq<u8>) -> Result<
    DiagnosticCommand,
    RequestError,
> {
    match header_line(header) {
        Ok(line) => request_command(line, token),
        Err(HeaderError::Malformed) => Err(RequestError::Malformed),
        Err(HeaderError::Encoding) => Err(RequestError::Encoding),
    }
}

fn parse_network_command(f: &[Vec<u8>]) -> (r: Option<DiagnosticCommand>)
    ensures
        r == network_command(contents(f@)),
{
    if f.len() == 0 {
        return None;
    }
    let name = f[0].as_slice();
    let args = fields_behind(f, 1);
    if names_scan(name) {
        return parse_scan_command(name, args);
    }
    if is_text(name, "id") {
        return if args.len() == 0 {
            Some(DiagnosticCommand::QueryId)
        } else {
            None
        };
    }
    if is_text(name, "max-baud") {
        return if args.len() == 0 {
            Some(DiagnosticCommand::QueryMaxBaud)
        } else {
            None
        };
    }
    if is_text(name, "mem16") {
        return match memory_arguments_of(args) {
            Some((key, address)) => Some(DiagnosticCommand::ReadMemory16 { key, address }),
            None => None,
        };
    }
    if is_text(name, "mem128") {
        return match memory_arguments_of(args) {
            Some((key, address)) => Some(DiagnosticCommand::ReadMemory128 { key, address }),
            None => None,
        };
    }
    if is_text(name, "eeprom1") {
        return match eeprom_arguments_of(args) {
            Some((key, address)) => Some(DiagnosticCommand::ReadEeprom1 { key, address }),
            None => None,
        };
    }
    if is_text(name, "eeprom16") {
        return match eeprom_arguments_of(args) {
            Some((key, address)) => if address <= 0xfff0 {
                Some(DiagnosticCommand::ReadEeprom16 { key, address })
            } else {
                None
            },
            None => None,
        };
    }
    if is_text(name, "eeprom128") {
        return match eeprom_arguments_of(args) {
            Some((key, address)) => if address <= 0xff80 {
                Some(DiagnosticCommand::ReadEeprom128 { key, address })
            } else {
                None
            },
            None => None,
        };
    }
    None
}

/// Reads the request that a header carries.
pub fn diagnostic_request(header: &HeaderReader, token: &[u8]) -> (r: Result<
    DiagnosticCommand,
    RequestError,
>)
    ensures
        r == header_command(header.read(), token@),
{
    let line = match header.finish() {
        Ok(line) => line,
        Err(HeaderError::Malformed) => return Err(RequestError::Malformed),
        Err(HeaderError::Encoding) => return Err(RequestError::Encoding),
    };
    let f = split_fields(line.as_slice());
    let ghost all = contents(f@);
    assert(all == fields(line@));
    if f.len() < 2 || !is_text(f[0].as_slice(), "FMDUDIAG1") || !same_bytes(
        f[1].as_slice(),
        token,
    ) {
        return Err(RequestError::Token);
    }
    assert(all[0] == f@[0]@ && all[1] == f@[1]@);
    match parse_network_command(fields_behind(f.as_slice(), 2)) {
        Some(command) => Ok(command),
        None => Err(RequestError::Usage),
    }
}

/// The command is answered at once, without its turn at the port.
pub open spec fn immediate(command: DiagnosticCommand) -> bool {
    command == DiagnosticCommand::ScanStatus
}

/// Tells whether a command is answered at once, without its turn at the port.
pub fn answered_at_once(command: DiagnosticCommand) -> (r: bool)
    ensures
        r == immediate(command),
{
    match command {
        DiagnosticCommand::ScanStatus => true,
        _ => false,
    }
}

/// Without the token no command is read, whatever else the line says.
pub proof fn lemma_token_is_needed(line: Seq<u8>, token: Seq<u8>)
    requires
        request_command(line, token) is Ok,
    ensures
        fields(line).len() >= 3,
        fields(line)[1] == token,
{
}

/// The reads that a network request can ask for stay within the address space,
/// block by block.
pub proof fn lemma_network_eeprom_reads_fit(line: Seq<u8>, token: Seq<u8>)
    ensures
        request_command(line, token) matches Ok(DiagnosticCommand::ReadEeprom16 { address, .. })
            ==> address + 0x10 <= 0x10000,
        request_command(line, token) matches Ok(DiagnosticCommand::ReadEeprom128 { address, .. })
            ==> address + 8 * 0x10 <= 0x10000,
{
}

} // verus!
