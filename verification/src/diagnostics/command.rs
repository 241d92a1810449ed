//! The diagnostic commands, their numbers and the scan commands among them.

use crate::keyscan::State;
use crate::text::{contents, has_prefix, is_text, number, parse_number, starts_with};
use vstd::prelude::*;
use vstd::string::*;
use vstd::utf8::*;

verus! {

/// A diagnostic command. Reads name the key that unlocks them.
#[allow(inconsistent_fields)]
#[derive(Clone, Copy, Debug, PartialEq, Eq, Structural)]
pub enum DiagnosticCommand {
    QueryId,
    QueryMaxBaud,
    ScanStatus,
    ScanPause,
    ScanResume,
    ScanReset,
    PartitionInstall,
    ScanStart { start: u16, end: u16, timeout_ms: u16, maximum_ms: u16 },
    ReadMemory16 { key: u16, address: u32 },
    ReadMemory128 { key: u16, address: u32 },
    ReadEeprom1 { key: u16, address: u16 },
    ReadEeprom16 { key: u16, address: u16 },
    ReadEeprom128 { key: u16, address: u16 },
}

// ---------------------------------------------------------------------------
// Numbers
// ---------------------------------------------------------------------------
/// The number that `s` writes, hexadecimal behind `0x` or `0X` and decimal
/// otherwise, if it is at most `max`.
pub open spec fn diag_number(s: Seq<u8>, max: nat) -> Option<nat> {
    if has_prefix(s, "0x".spec_bytes()) || has_prefix(s, "0X".spec_bytes()) {
        number(s.skip(2), 16, max)
    } else {
        number(s, 10, max)
    }
}

fn parse_diag(value: &[u8], max: u64) -> (r: Option<u64>)
    requires
        max <= 0xffff_ffff,
    ensures
        r matches Some(n) ==> diag_number(value@, max as nat) == Some(n as nat) && n <= max,
        r is None ==> diag_number(value@, max as nat) is None,
{
    proof {
        reveal_strlit("0x");
        reveal_strlit("0X");
        is_ascii_spec_bytes("0x");
        is_ascii_spec_bytes("0X");
    }
    if starts_with(value, "0x".as_bytes()) || starts_with(value, "0X".as_bytes()) {
        let rest = vstd::slice::slice_subrange(value, 2, value.len());
        assert(rest@ =~= value@.skip(2));
        parse_number(rest, 16, max)
    } else {
        parse_number(value, 10, max)
    }
}

/// Reads a 16-bit number.
pub fn parse_diag_u16(value: &[u8]) -> (r: Option<u16>)
    ensures
        r matches Some(n) ==> diag_number(value@, 0xffff) == Some(n as nat),
        r is None ==> diag_number(value@, 0xffff) is None,
{
    match parse_diag(value, 0xffff) {
        Some(n) => Some(n as u16),
        None => None,
    }
}

/// Reads a 32-bit number.
pub fn parse_diag_u32(value: &[u8]) -> (r: Option<u32>)
    ensures
        r matches Some(n) ==> diag_number(value@, 0xffff_ffff) == Some(n as nat),
        r is None ==> diag_number(value@, 0xffff_ffff) is None,
{
    match parse_diag(value, 0xffff_ffff) {
        Some(n) => Some(n as u32),
        None => None,
    }
}

// ---------------------------------------------------------------------------
// Scan commands
// ---------------------------------------------------------------------------
/// `name` is that of a scan command.
pub open spec fn is_scan_name(name: Seq<u8>) -> bool {
    ||| name == "find-read-key".spec_bytes()
    ||| name == "scan-start".spec_bytes()
    ||| name == "scan-status".spec_bytes()
    ||| name == "scan-pause".spec_bytes()
    ||| name == "scan-resume".spec_bytes()
    ||| name == "scan-reset".spec_bytes()
    ||| name == "partition-install".spec_bytes()
}

/// The 16-bit argument `i`, or a default where there is none.
pub open spec fn argument(args: Seq<Seq<u8>>, i: int, default: Option<nat>) -> Option<nat> {
    if i < args.len() {
        diag_number(args[i], 0xffff)
    } else {
        default
    }
}

/// The command to start a scan: start and end, then optionally the initial and
/// the maximum timeout.
pub open spec fn start_command(args: Seq<Seq<u8>>) -> Option<DiagnosticCommand> {
    let start = argument(args, 0, None);
    let end = argument(args, 1, None);
    let timeout = argument(args, 2, Some(100));
    let maximum = argument(args, 3, Some(500));
    if args.len() <= 4 && start is Some && end is Some && timeout is Some && maximum is Some
        && State::valid_parameters(
        start.unwrap() as u16,
        end.unwrap() as u16,
        timeout.unwrap() as u16,
        maximum.unwrap() as u16,
    ) {
        Some(
            DiagnosticCommand::ScanStart {
                start: start.unwrap() as u16,
                end: end.unwrap() as u16,
                timeout_ms: timeout.unwrap() as u16,
                maximum_ms: maximum.unwrap() as u16,
            },
        )
    } else {
        None
    }
}

/// The scan command that a name and its arguments write.
pub open spec fn scan_command(name: Seq<u8>, args: Seq<Seq<u8>>) -> Option<DiagnosticCommand> {
    if name == "scan-start".spec_bytes() || name == "find-read-key".spec_bytes() {
        start_command(args)
    } else if args.len() > 0 {
        None
    } else if name == "scan-status".spec_bytes() {
        Some(DiagnosticCommand::ScanStatus)
    } else if name == "scan-pause".spec_bytes() {
        Some(DiagnosticCommand::ScanPause)
    } else if name == "scan-resume".spec_bytes() {
        Some(DiagnosticCommand::ScanResume)
    } else if name == "scan-reset".spec_bytes() {
        Some(DiagnosticCommand::ScanReset)
    } else if name == "partition-install".spec_bytes() {
        Some(DiagnosticCommand::PartitionInstall)
    } else {
        None
    }
}

pub(crate) fn argument_of(args: &[Vec<u8>], i: usize, default: Option<u16>) -> (r: Option<u16>)
    ensures
        argument(
            contents(args@),
            i as int,
            match default {
                Some(n) => Some(n as nat),
                None => None,
            },
        ) == match r {
            Some(n) => Some(n as nat),
            None => None,
        },
{
    if i < args.len() {
        parse_diag_u16(args[i].as_slice())
    } else {
        default
    }
}

/// Tells whether a name is that of a scan command.
pub(crate) fn names_scan(name: &[u8]) -> (r: bool)
    ensures
        r == is_scan_name(name@),
{
    is_text(name, "find-read-key") || is_text(name, "scan-start") || is_text(name, "scan-status")
        || is_text(name, "scan-pause") || is_text(name, "scan-resume") || is_text(
        name,
        "scan-reset",
    ) || is_text(name, "partition-install")
}

/// The 32-bit argument `i`.
pub open spec fn wide_argument(args: Seq<Seq<u8>>, i: int) -> Option<nat> {
    if i < args.len() {
        diag_number(args[i], 0xffff_ffff)
    } else {
        None
    }
}

pub(crate) fn wide_argument_of(args: &[Vec<u8>], i: usize) -> (r: Option<u32>)
    ensures
        wide_argument(contents(args@), i as int) == match r {
            Some(n) => Some(n as nat),
            None => None,
        },
{
    if i < args.len() {
        parse_diag_u32(args[i].as_slice())
    } else {
        None
    }
}

/// Reads a scan command from its name and arguments.
pub fn parse_scan_command(name: &[u8], args: &[Vec<u8>]) -> (r: Option<DiagnosticCommand>)
    ensures
        r == scan_command(name@, contents(args@)),
{
    if is_text(name, "scan-start") || is_text(name, "find-read-key") {
        let start = argument_of(args, 0, None);
        let end = argument_of(args, 1, None);
        let timeout = argument_of(args, 2, Some(100));
        let maximum = argument_of(args, 3, Some(500));
        return match (start, end, timeout, maximum) {
            (Some(start), Some(end), Some(timeout_ms), Some(maximum_ms)) => {
                if args.len() <= 4 && State::start(0, start, end, timeout_ms, maximum_ms).is_some() {
                    Some(DiagnosticCommand::ScanStart { start, end, timeout_ms, maximum_ms })
                } else {
                    None
                }
            },
            _ => None,
        };
    }
    if args.len() > 0 {
        return None;
    }
    if is_text(name, "scan-status") {
        Some(DiagnosticCommand::ScanStatus)
    } else if is_text(name, "scan-pause") {
        Some(DiagnosticCommand::ScanPause)
    } else if is_text(name, "scan-resume") {
        Some(DiagnosticCommand::ScanResume)
    } else if is_text(name, "scan-reset") {
        Some(DiagnosticCommand::ScanReset)
    } else if is_text(name, "partition-install") {
        Some(DiagnosticCommand::PartitionInstall)
    } else {
        None
    }
}

// ---------------------------------------------------------------------------
// Memory commands
// ---------------------------------------------------------------------------
/// A key and a 32-bit address, and nothing else.
pub open spec fn memory_arguments(args: Seq<Seq<u8>>) -> Option<(u16, u32)> {
    let key = argument(args, 0, None);
    let address = wide_argument(args, 1);
    if args.len() == 2 && key is Some && address is Some {
        Some((key.unwrap() as u16, address.unwrap() as u32))
    } else {
        None
    }
}

pub(crate) fn memory_arguments_of(args: &[Vec<u8>]) -> (r: Option<(u16, u32)>)
    ensures
        r == memory_arguments(contents(args@)),
{
    match (argument_of(args, 0, None), wide_argument_of(args, 1)) {
        (Some(key), Some(address)) => if args.len() == 2 {
            Some((key, address))
        } else {
            None
        },
        _ => None,
    }
}

/// A key and a 16-bit address, and nothing else.
pub open spec fn eeprom_arguments(args: Seq<Seq<u8>>) -> Option<(u16, u16)> {
    let key = argument(args, 0, None);
    let address = argument(args, 1, None);
    if args.len() == 2 && key is Some && address is Some {
        Some((key.unwrap() as u16, address.unwrap() as u16))
    } else {
        None
    }
}

pub(crate) fn eeprom_arguments_of(args: &[Vec<u8>]) -> (r: Option<(u16, u16)>)
    ensures
        r == eeprom_arguments(contents(args@)),
{
    match (argument_of(args, 0, None), argument_of(args, 1, None)) {
        (Some(key), Some(address)) => if args.len() == 2 {
            Some((key, address))
        } else {
            None
        },
        _ => None,
    }
}

} // verus!
