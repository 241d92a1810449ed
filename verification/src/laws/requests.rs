//! Requests: the command lines of the console and the network, and how they are refused.

use crate::bridge::{bridge_header, greeting, relays, serves, welcomed};
use crate::bridge::{BridgeCommand, BridgeEvent, BridgeRefusal, PortInput, PortOutput};
use crate::bridge::{ServerInput, ServerOutput};
use crate::diagnostics::command::{diag_number, eeprom_arguments, is_scan_name};
use crate::diagnostics::command::{memory_arguments, scan_command, start_command};
use crate::diagnostics::console::{console_command, console_line, dump_arguments, edited};
use crate::diagnostics::console::{console_usage, response_line, ConsoleAction, EditView};
use crate::diagnostics::request::{header_command, immediate, network_command, request_command};
use crate::diagnostics::request::RequestError;
use crate::diagnostics::DiagnosticCommand;
use crate::keyscan::State;
use crate::laws::reading::{lemma_numeral_has_the_value, lemma_numeral_is_read};
use crate::stream::{closing_of, standing, write_step, WriteStep};
use crate::text::{decimal, fields, has_prefix, hex, is_digit, trimmed_end};
use vstd::prelude::*;
use vstd::string::*;
use vstd::utf8::*;

verus! {

// ---------------------------------------------------------------------------
// Numbers
// ---------------------------------------------------------------------------
/// The text of a number: in decimal, or in hexadecimal behind `0x` or `0X`.
pub open spec fn writes(s: Seq<u8>, n: nat) -> bool {
    ||| s == decimal(n)
    ||| exists|width: nat| s == "0x".spec_bytes() + #[trigger] hex(n, width)
    ||| exists|width: nat| s == "0X".spec_bytes() + #[trigger] hex(n, width)
}

proof fn lemma_marks()
    ensures
        "0x".spec_bytes() == seq![48u8, 120u8],
        "0X".spec_bytes() == seq![48u8, 88u8],
{
    reveal_strlit("0x");
    is_ascii_spec_bytes("0x");
    reveal_strlit("0X");
    is_ascii_spec_bytes("0X");
    assert("0x".spec_bytes() =~= seq![48u8, 120u8]);
    assert("0X".spec_bytes() =~= seq![48u8, 88u8]);
}

/// A number is read as it is written, in decimal or in hexadecimal, if it is admitted.
pub proof fn lemma_number_is_read(s: Seq<u8>, n: nat, max: nat)
    requires
        writes(s, n),
    ensures
        n <= max ==> diag_number(s, max) == Some(n),
        n > max ==> diag_number(s, max) is None,
{
    lemma_marks();
    let x = "0x".spec_bytes();
    let y = "0X".spec_bytes();
    if s == decimal(n) {
        lemma_numeral_has_the_value(n, 10, 1);
        lemma_numeral_is_read(n, 10, 1, max);
        if has_prefix(s, x) {
            assert(s.subrange(0, 2)[1] == x[1]);
            assert(s.subrange(0, 2)[1] == s[1]);
            assert(is_digit(s[1], 10));
        }
        if has_prefix(s, y) {
            assert(s.subrange(0, 2)[1] == y[1]);
            assert(s.subrange(0, 2)[1] == s[1]);
            assert(is_digit(s[1], 10));
        }
    } else if exists|width: nat| s == x + #[trigger] hex(n, width) {
        let width = choose|width: nat| s == x + #[trigger] hex(n, width);
        lemma_numeral_is_read(n, 16, width, max);
        assert(s.subrange(0, 2) =~= x);
        assert(s.skip(2) =~= hex(n, width));
    } else {
        let width = choose|width: nat| s == y + #[trigger] hex(n, width);
        lemma_numeral_is_read(n, 16, width, max);
        assert(s.subrange(0, 2) =~= y);
        assert(s.skip(2) =~= hex(n, width));
    }
}

/// Letters beyond hexadecimal digits, signs and empty texts are no numbers.
pub proof fn lemma_no_number(s: Seq<u8>, max: nat)
    ensures
        diag_number(Seq::empty(), max) is None,
        diag_number("0x".spec_bytes(), max) is None,
        diag_number("0X".spec_bytes(), max) is None,
        s.len() > 0 && s[0] == 45 ==> diag_number(s, max) is None,
{
    lemma_marks();
    let x = "0x".spec_bytes();
    let y = "0X".spec_bytes();
    let none = Seq::<u8>::empty();
    assert(x.skip(2) =~= none);
    assert(y.skip(2) =~= none);
    assert(x.subrange(0, 2) =~= x);
    assert(y.subrange(0, 2) =~= y);
    if s.len() > 0 && s[0] == 45 {
        if has_prefix(s, x) {
            assert(s.subrange(0, 2)[0] == x[0]);
        }
        if has_prefix(s, y) {
            assert(s.subrange(0, 2)[0] == y[0]);
        }
        assert(!is_digit(s[0], 10));
    }
}

// ---------------------------------------------------------------------------
// Commands
// ---------------------------------------------------------------------------
pub(crate) proof fn lemma_command_names()
    ensures
        "find-read-key".spec_bytes().len() == 13,
        "scan-start".spec_bytes().len() == 10 && "scan-start".spec_bytes()[5] == 115,
        "scan-status".spec_bytes().len() == 11 && "scan-status".spec_bytes()[5] == 115,
        "scan-pause".spec_bytes().len() == 10 && "scan-pause".spec_bytes()[5] == 112,
        "scan-resume".spec_bytes().len() == 11 && "scan-resume".spec_bytes()[5] == 114,
        "scan-reset".spec_bytes().len() == 10 && "scan-reset".spec_bytes()[5] == 114,
        "partition-install".spec_bytes().len() == 17,
        "id".spec_bytes().len() == 2,
        "max-baud".spec_bytes().len() == 8 && "max-baud".spec_bytes()[0] == 109,
        "mem16".spec_bytes().len() == 5 && "mem16".spec_bytes()[0] == 109,
        "mem128".spec_bytes().len() == 6,
        "eeprom1".spec_bytes().len() == 7,
        "eeprom16".spec_bytes().len() == 8 && "eeprom16".spec_bytes()[0] == 101,
        "eeprom128".spec_bytes().len() == 9,
        "help".spec_bytes().len() == 4 && "help".spec_bytes()[0] == 104,
        "probe".spec_bytes().len() == 5 && "probe".spec_bytes()[0] == 112,
        "dump-memory".spec_bytes().len() == 11 && "dump-memory".spec_bytes()[5] == 109,
        "dump-eeprom".spec_bytes().len() == 11 && "dump-eeprom".spec_bytes()[5] == 101,
        "diag".spec_bytes().len() == 4 && "diag".spec_bytes()[0] == 100,
{
    reveal_strlit("find-read-key");
    is_ascii_spec_bytes("find-read-key");
    reveal_strlit("scan-start");
    is_ascii_spec_bytes("scan-start");
    reveal_strlit("scan-status");
    is_ascii_spec_bytes("scan-status");
    reveal_strlit("scan-pause");
    is_ascii_spec_bytes("scan-pause");
    reveal_strlit("scan-resume");
    is_ascii_spec_bytes("scan-resume");
    reveal_strlit("scan-reset");
    is_ascii_spec_bytes("scan-reset");
    reveal_strlit("partition-install");
    is_ascii_spec_bytes("partition-install");
    reveal_strlit("id");
    is_ascii_spec_bytes("id");
    reveal_strlit("max-baud");
    is_ascii_spec_bytes("max-baud");
    reveal_strlit("mem16");
    is_ascii_spec_bytes("mem16");
    reveal_strlit("mem128");
    is_ascii_spec_bytes("mem128");
    reveal_strlit("eeprom1");
    is_ascii_spec_bytes("eeprom1");
    reveal_strlit("eeprom16");
    is_ascii_spec_bytes("eeprom16");
    reveal_strlit("eeprom128");
    is_ascii_spec_bytes("eeprom128");
    reveal_strlit("help");
    is_ascii_spec_bytes("help");
    reveal_strlit("probe");
    is_ascii_spec_bytes("probe");
    reveal_strlit("dump-memory");
    is_ascii_spec_bytes("dump-memory");
    reveal_strlit("dump-eeprom");
    is_ascii_spec_bytes("dump-eeprom");
    reveal_strlit("diag");
    is_ascii_spec_bytes("diag");
}

/// A scan is started with the range and the timeouts that its arguments write, each where
/// it stands; without timeouts they are 100 and 500. Arguments beyond, missing ones and
/// those out of bounds are refused.
pub proof fn lemma_start_is_read(
    s: Seq<u8>,
    e: Seq<u8>,
    t: Seq<u8>,
    m: Seq<u8>,
    start: u16,
    end: u16,
    timeout_ms: u16,
    maximum_ms: u16,
)
    requires
        writes(s, start as nat),
        writes(e, end as nat),
        writes(t, timeout_ms as nat),
        writes(m, maximum_ms as nat),
    ensures
        start_command(seq![s, e, t, m]) == if State::valid_parameters(
            start,
            end,
            timeout_ms,
            maximum_ms,
        ) {
            Some(DiagnosticCommand::ScanStart { start, end, timeout_ms, maximum_ms })
        } else {
            None
        },
        start_command(seq![s, e, t]) == if State::valid_parameters(start, end, timeout_ms, 500) {
            Some(DiagnosticCommand::ScanStart { start, end, timeout_ms, maximum_ms: 500 })
        } else {
            None
        },
        start_command(seq![s, e]) == if State::valid_parameters(start, end, 100, 500) {
            Some(DiagnosticCommand::ScanStart { start, end, timeout_ms: 100, maximum_ms: 500 })
        } else {
            None
        },
        start_command(seq![s]) is None,
        start_command(Seq::empty()) is None,
        start_command(seq![s, e, t, m, m]) is None,
{
    lemma_number_is_read(s, start as nat, 0xffff);
    lemma_number_is_read(e, end as nat, 0xffff);
    lemma_number_is_read(t, timeout_ms as nat, 0xffff);
    lemma_number_is_read(m, maximum_ms as nat, 0xffff);
}

/// The names of the scan commands: two start a scan, the others take no arguments.
pub proof fn lemma_scan_commands(args: Seq<Seq<u8>>)
    ensures
        scan_command("scan-start".spec_bytes(), args) == start_command(args),
        scan_command("find-read-key".spec_bytes(), args) == start_command(args),
        args.len() == 0 ==> scan_command("scan-status".spec_bytes(), args) == Some(
            DiagnosticCommand::ScanStatus,
        ),
        args.len() == 0 ==> scan_command("scan-pause".spec_bytes(), args) == Some(
            DiagnosticCommand::ScanPause,
        ),
        args.len() == 0 ==> scan_command("scan-resume".spec_bytes(), args) == Some(
            DiagnosticCommand::ScanResume,
        ),
        args.len() == 0 ==> scan_command("scan-reset".spec_bytes(), args) == Some(
            DiagnosticCommand::ScanReset,
        ),
        args.len() == 0 ==> scan_command("partition-install".spec_bytes(), args) == Some(
            DiagnosticCommand::PartitionInstall,
        ),
        args.len() > 0 ==> scan_command("scan-status".spec_bytes(), args) is None && scan_command(
            "scan-pause".spec_bytes(),
            args,
        ) is None && scan_command("scan-resume".spec_bytes(), args) is None && scan_command(
            "scan-reset".spec_bytes(),
            args,
        ) is None && scan_command("partition-install".spec_bytes(), args) is None,
        is_scan_name("scan-start".spec_bytes()),
        is_scan_name("find-read-key".spec_bytes()),
        is_scan_name("scan-status".spec_bytes()),
        is_scan_name("scan-pause".spec_bytes()),
        is_scan_name("scan-resume".spec_bytes()),
        is_scan_name("scan-reset".spec_bytes()),
        is_scan_name("partition-install".spec_bytes()),
        !is_scan_name("id".spec_bytes()),
        !is_scan_name("max-baud".spec_bytes()),
        !is_scan_name("mem16".spec_bytes()),
        !is_scan_name("mem128".spec_bytes()),
        !is_scan_name("eeprom1".spec_bytes()),
        !is_scan_name("eeprom16".spec_bytes()),
        !is_scan_name("eeprom128".spec_bytes()),
        !is_scan_name("probe".spec_bytes()),
        !is_scan_name("dump-memory".spec_bytes()),
        !is_scan_name("dump-eeprom".spec_bytes()),
{
    lemma_command_names();
}

/// A scan command is read the same over the network and on the console.
pub proof fn lemma_scan_commands_are_the_same_everywhere(name: Seq<u8>, args: Seq<Seq<u8>>)
    requires
        is_scan_name(name),
    ensures
        network_command(seq![name] + args) == scan_command(name, args),
        scan_command(name, args) matches Some(command) ==> console_command(seq![name] + args)
            == ConsoleAction::Run(command),
        scan_command(name, args) is None ==> console_command(seq![name] + args)
            == ConsoleAction::Print("SERDIAG ERR invalid scan command"),
{
    lemma_command_names();
    let f = seq![name] + args;
    assert(f.skip(1) =~= args);
    assert(f[0] == name);
}

/// The arguments of a read: the key, then the address within its range.
pub proof fn lemma_read_arguments(k: Seq<u8>, a: Seq<u8>, key: u16, address: u32)
    requires
        writes(k, key as nat),
        writes(a, address as nat),
    ensures
        memory_arguments(seq![k, a]) == Some((key, address)),
        eeprom_arguments(seq![k, a]) == (if address <= 0xffff {
            Some((key, address as u16))
        } else {
            None
        }),
        memory_arguments(seq![k]) is None,
        memory_arguments(seq![k, a, a]) is None,
        eeprom_arguments(seq![k]) is None,
        eeprom_arguments(seq![k, a, a]) is None,
{
    lemma_number_is_read(k, key as nat, 0xffff);
    lemma_number_is_read(a, address as nat, 0xffff);
    lemma_number_is_read(a, address as nat, 0xffff_ffff);
}

/// The arguments of a dump: the key, the start and the end.
pub proof fn lemma_dump_arguments(
    k: Seq<u8>,
    s: Seq<u8>,
    e: Seq<u8>,
    key: u16,
    start: u32,
    end: u32,
)
    requires
        writes(k, key as nat),
        writes(s, start as nat),
        writes(e, end as nat),
    ensures
        dump_arguments(seq![k, s, e]) == Some((key, start, end)),
        dump_arguments(seq![k, s]) is None,
        dump_arguments(seq![k, s, e, e]) is None,
{
    lemma_number_is_read(k, key as nat, 0xffff);
    lemma_number_is_read(s, start as nat, 0xffff_ffff);
    lemma_number_is_read(e, end as nat, 0xffff_ffff);
}

proof fn lemma_word_and_arguments(name: Seq<u8>, args: Seq<Seq<u8>>)
    ensures
        (seq![name] + args)[0] == name,
        (seq![name] + args).skip(1) == args,
        (seq![name] + args).len() > 0,
{
    assert((seq![name] + args).skip(1) =~= args);
}

/// Each word of a read over the network asks for its own kind of read, with the key and the
/// address that its arguments write; a block of EEPROM has to lie within it.
pub proof fn lemma_network_reads(args: Seq<Seq<u8>>, key: u16, address: u32, unit: u16)
    ensures
        memory_arguments(args) == Some((key, address)) ==> network_command(
            seq!["mem16".spec_bytes()] + args,
        ) == Some(DiagnosticCommand::ReadMemory16 { key, address }) && network_command(
            seq!["mem128".spec_bytes()] + args,
        ) == Some(DiagnosticCommand::ReadMemory128 { key, address }),
        memory_arguments(args) is None ==> network_command(seq!["mem16".spec_bytes()] + args)
            is None && network_command(seq!["mem128".spec_bytes()] + args) is None,
        eeprom_arguments(args) == Some((key, unit)) ==> network_command(
            seq!["eeprom1".spec_bytes()] + args,
        ) == Some(DiagnosticCommand::ReadEeprom1 { key, address: unit }),
        eeprom_arguments(args) == Some((key, unit)) && unit <= 0xfff0 ==> network_command(
            seq!["eeprom16".spec_bytes()] + args,
        ) == Some(DiagnosticCommand::ReadEeprom16 { key, address: unit }),
        eeprom_arguments(args) == Some((key, unit)) && unit > 0xfff0 ==> network_command(
            seq!["eeprom16".spec_bytes()] + args,
        ) is None,
        eeprom_arguments(args) == Some((key, unit)) && unit <= 0xff80 ==> network_command(
            seq!["eeprom128".spec_bytes()] + args,
        ) == Some(DiagnosticCommand::ReadEeprom128 { key, address: unit }),
        eeprom_arguments(args) == Some((key, unit)) && unit > 0xff80 ==> network_command(
            seq!["eeprom128".spec_bytes()] + args,
        ) is None,
        eeprom_arguments(args) is None ==> network_command(seq!["eeprom1".spec_bytes()] + args)
            is None && network_command(seq!["eeprom16".spec_bytes()] + args) is None
            && network_command(seq!["eeprom128".spec_bytes()] + args) is None,
{
    lemma_command_names();
    lemma_word_and_arguments("mem16".spec_bytes(), args);
    lemma_word_and_arguments("mem128".spec_bytes(), args);
    lemma_word_and_arguments("eeprom1".spec_bytes(), args);
    lemma_word_and_arguments("eeprom16".spec_bytes(), args);
    lemma_word_and_arguments("eeprom128".spec_bytes(), args);
}

/// The questions over the network take no arguments; an unknown word and no word at all are
/// no commands.
pub proof fn lemma_network_questions(x: Seq<u8>)
    ensures
        network_command(seq!["id".spec_bytes()]) == Some(DiagnosticCommand::QueryId),
        network_command(seq!["max-baud".spec_bytes()]) == Some(DiagnosticCommand::QueryMaxBaud),
        network_command(seq!["id".spec_bytes(), x]) is None,
        network_command(seq!["max-baud".spec_bytes(), x]) is None,
        network_command(seq!["probe".spec_bytes()]) is None,
        network_command(seq!["dump-memory".spec_bytes()]) is None,
        network_command(Seq::empty()) is None,
{
    lemma_command_names();
    assert(seq!["id".spec_bytes()].skip(1).len() == 0);
    assert(seq!["max-baud".spec_bytes()].skip(1).len() == 0);
    assert(seq!["id".spec_bytes(), x].skip(1).len() == 1);
    assert(seq!["max-baud".spec_bytes(), x].skip(1).len() == 1);
}

/// A request carries a command if and only if it begins with the right word and the token;
/// what follows them is the command.
pub proof fn lemma_requests(line: Seq<u8>, token: Seq<u8>)
    ensures
        ({
            let f = fields(line);
            let known = f.len() >= 2 && f[0] == "FMDUDIAG1".spec_bytes() && f[1] == token;
            &&& !known ==> request_command(line, token) == Err::<DiagnosticCommand, RequestError>(
                RequestError::Token,
            )
            &&& known && network_command(f.skip(2)) is None ==> request_command(line, token)
                == Err::<DiagnosticCommand, RequestError>(RequestError::Usage)
            &&& known ==> (network_command(f.skip(2)) matches Some(command) ==> request_command(
                line,
                token,
            ) == Ok::<DiagnosticCommand, RequestError>(command))
        }),
{
}

/// A header that is no line is refused as such, and a line is read as one.
pub proof fn lemma_request_headers(header: Seq<u8>, token: Seq<u8>)
    ensures
        header.len() == 0 || header.last() != 10 ==> header_command(header, token) == Err::<
            DiagnosticCommand,
            RequestError,
        >(RequestError::Malformed),
        header.len() > 0 && header.last() == 10 && !valid_utf8(header.drop_last())
            ==> header_command(header, token) == Err::<DiagnosticCommand, RequestError>(
            RequestError::Encoding,
        ),
        header.len() > 0 && header.last() == 10 && valid_utf8(header.drop_last())
            ==> header_command(header, token) == request_command(header.drop_last(), token),
{
}

/// What is answered to a refused request.
pub proof fn lemma_refusals_are_told()
    ensures
        RequestError::Malformed.text() == "ERR malformed request\n",
        RequestError::Encoding.text() == "ERR request encoding\n",
        RequestError::Token.text() == "ERR invalid token\n",
        RequestError::Usage.text()
            == "ERR usage: id | find-read-key START END | mem16 KEY ADDR | eeprom16 KEY ADDR\n",
        BridgeRefusal::Busy.text() == "ERR bridge busy\n",
        BridgeRefusal::Malformed.text() == "ERR malformed request\n",
        BridgeRefusal::Encoding.text() == "ERR request encoding\n",
        BridgeRefusal::Token.text() == "ERR invalid token\n",
        BridgeRefusal::ScanBusy.text() == "ERR scan busy\n",
{
}

/// Only the question for the state of the scan is answered without a turn at the port.
pub proof fn lemma_status_needs_no_turn(command: DiagnosticCommand)
    ensures
        immediate(command) <==> command is ScanStatus,
{
}

// ---------------------------------------------------------------------------
// The console
// ---------------------------------------------------------------------------
/// The words of the reads and the dumps on the console, each with its arguments; other
/// arguments are refused with the usage of the command.
pub proof fn lemma_console_reads(args: Seq<Seq<u8>>, key: u16, address: u32, unit: u16, end: u32)
    ensures
        memory_arguments(args) == Some((key, address)) ==> console_command(
            seq!["mem16".spec_bytes()] + args,
        ) == ConsoleAction::Run(DiagnosticCommand::ReadMemory16 { key, address }),
        memory_arguments(args) is None ==> console_command(seq!["mem16".spec_bytes()] + args)
            == ConsoleAction::Print("SERDIAG ERR usage: diag mem16 KEY ADDR"),
        eeprom_arguments(args) == Some((key, unit)) ==> console_command(
            seq!["eeprom1".spec_bytes()] + args,
        ) == ConsoleAction::Run(DiagnosticCommand::ReadEeprom1 { key, address: unit })
            && console_command(seq!["eeprom16".spec_bytes()] + args) == ConsoleAction::Run(
            DiagnosticCommand::ReadEeprom16 { key, address: unit },
        ),
        eeprom_arguments(args) is None ==> console_command(seq!["eeprom1".spec_bytes()] + args)
            == ConsoleAction::Print("SERDIAG ERR usage: diag eeprom1 KEY ADDR") && console_command(
            seq!["eeprom16".spec_bytes()] + args,
        ) == ConsoleAction::Print("SERDIAG ERR usage: diag eeprom16 KEY WORD_ADDR"),
        dump_arguments(args) == Some((key, address, end)) ==> console_command(
            seq!["dump-memory".spec_bytes()] + args,
        ) == (ConsoleAction::Dump { memory: true, key, start: address, end }) && console_command(
            seq!["dump-eeprom".spec_bytes()] + args,
        ) == (ConsoleAction::Dump { memory: false, key, start: address, end }),
        dump_arguments(args) is None ==> console_command(seq!["dump-memory".spec_bytes()] + args)
            == ConsoleAction::Print("SERDIAG ERR usage: diag dump-memory KEY START END")
            && console_command(seq!["dump-eeprom".spec_bytes()] + args) == ConsoleAction::Print(
            "SERDIAG ERR usage: diag dump-eeprom KEY BYTE_START BYTE_END",
        ),
{
    lemma_command_names();
    lemma_word_and_arguments("mem16".spec_bytes(), args);
    lemma_word_and_arguments("eeprom1".spec_bytes(), args);
    lemma_word_and_arguments("eeprom16".spec_bytes(), args);
    lemma_word_and_arguments("dump-memory".spec_bytes(), args);
    lemma_word_and_arguments("dump-eeprom".spec_bytes(), args);
}

/// The other words of the console; what it does not know it says so.
pub proof fn lemma_console_words(x: Seq<u8>)
    ensures
        console_command(seq!["id".spec_bytes()]) == ConsoleAction::Run(DiagnosticCommand::QueryId),
        console_command(seq!["max-baud".spec_bytes()]) == ConsoleAction::Run(
            DiagnosticCommand::QueryMaxBaud,
        ),
        console_command(seq!["probe".spec_bytes()]) == ConsoleAction::Probe,
        console_command(seq!["help".spec_bytes()]) == ConsoleAction::Print(console_usage()),
        console_command(Seq::empty()) == ConsoleAction::Print(console_usage()),
        console_command(seq!["id".spec_bytes(), x]) == ConsoleAction::Print(
            "SERDIAG ERR unknown command; type: diag help",
        ),
        console_command(seq!["max-baud".spec_bytes(), x]) == ConsoleAction::Print(
            "SERDIAG ERR unknown command; type: diag help",
        ),
        console_command(seq!["probe".spec_bytes(), x]) == ConsoleAction::Print(
            "SERDIAG ERR unknown command; type: diag help",
        ),
        console_command(seq!["mem128".spec_bytes()]) == ConsoleAction::Print(
            "SERDIAG ERR unknown command; type: diag help",
        ),
{
    lemma_command_names();
    assert(seq!["id".spec_bytes()].skip(1).len() == 0);
    assert(seq!["max-baud".spec_bytes()].skip(1).len() == 0);
    assert(seq!["probe".spec_bytes()].skip(1).len() == 0);
    assert(seq!["id".spec_bytes(), x].skip(1).len() == 1);
    assert(seq!["max-baud".spec_bytes(), x].skip(1).len() == 1);
    assert(seq!["probe".spec_bytes(), x].skip(1).len() == 1);
}

/// The console minds a line if and only if its first word is `diag`.
pub proof fn lemma_console_minds_diag(line: Seq<u8>)
    ensures
        fields(line).len() == 0 || fields(line)[0] != "diag".spec_bytes() ==> console_line(line)
            is Ignore,
        fields(line).len() > 0 && fields(line)[0] == "diag".spec_bytes() ==> console_line(line)
            == console_command(fields(line).skip(1)) && !(console_line(line) is Ignore),
{
}

/// Editing: what is typed is kept, a deletion takes the last byte back, and a line feed ends
/// a line that holds something.
pub proof fn lemma_editing(line: Seq<u8>, b: u8)
    ensures
        line.len() < 160 && b != 8 && b != 10 && b != 13 && b != 127 ==> edited(line, b) == (
            line.push(b),
            EditView::Pending,
        ),
        line.len() < 160 && b != 8 && b != 10 && b != 13 && b != 127 ==> edited(
            edited(line, b).0,
            8,
        ) == (line, EditView::Pending) && edited(edited(line, b).0, 127) == (
            line,
            EditView::Pending,
        ),
        line.len() >= 160 && b != 8 && b != 10 && b != 13 && b != 127 ==> edited(line, b) == (
            Seq::<u8>::empty(),
            EditView::Complain("SERDIAG ERR command line too long"),
        ),
        edited(line, 13) == (line, EditView::Pending),
        edited(Seq::empty(), 8) == (Seq::<u8>::empty(), EditView::Pending),
        edited(Seq::empty(), 127) == (Seq::<u8>::empty(), EditView::Pending),
        edited(Seq::empty(), 10) == (Seq::<u8>::empty(), EditView::Pending),
        line.len() > 0 && valid_utf8(line) ==> edited(line, 10) == (
            Seq::<u8>::empty(),
            EditView::Line(line),
        ),
        line.len() > 0 && !valid_utf8(line) ==> edited(line, 10) == (
            Seq::<u8>::empty(),
            EditView::Complain("SERDIAG ERR command is not UTF-8"),
        ),
        line.len() <= 160 ==> edited(line, b).0.len() <= 160,
{
    assert(line.push(b).drop_last() =~= line);
}

/// A response is printed behind the console's mark, without the white space at its end.
pub proof fn lemma_responses_are_printed(r: Seq<u8>)
    ensures
        valid_utf8(r) ==> response_line(r) == "SERDIAG ".spec_bytes() + trimmed_end(r),
        !valid_utf8(r) ==> response_line(r) == "SERDIAG ERR invalid response encoding".spec_bytes(),
{
}

// ---------------------------------------------------------------------------
// The bridge
// ---------------------------------------------------------------------------
/// A client is let in while nobody else owns the port.
pub proof fn lemma_free_port_is_given(bridge_active: bool, scan_running: bool)
    ensures
        welcomed(bridge_active, scan_running) is Ok <==> !bridge_active && !scan_running,
        welcomed(bridge_active, scan_running) is Err ==> welcomed(bridge_active, scan_running)
            == Err::<(), BridgeRefusal>(BridgeRefusal::Busy),
{
}

/// A client owns the port if and only if its request is a line of two words, the right one
/// and the token, and no scan runs; otherwise it learns why not.
pub proof fn lemma_bridge_requests(header: Seq<u8>, token: Seq<u8>, scan_running: bool)
    ensures
        ({
            let line = header.drop_last();
            let complete = header.len() > 0 && header.last() == 10;
            let f = fields(line);
            let known = f.len() == 2 && f[0] == "FMDUBRIDGE1".spec_bytes() && f[1] == token;
            let r = bridge_header(header, token, scan_running);
            &&& r is Ok <==> complete && valid_utf8(line) && known && !scan_running
            &&& r == Err::<(), BridgeRefusal>(BridgeRefusal::Malformed) <==> !complete
            &&& r == Err::<(), BridgeRefusal>(BridgeRefusal::Encoding) <==> complete
                && !valid_utf8(line)
            &&& r == Err::<(), BridgeRefusal>(BridgeRefusal::Token) <==> complete && valid_utf8(
                line,
            ) && !known
            &&& r == Err::<(), BridgeRefusal>(BridgeRefusal::ScanBusy) <==> complete && valid_utf8(
                line,
            ) && known && scan_running
        }),
{
}

/// A client is greeted once it owns the port.
pub proof fn lemma_owner_is_greeted(event: BridgeEvent)
    ensures
        event is Connected ==> greeting(event) == Some("OK FreeMDU optical bridge\n"),
        !(event is Connected) ==> greeting(event) is None,
{
}

/// What ends a session on either side: a client that closed or failed, one that sends more
/// than a chunk, and a port that is gone.
pub proof fn lemma_sessions_end(
    data: &[u8],
    event: BridgeEvent,
    command: BridgeCommand,
    there: ServerOutput,
    here: PortOutput,
)
    ensures
        serves(ServerInput::Host(data), there) ==> (there is End <==> data@.len() == 0
            || data@.len() > 32),
        serves(ServerInput::HostFailed, there) ==> there is End,
        serves(ServerInput::Port(event), there) ==> (there is End <==> event is Disconnected),
        serves(ServerInput::Port(event), there) ==> (there is Idle <==> event is Connected),
        relays(PortInput::Command(command), here) ==> (here is End <==> command is Disconnect),
        relays(PortInput::Command(command), here) ==> (here is Idle <==> command is Connect),
        relays(PortInput::Received(data), here) ==> !(here is End) && (here is Idle <==> data@.len()
            == 0 || data@.len() > 32),
        relays(PortInput::ReceiveFailed, here) ==> here is End,
{
}

// ---------------------------------------------------------------------------
// Responses
// ---------------------------------------------------------------------------
/// A response is written to its end: on from where the last write left it, which took
/// something; a write that took nothing, or failed, ends it.
pub proof fn lemma_response_is_written<E>(sent: usize, total: usize, n: usize, e: E)
    requires
        sent < total,
        n <= total - sent,
    ensures
        n == 0 ==> write_step::<E>(sent, total, Ok(n)) is Reset,
        n > 0 && sent + n == total ==> write_step::<E>(sent, total, Ok(n)) is Done,
        n > 0 && sent + n < total ==> write_step::<E>(sent, total, Ok(n))
            == WriteStep::<E>::From((sent + n) as usize),
        write_step::<E>(sent, total, Err(e)) == WriteStep::Failed(e),
        standing::<E>(0, 0) is Done,
        total > 0 ==> standing::<E>(0, total as int) == WriteStep::<E>::From(0),
{
}

/// A connection is closed in an orderly way if and only if the response went out.
pub proof fn lemma_closing(wrote: bool, flushed: bool)
    ensures
        closing_of(wrote, flushed) is Close <==> wrote && flushed,
        closing_of(wrote, flushed) is Abort <==> !wrote || !flushed,
{
}

} // verus!
