use freemdu_home::diagnostics::command::{
    parse_diag_u16, parse_diag_u32, parse_scan_command, DiagnosticCommand,
};
use freemdu_home::diagnostics::console::{
    handle_serial_diag_line, serial_diag_print_response, ConsoleAction, EditEvent, LineEditor,
};
use freemdu_home::diagnostics::dump::{
    can_be_counted, serial_diag_dump, serial_diag_probe_unknown,
};
use freemdu_home::diagnostics::request::{answered_at_once, diagnostic_request, RequestError};
use freemdu_home::header::{HeaderReader, REQUEST_CAPACITY};
use freemdu_home::known_read_keys::ReadKeyCandidate;

fn header(text: &[u8]) -> HeaderReader {
    let mut reader = HeaderReader::new(REQUEST_CAPACITY);
    for b in text {
        if !reader.is_open() {
            break;
        }
        reader.push(*b);
    }
    reader
}

fn request(text: &str) -> Result<DiagnosticCommand, RequestError> {
    diagnostic_request(&header(text.as_bytes()), b"secret")
}

fn arguments(text: &str) -> Vec<Vec<u8>> {
    text.split_ascii_whitespace()
        .map(|field| field.as_bytes().to_vec())
        .collect()
}

fn lines(list: &[Vec<u8>]) -> Vec<String> {
    list.iter()
        .map(|line| String::from_utf8(line.clone()).unwrap())
        .collect()
}

#[test]
fn numbers_are_decimal_or_hexadecimal() {
    for (text, small, wide) in [
        ("17", Some(17), Some(17)),
        ("0x2b2c", Some(0x2b2c), Some(0x2b2c)),
        ("0X2B2C", Some(0x2b2c), Some(0x2b2c)),
        ("65535", Some(65535), Some(65535)),
        ("65536", None, Some(65536)),
        ("0x10000", None, Some(0x10000)),
        ("0xffffffff", None, Some(u32::MAX)),
        ("0x100000000", None, None),
        ("4294967296", None, None),
        ("+5", Some(5), Some(5)),
        ("0x+5", Some(5), Some(5)),
        ("0x", None, None),
        ("", None, None),
        ("-1", None, None),
        ("ff", None, None),
        ("0x0x1", None, None),
    ] {
        assert_eq!(parse_diag_u16(text.as_bytes()), small, "{text}");
        assert_eq!(parse_diag_u32(text.as_bytes()), wide, "{text}");
    }
}

#[test]
fn scan_commands_are_parsed() {
    let parse = |name: &str, rest: &str| parse_scan_command(name.as_bytes(), &arguments(rest));
    assert_eq!(parse("scan-status", ""), Some(DiagnosticCommand::ScanStatus));
    assert_eq!(parse("scan-pause", ""), Some(DiagnosticCommand::ScanPause));
    assert_eq!(parse("scan-resume", ""), Some(DiagnosticCommand::ScanResume));
    assert_eq!(parse("scan-reset", ""), Some(DiagnosticCommand::ScanReset));
    assert_eq!(
        parse("partition-install", ""),
        Some(DiagnosticCommand::PartitionInstall)
    );
    assert_eq!(parse("scan-status", "x"), None);
    assert_eq!(parse("scan-stop", ""), None);
    for name in ["scan-start", "find-read-key"] {
        assert_eq!(
            parse(name, "0 0xffff"),
            Some(DiagnosticCommand::ScanStart {
                start: 0,
                end: 0xffff,
                timeout_ms: 100,
                maximum_ms: 500
            })
        );
        assert_eq!(
            parse(name, "1 2 40 2000"),
            Some(DiagnosticCommand::ScanStart {
                start: 1,
                end: 2,
                timeout_ms: 40,
                maximum_ms: 2000
            })
        );
        for bad in [
            "",
            "0",
            "2 1",
            "0 1 35",
            "0 1 41",
            "0 1 505",
            "0 1 100 95",
            "0 1 100 500 x",
            "0 1 100 x",
            "x 1",
            "0 65536",
        ] {
            assert_eq!(parse(name, bad), None, "{bad}");
        }
    }
}

#[test]
fn requests_are_parsed() {
    assert_eq!(request("FMDUDIAG1 secret id\n"), Ok(DiagnosticCommand::QueryId));
    assert_eq!(
        request(" \tFMDUDIAG1  secret max-baud \r\n"),
        Ok(DiagnosticCommand::QueryMaxBaud)
    );
    assert_eq!(
        request("FMDUDIAG1 secret mem16 0x43ea 0xffffffff\n"),
        Ok(DiagnosticCommand::ReadMemory16 {
            key: 0x43ea,
            address: 0xffff_ffff
        })
    );
    assert_eq!(
        request("FMDUDIAG1 secret mem128 1 2\n"),
        Ok(DiagnosticCommand::ReadMemory128 { key: 1, address: 2 })
    );
    assert_eq!(
        request("FMDUDIAG1 secret eeprom1 1 0xffff\n"),
        Ok(DiagnosticCommand::ReadEeprom1 {
            key: 1,
            address: 0xffff
        })
    );
    assert_eq!(
        request("FMDUDIAG1 secret eeprom16 1 0xfff0\n"),
        Ok(DiagnosticCommand::ReadEeprom16 {
            key: 1,
            address: 0xfff0
        })
    );
    assert_eq!(
        request("FMDUDIAG1 secret eeprom128 1 0xff80\n"),
        Ok(DiagnosticCommand::ReadEeprom128 {
            key: 1,
            address: 0xff80
        })
    );
    assert_eq!(
        request("FMDUDIAG1 secret scan-start 1 2\n"),
        Ok(DiagnosticCommand::ScanStart {
            start: 1,
            end: 2,
            timeout_ms: 100,
            maximum_ms: 500
        })
    );
}

#[test]
fn requests_are_refused() {
    for text in [
        "FMDUDIAG1 secret\n",
        "FMDUDIAG1 secret id x\n",
        "FMDUDIAG1 secret ID\n",
        "FMDUDIAG1 secret eeprom16 1 0xfff1\n",
        "FMDUDIAG1 secret eeprom128 1 0xff81\n",
        "FMDUDIAG1 secret mem16 1\n",
        "FMDUDIAG1 secret mem16 1 2 3\n",
        "FMDUDIAG1 secret probe\n",
        "FMDUDIAG1 secret scan-start 2 1\n",
    ] {
        assert_eq!(request(text), Err(RequestError::Usage), "{text}");
    }
    for text in [
        "\n",
        "FMDUDIAG1\n",
        "FMDUDIAG1 Secret id\n",
        "FMDUDIAG2 secret id\n",
        "secret FMDUDIAG1 id\n",
    ] {
        assert_eq!(request(text), Err(RequestError::Token), "{text}");
    }
    assert_eq!(request(""), Err(RequestError::Malformed));
    assert_eq!(request("FMDUDIAG1 secret id"), Err(RequestError::Malformed));
    let long = format!("FMDUDIAG1 secret id{}\n", " ".repeat(200));
    assert_eq!(request(&long), Err(RequestError::Malformed));
    let fits = format!("FMDUDIAG1 secret id{}\n", " ".repeat(192 - 20));
    assert_eq!(fits.len(), 192);
    assert_eq!(request(&fits), Ok(DiagnosticCommand::QueryId));
    assert_eq!(
        diagnostic_request(&header(b"FMDUDIAG1 secret \xff\n"), b"secret"),
        Err(RequestError::Encoding)
    );
    assert_eq!(RequestError::Malformed.answer(), "ERR malformed request\n");
    assert_eq!(RequestError::Encoding.answer(), "ERR request encoding\n");
    assert_eq!(RequestError::Token.answer(), "ERR invalid token\n");
    assert_eq!(
        RequestError::Usage.answer(),
        "ERR usage: id | find-read-key START END | mem16 KEY ADDR | eeprom16 KEY ADDR\n"
    );
    assert!(answered_at_once(DiagnosticCommand::ScanStatus));
    assert!(!answered_at_once(DiagnosticCommand::ScanPause));
}

fn type_in(bytes: &[u8]) -> Vec<EditEvent> {
    let mut editor = LineEditor::new();
    bytes
        .iter()
        .map(|b| editor.push(*b))
        .filter(|event| !matches!(event, EditEvent::Pending))
        .collect()
}

#[test]
fn lines_are_edited() {
    let events = type_in(b"diag x\x08id\r\n\n\x7f\x7fab\x7fc\n");
    assert_eq!(events.len(), 2);
    assert!(matches!(&events[0], EditEvent::Line(line) if line == b"diag id"));
    assert!(matches!(&events[1], EditEvent::Line(line) if line == b"ac"));
    // The byte that does not fit clears the line and is dropped.
    let mut long = vec![b'a'; 161];
    long.extend_from_slice(b"b\n");
    let events = type_in(&long);
    assert!(matches!(
        events[0],
        EditEvent::Complain("SERDIAG ERR command line too long")
    ));
    assert!(matches!(&events[1], EditEvent::Line(line) if line == b"b"));
    // Encoding is checked when the line is complete.
    assert!(matches!(
        type_in(b"diag \xc3\n")[..],
        [EditEvent::Complain("SERDIAG ERR command is not UTF-8")]
    ));
    assert!(matches!(
        type_in("diag \u{e9}\n".as_bytes())[..],
        [EditEvent::Line(_)]
    ));
}

#[test]
fn console_commands() {
    let run = |line: &str| handle_serial_diag_line(line.as_bytes());
    let usage = "SERDIAG usage: diag id | diag mem16 KEY ADDR | diag eeprom16 KEY WORD_ADDR | \
                 diag dump-memory KEY START END | diag dump-eeprom KEY BYTE_START BYTE_END | \
                 diag find-read-key START END [TIMEOUT_MS] | diag max-baud | diag probe";
    assert!(matches!(run(""), ConsoleAction::Ignore));
    assert!(matches!(run("help"), ConsoleAction::Ignore));
    assert!(matches!(run("diag"), ConsoleAction::Print(text) if text == usage));
    assert!(matches!(run("diag help me"), ConsoleAction::Print(text) if text == usage));
    assert!(matches!(run("diag probe"), ConsoleAction::Probe));
    assert!(matches!(
        run("diag id"),
        ConsoleAction::Run(DiagnosticCommand::QueryId)
    ));
    assert!(matches!(
        run("diag max-baud"),
        ConsoleAction::Run(DiagnosticCommand::QueryMaxBaud)
    ));
    for line in ["diag id x", "diag max-baud x", "diag probe x", "diag mem128 1 2", "diag ?"] {
        assert!(
            matches!(
                run(line),
                ConsoleAction::Print("SERDIAG ERR unknown command; type: diag help")
            ),
            "{line}"
        );
    }
    assert!(matches!(
        run("diag mem16 1 2"),
        ConsoleAction::Run(DiagnosticCommand::ReadMemory16 { key: 1, address: 2 })
    ));
    assert!(matches!(
        run("diag mem16 1"),
        ConsoleAction::Print("SERDIAG ERR usage: diag mem16 KEY ADDR")
    ));
    assert!(matches!(
        run("diag eeprom1 1 2"),
        ConsoleAction::Run(DiagnosticCommand::ReadEeprom1 { key: 1, address: 2 })
    ));
    assert!(matches!(
        run("diag eeprom1 1 2 3"),
        ConsoleAction::Print("SERDIAG ERR usage: diag eeprom1 KEY ADDR")
    ));
    assert!(matches!(
        run("diag eeprom16 1 0xffff"),
        ConsoleAction::Run(DiagnosticCommand::ReadEeprom16 {
            key: 1,
            address: 0xffff
        })
    ));
    assert!(matches!(
        run("diag eeprom16 1 0x10000"),
        ConsoleAction::Print("SERDIAG ERR usage: diag eeprom16 KEY WORD_ADDR")
    ));
    assert!(matches!(
        run("diag dump-memory 0x43ea 0 0x3ff"),
        ConsoleAction::Dump {
            memory: true,
            key: 0x43ea,
            start: 0,
            end: 0x3ff
        }
    ));
    assert!(matches!(
        run("diag dump-eeprom 1 16 31"),
        ConsoleAction::Dump {
            memory: false,
            key: 1,
            start: 16,
            end: 31
        }
    ));
    assert!(matches!(
        run("diag dump-memory 1 2"),
        ConsoleAction::Print("SERDIAG ERR usage: diag dump-memory KEY START END")
    ));
    assert!(matches!(
        run("diag dump-eeprom 1 2 3 4"),
        ConsoleAction::Print("SERDIAG ERR usage: diag dump-eeprom KEY BYTE_START BYTE_END")
    ));
    assert!(matches!(
        run("diag scan-pause"),
        ConsoleAction::Run(DiagnosticCommand::ScanPause)
    ));
    assert!(matches!(
        run("diag scan-start 5 4"),
        ConsoleAction::Print("SERDIAG ERR invalid scan command")
    ));
}

#[test]
fn responses_are_printed() {
    assert_eq!(serial_diag_print_response(b"OK x \n"), b"SERDIAG OK x");
    assert_eq!(
        serial_diag_print_response("OK\u{3000}\n".as_bytes()),
        b"SERDIAG OK"
    );
    assert_eq!(
        serial_diag_print_response(b"OK \xff\n"),
        b"SERDIAG ERR invalid response encoding"
    );
}

#[test]
fn memory_is_dumped() {
    let mut step = serial_diag_dump(true, 0x43ea, 0x10, 0x2f);
    let mut out = lines(&step.lines);
    let mut asked = vec![];
    while let Some(dump) = step.next {
        asked.push(dump.request());
        let reply = format!("OK kind=memory address=0x{:08x} data=ab{:02x}\n", dump.offset, 7);
        step = dump.supply(reply.as_bytes());
        out.extend(lines(&step.lines));
        out.push(format!("pause {}", step.pause_ms));
        out.extend(lines(&step.closing));
    }
    assert_eq!(
        asked,
        [0x10, 0x20].map(|address| DiagnosticCommand::ReadMemory16 {
            key: 0x43ea,
            address
        })
    );
    assert_eq!(
        out,
        [
            "SERDUMP BEGIN memory key=0x43ea start=0x00000010 end=0x0000002f",
            "SERDUMP memory 00000010 ab07",
            "pause 1",
            "SERDUMP memory 00000020 ab07",
            "pause 1",
            "SERDUMP END memory",
        ]
    );
}

#[test]
fn eeprom_is_dumped_in_the_units_of_the_appliance() {
    for (id, unit) in [(498, 1), (410, 2)] {
        let step = serial_diag_dump(false, 1, 0x20, 0x3f);
        assert!(step.lines.is_empty());
        let dump = step.next.unwrap();
        assert_eq!(dump.request(), DiagnosticCommand::QueryId);
        let step = dump.supply(format!("OK software_id={id} hex=0x{id:04x}\n").as_bytes());
        assert_eq!(
            lines(&step.lines),
            ["SERDUMP BEGIN eeprom key=0x0001 start=0x00000020 end=0x0000003f"]
        );
        assert_eq!(step.pause_ms, 0);
        assert!(step.closing.is_empty());
        assert_eq!(
            step.next.unwrap().request(),
            DiagnosticCommand::ReadEeprom16 {
                key: 1,
                address: 0x20 / unit
            }
        );
    }
}

#[test]
fn dumps_fail() {
    for (start, end) in [(0x20, 0x1f), (8, 0x1f), (0, 0x1e)] {
        let step = serial_diag_dump(true, 1, start, end);
        assert!(step.next.is_none());
        assert_eq!(
            lines(&step.lines),
            ["SERDIAG ERR dump range must be 16-byte aligned and inclusive"]
        );
    }
    let fail = |end: u32, reply: &[u8]| {
        let step = serial_diag_dump(false, 1, 0, end).next.unwrap().supply(reply);
        assert!(step.next.is_none());
        assert_eq!(step.pause_ms, 0);
        assert!(step.closing.is_empty());
        lines(&step.lines)
    };
    for reply in [
        &b"ERR query_software_id\n"[..],
        b"OK software_id=\n",
        b"OK software_id=65536\n",
        b"OK software_id=41\xff\n",
    ] {
        assert_eq!(fail(0xf, reply), ["SERDIAG ERR query_software_id failed"]);
    }
    assert_eq!(
        fail(0x2000f, b"OK software_id=410\n"),
        ["SERDIAG ERR EEPROM byte offset out of range"]
    );
    assert_eq!(
        fail(0x1000f, b"OK software_id=498\n"),
        ["SERDIAG ERR EEPROM byte offset out of range"]
    );
    let dump = serial_diag_dump(true, 1, 0, 0xf).next.unwrap();
    let step = dump.supply(b"ERR read_memory timeout TimeoutError \n");
    assert_eq!(
        lines(&step.lines),
        ["SERDUMP ERROR memory 0x00000000 ERR read_memory timeout TimeoutError"]
    );
    assert!(step.next.is_none());
    assert_eq!(step.pause_ms, 0);
    assert!(step.closing.is_empty());
    let step = dump.supply(b"OK data=\xff\n");
    assert_eq!(
        lines(&step.lines),
        ["SERDUMP ERROR memory 0x00000000 invalid-response-encoding"]
    );
}

fn candidates(list: &[u16]) -> Vec<ReadKeyCandidate> {
    list.iter()
        .map(|key| ReadKeyCandidate {
            key: *key,
            software_ids: "410",
            source: "report",
        })
        .collect()
}

#[test]
fn unknown_appliance_is_probed() {
    let keys = candidates(&[0x10, 0x20, 0x30]);
    let (first, mut probe) = serial_diag_probe_unknown();
    let mut out = vec![first.to_string()];
    let mut commands = 0;
    loop {
        commands += 1;
        let reply = match probe.request(&keys) {
            DiagnosticCommand::QueryId => "OK software_id=410 hex=0x019a\n".to_string(),
            DiagnosticCommand::ReadMemory16 { key: 0x20, .. } => "OK data=00\n".to_string(),
            DiagnosticCommand::ReadEeprom16 { key: 0x20, .. } => "OK data=11\n".to_string(),
            _ => "ERR read_memory timeout\n".to_string(),
        };
        let step = probe.supply(&keys, reply.as_bytes());
        out.extend(lines(&step.lines));
        out.extend(lines(&step.closing));
        match step.next {
            Some(next) => probe = next,
            None => break,
        }
    }
    // Three samples, two keys, 64 blocks of memory, the ID and 64 blocks of EEPROM.
    assert_eq!(commands, 3 + 2 + 64 + 1 + 64);
    assert_eq!(
        out[..8],
        [
            "SERPROBE BEGIN read-only",
            "SERPROBE ID sample=1 OK software_id=410 hex=0x019a",
            "SERPROBE ID sample=2 OK software_id=410 hex=0x019a",
            "SERPROBE ID sample=3 OK software_id=410 hex=0x019a",
            "SERPROBE READ_KEY key=0x0010 result=failed response=ERR read_memory timeout",
            "SERPROBE READ_KEY key=0x0020 result=ok",
            "SERPROBE BASELINE key=0x0020 memory=0x0000..0x03ff eeprom-bytes=0x0000..0x03ff",
            "SERDUMP BEGIN memory key=0x0020 start=0x00000000 end=0x000003ff",
        ]
    );
    assert_eq!(out.last().unwrap(), "SERPROBE END key=0x0020");
}

#[test]
fn probe_pauses_behind_blocks_only() {
    let keys = candidates(&[0x20]);
    let (_, mut probe) = serial_diag_probe_unknown();
    let mut out = vec![];
    loop {
        let reply = match probe.request(&keys) {
            DiagnosticCommand::QueryId => "OK software_id=498 hex=0x01f2\n",
            DiagnosticCommand::ReadMemory16 { .. } => "OK data=00\n",
            DiagnosticCommand::ReadEeprom16 { address: 0x10, .. } => "ERR read_eeprom\n",
            _ => "OK data=11\n",
        };
        let step = probe.supply(&keys, reply.as_bytes());
        out.push((lines(&step.lines), step.pause_ms, lines(&step.closing)));
        match step.next {
            Some(next) => probe = next,
            None => break,
        }
    }
    let text = |s: &str| vec![s.to_string()];
    // Three samples, a key, 64 blocks of memory, the ID and two blocks of EEPROM.
    assert_eq!(out.len(), 3 + 1 + 64 + 1 + 2);
    assert!(out[..3].iter().all(|step| step.1 == 100));
    assert_eq!(out[3].1, 0);
    assert!(out[4..68].iter().all(|step| step.1 == 1));
    assert!(out[4..67].iter().all(|step| step.2.is_empty()));
    assert_eq!(
        out[67],
        (
            text("SERDUMP memory 000003f0 00"),
            1,
            text("SERDUMP END memory")
        )
    );
    assert_eq!(
        out[68],
        (
            text("SERDUMP BEGIN eeprom key=0x0020 start=0x00000000 end=0x000003ff"),
            0,
            vec![]
        )
    );
    assert_eq!(out[69], (text("SERDUMP eeprom 00000000 11"), 1, vec![]));
    assert_eq!(
        out[70],
        (
            text("SERDUMP ERROR eeprom 0x00000010 ERR read_eeprom"),
            0,
            text("SERPROBE END key=0x0020")
        )
    );
}

#[test]
fn probe_without_a_key() {
    let keys = candidates(&[0x10]);
    let (_, mut probe) = serial_diag_probe_unknown();
    let mut out = vec![];
    loop {
        let reply: &[u8] = match probe.request(&keys) {
            DiagnosticCommand::QueryId => b"ERR query_software_id\n",
            _ => b"\xff",
        };
        let step = probe.supply(&keys, reply);
        out.extend(lines(&step.lines));
        out.extend(lines(&step.closing));
        match step.next {
            Some(next) => probe = next,
            None => break,
        }
    }
    assert_eq!(
        out[3..],
        [
            "SERPROBE READ_KEY key=0x0010 result=failed invalid-response-encoding",
            "SERPROBE END no-known-read-key; use diag find-read-key only after reviewing the \
             result",
        ]
    );
    let (_, probe) = serial_diag_probe_unknown();
    let step = probe.supply(&keys, b"\xff");
    assert!(step.next.is_none());
    assert_eq!(
        lines(&step.lines),
        ["SERPROBE ERROR invalid ID response encoding"]
    );
}

#[test]
fn only_a_range_that_is_counted_may_overflow() {
    assert!(can_be_counted(0, 0xffff_fffe));
    assert!(!can_be_counted(0, u32::MAX));
    assert!(!can_be_counted(0xffff_fff0, u32::MAX));
    for start in [8, 0xffff_fff8] {
        assert!(can_be_counted(start, u32::MAX));
        let step = serial_diag_dump(true, 1, start, u32::MAX);
        assert_eq!(
            lines(&step.lines),
            ["SERDIAG ERR dump range must be 16-byte aligned and inclusive"]
        );
    }
}
