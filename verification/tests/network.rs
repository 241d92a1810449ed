use freemdu_home::bridge::{
    bridge_request, greet, relay, serve, welcome, BridgeCommand, BridgeEvent, BridgeRefusal,
    PortInput, PortOutput, ServerInput, ServerOutput,
};
use freemdu_home::buffers::BridgeChunk;
use freemdu_home::header::{
    read_header, service_enabled, HeaderError, HeaderReader, OTA_HEADER_CAPACITY, REQUEST_CAPACITY,
};
use freemdu_home::ota::{
    ota_request, OtaAction, OtaEnd, OtaError, OtaRequest, OtaResult, OtaStep, Transfer,
};
use freemdu_home::stream::{closing, tcp_write_all, written, Closing, WriteStep};

fn header(text: &[u8], capacity: usize) -> HeaderReader {
    let mut reader = HeaderReader::new(capacity);
    for b in text {
        if !reader.is_open() {
            break;
        }
        reader.push(*b);
    }
    reader
}

fn ota(text: &str) -> Result<OtaRequest, OtaError> {
    ota_request(&header(text.as_bytes(), OTA_HEADER_CAPACITY), b"secret")
}

#[test]
fn services_need_a_token_of_their_own() {
    assert!(!service_enabled(b""));
    assert!(!service_enabled(b"change-me"));
    assert!(service_enabled(b"Change-me"));
    assert!(service_enabled(b"secret"));
}

#[test]
fn header_ends_with_its_line() {
    assert_eq!(read_header(b"abc\ndef\n", 192), Ok(b"abc".to_vec()));
    assert_eq!(read_header(b"\n", 192), Ok(vec![]));
    assert_eq!(read_header(b"", 192), Err(HeaderError::Malformed));
    assert_eq!(read_header(b"abc", 192), Err(HeaderError::Malformed));
    assert_eq!(read_header(b"abcd\n", 4), Err(HeaderError::Malformed));
    assert_eq!(read_header(b"abc\n", 4), Ok(b"abc".to_vec()));
    assert_eq!(read_header(b"a\xc3\n", 192), Err(HeaderError::Encoding));
    assert_eq!(
        read_header("\u{e9}\n".as_bytes(), 192),
        Ok("\u{e9}".as_bytes().to_vec())
    );
}

#[test]
fn encoding_is_that_of_the_standard_library() {
    // Every sequence of up to three of these bytes.
    let bytes = [
        b'a', 0x7f, 0x80, 0x9f, 0xa0, 0xbf, 0xc0, 0xc1, 0xc2, 0xdf, 0xe0, 0xed, 0xef, 0xf0, 0xf4,
        0xf5, 0xff,
    ];
    for a in bytes {
        for b in bytes {
            for c in bytes {
                let line = [a, b, c, b'\n'];
                let expected = if core::str::from_utf8(&line[..3]).is_ok() {
                    Ok(line[..3].to_vec())
                } else {
                    Err(HeaderError::Encoding)
                };
                assert_eq!(read_header(&line, 192), expected);
            }
        }
    }
}

#[test]
fn update_requests() {
    assert_eq!(
        ota("FMDU1 1000 DEADbeef secret\n"),
        Ok(OtaRequest {
            size: 1000,
            crc: 0xdeadbeef
        })
    );
    assert_eq!(
        ota("FMDU1 2031616 0 secret\n"),
        Ok(OtaRequest {
            size: 0x1f0000,
            crc: 0
        })
    );
    for text in [
        "FMDU1 1000 0 Secret\n",
        "FMDU1 1000 0\n",
        "FMDU1 1000 0 secret x\n",
        "FMDU2 1000 0 secret\n",
        "FMDU1 0x10 0 secret\n",
        "FMDU1 10 0x0 secret\n",
        "FMDU1 10 100000000 secret\n",
        "\n",
    ] {
        assert_eq!(ota(text), Err(OtaError::Invalid), "{text}");
    }
    assert_eq!(ota("FMDU1 0 0 secret\n"), Err(OtaError::Size));
    assert_eq!(ota("FMDU1 2031617 0 secret\n"), Err(OtaError::Size));
    assert_eq!(ota("FMDU1 1 0 secret"), Err(OtaError::Malformed));
    assert_eq!(
        ota_request(&header(b"\xff\n", OTA_HEADER_CAPACITY), b"secret"),
        Err(OtaError::Encoding)
    );
    assert_eq!(OtaError::Malformed.answer(), "ERR malformed header\n");
    assert_eq!(OtaError::Encoding.answer(), "ERR header encoding\n");
    assert_eq!(OtaError::Invalid.answer(), "ERR invalid request or token\n");
    assert_eq!(OtaError::Size.answer(), "ERR invalid image size\n");
}

/// Runs an update whose image arrives in pieces of at most `piece` bytes.
fn update(size: u32, piece: u32) -> (Vec<OtaAction>, Vec<u32>, OtaEnd) {
    let mut transfer = Transfer::begin(OtaRequest { size, crc: 7 });
    let mut actions = vec![];
    let mut progress = vec![];
    let mut arrived = 0;
    let mut stored = 0;
    loop {
        let action = transfer.request();
        actions.push(action);
        let result = match action {
            OtaAction::Begin { .. } | OtaAction::Ready | OtaAction::Verify => OtaResult::Done,
            OtaAction::Receive { wanted } => {
                let len = wanted.min(piece);
                arrived += len;
                OtaResult::Received(len)
            }
            OtaAction::Write { len } => {
                stored += len;
                assert_eq!(stored, arrived);
                OtaResult::Written(stored == size)
            }
        };
        match transfer.supply(result) {
            OtaStep::Go(next, percent) => {
                progress.extend(percent);
                transfer = next;
            }
            OtaStep::End(end) => return (actions, progress, end),
        }
    }
}

#[test]
fn update_is_transferred() {
    let (actions, progress, end) = update(10_000, 4096);
    assert_eq!(
        actions,
        [
            OtaAction::Begin {
                size: 10_000,
                crc: 7
            },
            OtaAction::Ready,
            OtaAction::Receive { wanted: 4096 },
            OtaAction::Write { len: 4096 },
            OtaAction::Receive { wanted: 4096 },
            OtaAction::Write { len: 4096 },
            OtaAction::Receive { wanted: 1808 },
            OtaAction::Write { len: 1808 },
            OtaAction::Verify,
        ]
    );
    assert_eq!(progress, [40, 81, 100]);
    assert_eq!(end, OtaEnd::Reboot("OK verified; rebooting\n"));
    let (_, progress, _) = update(1000, 15);
    assert_eq!(progress, [10, 21, 31, 42, 52, 63, 73, 84, 94, 100]);
}

/// The end of an update whose step `at` gives this result.
fn broken(at: usize, result: OtaResult) -> OtaEnd {
    let mut transfer = Transfer::begin(OtaRequest { size: 8, crc: 7 });
    for step in 0.. {
        let reply = if step == at {
            result
        } else {
            match transfer.request() {
                OtaAction::Receive { wanted } => OtaResult::Received(wanted),
                OtaAction::Write { .. } => OtaResult::Written(true),
                _ => OtaResult::Done,
            }
        };
        match transfer.supply(reply) {
            OtaStep::Go(next, _) => transfer = next,
            OtaStep::End(end) => return end,
        }
    }
    unreachable!()
}

#[test]
fn update_fails() {
    assert_eq!(broken(0, OtaResult::Failed), OtaEnd::Answer("ERR ota_begin\n"));
    assert_eq!(broken(1, OtaResult::Failed), OtaEnd::Abort);
    let incomplete = OtaEnd::Answer("ERR upload incomplete\n");
    assert_eq!(broken(2, OtaResult::Failed), incomplete);
    assert_eq!(broken(2, OtaResult::Received(0)), incomplete);
    assert_eq!(broken(3, OtaResult::Failed), incomplete);
    assert_eq!(broken(3, OtaResult::Written(false)), incomplete);
    assert_eq!(
        broken(4, OtaResult::Failed),
        OtaEnd::Answer("ERR CRC/flash verification failed\n")
    );
}

fn bridge(text: &[u8], scan_running: bool) -> Result<(), BridgeRefusal> {
    bridge_request(&header(text, REQUEST_CAPACITY), b"secret", scan_running)
}

#[test]
fn bridge_clients_are_admitted() {
    assert_eq!(welcome(false, false), Ok(()));
    assert_eq!(welcome(true, false), Err(BridgeRefusal::Busy));
    assert_eq!(welcome(false, true), Err(BridgeRefusal::Busy));
    assert_eq!(bridge(b"FMDUBRIDGE1 secret\n", false), Ok(()));
    assert_eq!(
        bridge(b"FMDUBRIDGE1 secret\n", true),
        Err(BridgeRefusal::ScanBusy)
    );
    assert_eq!(
        bridge(b"FMDUBRIDGE1 secret x\n", true),
        Err(BridgeRefusal::Token)
    );
    assert_eq!(
        bridge(b"FMDUBRIDGE1 other\n", false),
        Err(BridgeRefusal::Token)
    );
    assert_eq!(bridge(b"FMDUBRIDGE1", false), Err(BridgeRefusal::Malformed));
    assert_eq!(bridge(b"\xff\n", false), Err(BridgeRefusal::Encoding));
    assert_eq!(BridgeRefusal::Busy.answer(), "ERR bridge busy\n");
    assert_eq!(BridgeRefusal::Malformed.answer(), "ERR malformed request\n");
    assert_eq!(BridgeRefusal::Encoding.answer(), "ERR request encoding\n");
    assert_eq!(BridgeRefusal::Token.answer(), "ERR invalid token\n");
    assert_eq!(BridgeRefusal::ScanBusy.answer(), "ERR scan busy\n");
    assert_eq!(
        greet(&BridgeEvent::Connected),
        Some("OK FreeMDU optical bridge\n")
    );
    assert_eq!(greet(&BridgeEvent::Disconnected), None);
    assert_eq!(greet(&BridgeEvent::Data(BridgeChunk::new())), None);
}

#[test]
fn bridge_is_transparent() {
    let chunk = |data: &[u8]| BridgeChunk::from_slice(data).unwrap();
    for data in [&b"x"[..], &[0xff; 32]] {
        match serve(ServerInput::Host(data)) {
            ServerOutput::Forward(BridgeCommand::Data(c)) => {
                assert_eq!(c.as_bytes(), data);
                match relay(PortInput::Command(BridgeCommand::Data(c))) {
                    PortOutput::Transmit(c) => assert_eq!(c.as_bytes(), data),
                    _ => panic!("the port transmits"),
                }
            }
            _ => panic!("the server forwards"),
        }
        match relay(PortInput::Received(data)) {
            PortOutput::Tell(BridgeEvent::Data(c)) => {
                match serve(ServerInput::Port(BridgeEvent::Data(c))) {
                    ServerOutput::Send(c) => assert_eq!(c.as_bytes(), data),
                    _ => panic!("the server sends"),
                }
            }
            _ => panic!("the port tells"),
        }
    }
    assert!(BridgeChunk::from_slice(&[0; 33]).is_none());
    assert_eq!(chunk(b"").as_bytes(), b"");
    assert!(matches!(serve(ServerInput::Host(b"")), ServerOutput::End));
    assert!(matches!(
        serve(ServerInput::Host(&[0; 33])),
        ServerOutput::End
    ));
    assert!(matches!(serve(ServerInput::HostFailed), ServerOutput::End));
    assert!(matches!(
        serve(ServerInput::Port(BridgeEvent::Connected)),
        ServerOutput::Idle
    ));
    assert!(matches!(
        serve(ServerInput::Port(BridgeEvent::Disconnected)),
        ServerOutput::End
    ));
    assert!(matches!(relay(PortInput::Received(b"")), PortOutput::Idle));
    assert!(matches!(
        relay(PortInput::Received(&[0; 33])),
        PortOutput::Idle
    ));
    assert!(matches!(relay(PortInput::ReceiveFailed), PortOutput::End));
    assert!(matches!(
        relay(PortInput::Command(BridgeCommand::Connect)),
        PortOutput::Idle
    ));
    assert!(matches!(
        relay(PortInput::Command(BridgeCommand::Disconnect)),
        PortOutput::End
    ));
}

#[test]
fn everything_is_written() {
    assert!(matches!(tcp_write_all::<()>(0), WriteStep::Done));
    assert!(matches!(tcp_write_all::<()>(5), WriteStep::From(0)));
    assert!(matches!(written::<()>(0, 5, Ok(2)), WriteStep::From(2)));
    assert!(matches!(written::<()>(2, 5, Ok(3)), WriteStep::Done));
    assert!(matches!(written::<()>(2, 5, Ok(0)), WriteStep::Reset));
    assert!(matches!(written(2, 5, Err('e')), WriteStep::Failed('e')));
    assert_eq!(closing(true, true), Closing::Close);
    assert_eq!(closing(true, false), Closing::Abort);
    assert_eq!(closing(false, true), Closing::Abort);
}

#[test]
fn progress_is_reported_also_where_the_image_is_incomplete() {
    let mut transfer = Transfer::begin(OtaRequest { size: 8, crc: 7 });
    for reply in [OtaResult::Done, OtaResult::Done, OtaResult::Received(4)] {
        assert_eq!(transfer.progress(reply), None);
        let OtaStep::Go(next, None) = transfer.supply(reply) else {
            panic!("the transfer goes on")
        };
        transfer = next;
    }
    assert_eq!(transfer.progress(OtaResult::Failed), None);
    assert_eq!(transfer.progress(OtaResult::Written(false)), Some(50));
    let OtaStep::Go(next, Some(50)) = transfer.supply(OtaResult::Written(false)) else {
        panic!("the transfer goes on")
    };
    let OtaStep::Go(last, None) = next.supply(OtaResult::Received(4)) else {
        panic!("the transfer goes on")
    };
    assert_eq!(last.progress(OtaResult::Written(false)), Some(100));
    assert_eq!(last.progress(OtaResult::Written(true)), Some(100));
    assert_eq!(
        last.supply(OtaResult::Written(false)),
        OtaStep::End(OtaEnd::Answer("ERR upload incomplete\n"))
    );
}
