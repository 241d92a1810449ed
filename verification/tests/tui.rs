use freemdu_home::device::{Property, PropertyKind, Value};
use freemdu_home::link::{Reply, Request as LinkRequest, DEVICE_TIMEOUT_MS};
use freemdu_home::tui::app::{
    handle_event, handle_worker_response, Display, KeyAction, Routed,
};
use freemdu_home::tui::raw_session::RawSession;
use freemdu_home::tui::transport::{
    auth_line, bridge_token, endpoint, AuthAnswer, Endpoint, TransportError,
};
use freemdu_home::tui::worker::{
    action_response, known_device_work, use_raw_mode, ActionOutcome, ConnectOutcome, QueryStep,
    RawStep, RawWork, Request, Response, Work,
};

#[test]
fn endpoints_are_told_apart() {
    assert!(matches!(endpoint(b"/dev/ttyACM0"), Ok(Endpoint::Serial)));
    assert!(matches!(endpoint(b"TCP://host"), Ok(Endpoint::Serial)));
    match endpoint(b"tcp://10.0.42.155:3235") {
        Ok(Endpoint::Bridge(address)) => assert_eq!(address, b"10.0.42.155:3235"),
        other => panic!("{other:?}"),
    }
    assert!(matches!(
        endpoint(b"tcp://"),
        Err(TransportError::EmptyAddress)
    ));
}

#[test]
fn token_comes_from_the_command_line_first() {
    assert_eq!(bridge_token(Some(b"cli"), Some(b"env")).unwrap(), b"cli");
    assert_eq!(bridge_token(Some(b""), Some(b"env")).unwrap(), b"env");
    assert_eq!(bridge_token(None, Some(b"")).unwrap(), b"");
    assert!(matches!(
        bridge_token(None, None),
        Err(TransportError::MissingToken)
    ));
    assert!(matches!(
        bridge_token(Some(b"a b"), None),
        Err(TransportError::TokenWhitespace)
    ));
    assert!(matches!(
        bridge_token(Some("a\u{2003}b".as_bytes()), None),
        Err(TransportError::TokenWhitespace)
    ));
    assert_eq!(auth_line(b"cli"), b"FMDUBRIDGE1 cli\n");
}

fn answer(bytes: &[u8]) -> Result<(), TransportError> {
    let mut answer = AuthAnswer::new();
    for b in bytes {
        if !answer.is_open() {
            break;
        }
        answer.push(Some(*b))?;
    }
    if answer.is_open() {
        answer.push(None)?;
    }
    answer.finish()
}

#[test]
fn authentication_is_answered() {
    assert!(answer(b"OK FreeMDU optical bridge\n").is_ok());
    match answer(b"ERR invalid token \r\n") {
        Err(TransportError::Rejected(text)) => assert_eq!(text, b"ERR invalid token"),
        other => panic!("{other:?}"),
    }
    assert!(matches!(
        answer(b"OK\n"),
        Err(TransportError::Rejected(_))
    ));
    // The answer is trimmed before it is compared.
    assert!(matches!(
        answer(b"OK \n"),
        Err(TransportError::Rejected(_))
    ));
    assert!(matches!(answer(b"OK Free"), Err(TransportError::Closed)));
    assert!(matches!(answer(&[b'O'; 300]), Err(TransportError::TooLong)));
    assert!(matches!(
        answer(b"OK \xff\n"),
        Err(TransportError::Encoding)
    ));
    let mut longest = vec![b' '; 256];
    longest[..4].copy_from_slice(b"OK x");
    longest[255] = b'\n';
    assert!(answer(&longest).is_ok());
}

#[test]
fn unknown_devices_get_a_raw_session() {
    assert!(use_raw_mode(&ConnectOutcome::Failed(
        b"device: unknown software ID 512".to_vec()
    )));
    assert!(!use_raw_mode(&ConnectOutcome::Failed(
        b"unknown software id".to_vec()
    )));
    assert!(!use_raw_mode(&ConnectOutcome::TimedOut));
    assert!(!use_raw_mode(&ConnectOutcome::Connected));
}

#[test]
fn actions_are_answered() {
    assert!(matches!(action_response(3, ActionOutcome::Done), Ok(None)));
    assert!(matches!(
        action_response(3, ActionOutcome::InvalidArgument),
        Ok(Some(Response::InvalidActionArgument(3)))
    ));
    assert!(matches!(
        action_response(3, ActionOutcome::InvalidState),
        Ok(Some(Response::InvalidActionState(3)))
    ));
    assert!(action_response(3, ActionOutcome::Failed).is_err());
}

fn status(step: RawStep) -> String {
    match step {
        RawStep::Answer(Response::RawStatus(text)) => String::from_utf8(text).unwrap(),
        other => panic!("{other:?}"),
    }
}

fn go_on(step: RawStep) -> RawWork {
    match step {
        RawStep::Do(work) => work,
        other => panic!("{other:?}"),
    }
}

#[test]
fn raw_requests_are_worked_on() {
    let query = || RawWork::begin(Request::RawQuerySoftwareId).unwrap();
    assert_eq!(query().request(), LinkRequest::QueryId);
    assert_eq!(
        status(query().supply(Reply::Id(410))),
        "Software ID: 410 / 0x019a"
    );
    assert_eq!(
        status(query().supply(Reply::Failed(b"noise".to_vec()))),
        "Software-ID query failed: noise"
    );
    assert_eq!(
        status(query().supply(Reply::TimedOut(b"elapsed".to_vec()))),
        "Software-ID query timed out"
    );

    let unlock = || {
        let work = RawWork::begin(Request::RawUnlockRead { key: 0x1234 }).unwrap();
        assert_eq!(work.request(), LinkRequest::QueryId);
        let work = go_on(work.supply(Reply::Id(1)));
        assert_eq!(work.request(), LinkRequest::Unlock { key: 0x1234 });
        work
    };
    assert_eq!(
        status(unlock().supply(Reply::Done)),
        "Read access unlocked with key 0x1234"
    );
    assert_eq!(
        status(unlock().supply(Reply::Failed(b"noise".to_vec()))),
        "Read unlock failed: noise"
    );
    assert_eq!(
        status(unlock().supply(Reply::TimedOut(vec![]))),
        "Read unlock timed out"
    );

    let read = |request: Request, operation: LinkRequest| {
        let work = go_on(RawWork::begin(request).unwrap().supply(Reply::Id(1)));
        let work = go_on(work.supply(Reply::Done));
        assert_eq!(work.request(), operation);
        work
    };
    let memory = || {
        read(
            Request::RawReadMemory16 { key: 0, address: 5 },
            LinkRequest::ReadMemory {
                address: 5,
                length: 16,
                timeout_ms: DEVICE_TIMEOUT_MS,
            },
        )
    };
    match memory().supply(Reply::Data(vec![7; 16])) {
        RawStep::Answer(Response::RawData { label, data }) => {
            assert_eq!((label, data), ("Memory @ 0x0000", vec![7; 16]))
        }
        other => panic!("{other:?}"),
    }
    assert_eq!(
        status(memory().supply(Reply::TimedOut(vec![]))),
        "Memory read timed out"
    );
    assert_eq!(
        status(memory().supply(Reply::Failed(b"x".to_vec()))),
        "Memory read failed: x"
    );
    let eeprom = || {
        read(
            Request::RawReadEeprom16 { key: 0, address: 5 },
            LinkRequest::ReadEeprom {
                address: 5,
                length: 16,
            },
        )
    };
    match eeprom().supply(Reply::Data(vec![7; 16])) {
        RawStep::Answer(Response::RawData { label, .. }) => {
            assert_eq!(label, "EEPROM @ word 0x0000")
        }
        other => panic!("{other:?}"),
    }
    assert_eq!(
        status(eeprom().supply(Reply::Failed(b"x".to_vec()))),
        "EEPROM read failed: x"
    );
    assert_eq!(
        status(eeprom().supply(Reply::TimedOut(vec![]))),
        "EEPROM read timed out"
    );
    assert!(RawWork::begin(Request::QueryProperties(PropertyKind::Operation)).is_none());
    assert!(RawWork::begin(Request::TriggerAction(0, None)).is_none());
}

fn properties() -> Vec<Property> {
    [
        PropertyKind::Operation,
        PropertyKind::Other(1),
        PropertyKind::Operation,
    ]
    .map(|kind| Property {
        kind,
        id: "p",
        name: "P",
        unit: None,
    })
    .to_vec()
}

#[test]
fn properties_are_queried_in_order() {
    let work = known_device_work(
        Request::QueryProperties(PropertyKind::Operation),
        &properties(),
    );
    let Work::Query(QueryStep::Do(query)) = work else {
        panic!("there are properties");
    };
    assert_eq!(query.request(), 0);
    let QueryStep::Do(query) = query.supply(Some(Value::Number(5))) else {
        panic!("another property is queried");
    };
    assert_eq!(query.request(), 2);
    match query.supply(Some(Value::Bool(true))) {
        QueryStep::Answer(Response::PropertiesQueried(PropertyKind::Operation, data)) => {
            assert!(matches!(
                data[..],
                [(0, Value::Number(5)), (2, Value::Bool(true))]
            ))
        }
        other => panic!("{other:?}"),
    }
    let Work::Query(QueryStep::Do(query)) = known_device_work(
        Request::QueryProperties(PropertyKind::Other(1)),
        &properties(),
    ) else {
        panic!("there is a property");
    };
    assert!(matches!(query.supply(None), QueryStep::Failed));
    match known_device_work(
        Request::QueryProperties(PropertyKind::Other(9)),
        &properties(),
    ) {
        Work::Query(QueryStep::Answer(Response::PropertiesQueried(
            PropertyKind::Other(9),
            data,
        ))) => assert!(data.is_empty()),
        other => panic!("{other:?}"),
    }
    match known_device_work(Request::TriggerAction(4, Some(b"x".to_vec())), &[]) {
        Work::Trigger(4, Some(param)) => assert_eq!(param, b"x"),
        other => panic!("{other:?}"),
    }
    assert!(matches!(
        known_device_work(Request::RawUnlockRead { key: 0 }, &[]),
        Work::Idle
    ));
}

#[test]
fn raw_session_shows_its_data() {
    let mut raw = RawSession::create(512);
    assert_eq!(
        raw.status,
        b"Unknown device connected; read-only diagnostic mode"
    );
    assert_eq!(
        String::from_utf8(raw.title()).unwrap(),
        " Unknown Miele device \u{2014} Software ID 512 / 0x0200 "
    );
    assert_eq!(raw.render_data(), [b"No raw data captured yet."]);
    raw.handle_worker_response(Response::RawData {
        label: "Memory @ 0x0000",
        data: (0..18).collect(),
    });
    assert_eq!(raw.status, b"Memory @ 0x0000: 18 bytes received");
    let lines: Vec<String> = raw
        .render_data()
        .into_iter()
        .map(|line| String::from_utf8(line).unwrap())
        .collect();
    assert_eq!(
        lines,
        [
            "Memory @ 0x0000",
            "0000: 00 01 02 03 04 05 06 07 08 09 0a 0b 0c 0d 0e 0f ",
            "0010: 10 11 ",
        ]
    );
    raw.handle_worker_response(Response::RawStatus(b"status".to_vec()));
    assert_eq!(raw.status, b"status");
    raw.handle_worker_response(Response::DeviceDisconnected);
    assert_eq!(raw.status, b"status");
}

#[test]
fn keys_ask_for_reads() {
    for (key, expected) in [
        ('i', Some("RawQuerySoftwareId")),
        ('u', Some("RawUnlockRead { key: 0 }")),
        ('m', Some("RawReadMemory16 { key: 0, address: 0 }")),
        ('e', Some("RawReadEeprom16 { key: 0, address: 0 }")),
        ('q', None),
        ('I', None),
    ] {
        let mut raw = RawSession::create(1);
        let request = raw.handle_event(key);
        assert_eq!(request.map(|r| format!("{r:?}")).as_deref(), expected);
        assert_eq!(
            raw.status == b"Running diagnostic request...",
            expected.is_some()
        );
    }
}

#[test]
fn sessions_come_and_go() {
    let (display, routed) =
        handle_worker_response(Display::Waiting, Response::DeviceConnected { software_id: 1 });
    assert!(matches!((&display, &routed), (Display::Session, Routed::Taken)));
    let (display, routed) = handle_worker_response(display, Response::InvalidActionState(3));
    assert!(matches!(
        routed,
        Routed::Session(Response::InvalidActionState(3))
    ));
    let (display, _) =
        handle_worker_response(display, Response::UnknownDeviceConnected { software_id: 2 });
    assert!(matches!(&display, Display::Raw(raw) if raw.software_id == 2));
    let (display, routed) =
        handle_worker_response(display, Response::RawStatus(b"new".to_vec()));
    assert!(matches!(routed, Routed::Taken));
    assert!(matches!(&display, Display::Raw(raw) if raw.status == b"new"));
    let (display, _) = handle_worker_response(display, Response::DeviceDisconnected);
    assert!(matches!(display, Display::Waiting));
    let (display, routed) =
        handle_worker_response(display, Response::RawStatus(b"new".to_vec()));
    assert!(matches!((display, routed), (Display::Waiting, Routed::Taken)));
}

#[test]
fn keys_are_handled() {
    let raw = || Display::Raw(RawSession::create(1));
    let (display, action) = handle_event(raw(), 'm', false);
    assert!(matches!(
        action,
        KeyAction::Send(Request::RawReadMemory16 { key: 0, address: 0 })
    ));
    assert!(matches!(display, Display::Raw(_)));
    assert!(matches!(handle_event(raw(), 'q', false).1, KeyAction::Exit));
    assert!(matches!(
        handle_event(Display::Waiting, 'm', false).1,
        KeyAction::Idle
    ));
    assert!(matches!(
        handle_event(Display::Session, 'c', true).1,
        KeyAction::Exit
    ));
    assert!(matches!(
        handle_event(Display::Session, 'c', false).1,
        KeyAction::Idle
    ));
}
