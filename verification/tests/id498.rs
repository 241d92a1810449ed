use freemdu_home::device::id498::{
    door, motion, observed_phase, phase, program, properties, running, ConnectStep, Connecting,
    ObserveStep, Observing, Snapshot, TumbleDryer, READ_KEY,
};
use freemdu_home::device::{Action, ActionKind, DeviceKind, Error, Property, PropertyKind, Value};
use freemdu_home::link::{Reply, Request};

/// A memory dump with the given selector, door and run markers.
fn dump(selector: u8, open: bool, run: u8) -> Vec<u8> {
    let mut b = vec![0; 0x480];
    b[0xb6] = selector;
    b[0x265..0x268].fill(u8::from(open));
    b[0x270] = run;
    b
}

#[test]
fn labelled_dumps() {
    let cases: &[(Vec<u8>, u8, &str, &str)] = &[
        (dump(15, false, 0x55), 15, "Closed", "Not running"),
        (dump(14, false, 0x55), 14, "Closed", "Not running"),
        (dump(8, false, 0x55), 8, "Closed", "Not running"),
        (dump(4, false, 0x55), 4, "Closed", "Not running"),
        (dump(5, false, 0x55), 5, "Closed", "Not running"),
        (dump(5, true, 0x55), 5, "Open", "Not running"),
        (dump(5, false, 0xaa), 5, "Closed", "Running"),
        (dump(4, false, 0xaa), 4, "Closed", "Running"),
        (dump(15, false, 0x55), 15, "Closed", "Not running"),
    ];
    for (b, selector, d, run) in cases {
        let snap = Snapshot {
            program: b[0xb0..0xc0].try_into().unwrap(),
            door: b[0x260..0x270].try_into().unwrap(),
            run: b[0x270..0x280].try_into().unwrap(),
        };
        assert_eq!(snap.program[6], *selector);
        assert_ne!(program(*selector), "Unknown");
        assert_eq!(door([snap.door[5], snap.door[6], snap.door[7]]), *d);
        assert_eq!(running(snap.run[0]), *run);
        for p in &properties() {
            assert!(snap.value::<core::convert::Infallible>(p).is_ok());
        }
    }
}

#[test]
fn connection_only_unlocks_reads() {
    let first = TumbleDryer::connect();
    assert_eq!(first.request(), Request::QueryId);
    let second = match first.supply(Reply::Id(498)) {
        ConnectStep::Do(next) => next,
        other => panic!("{other:?}"),
    };
    assert_eq!(second.request(), Request::Unlock { key: 0x2b2c });
    let dev = match second.supply(Reply::Done) {
        ConnectStep::Connected(dev) => dev,
        other => panic!("{other:?}"),
    };
    assert_eq!(dev.software_id(), 498);
    assert_eq!(dev.kind(), DeviceKind::TumbleDryer);
    assert!(dev.actions().is_empty());
    assert_eq!(READ_KEY, 0x2b2c);
}

#[test]
fn validated_interruption_and_selectors() {
    assert_eq!(
        observed_phase(5, 0x55, 0, [1, 1, 1]),
        "Door open / inactive"
    );
    assert_eq!(
        observed_phase(5, 0x55, 0, [0, 0, 0]),
        "Inactive / waiting / interrupted / post-run"
    );
    assert_eq!(observed_phase(5, 0xaa, 1, [0, 0, 0]), "Program active");
    assert_eq!(observed_phase(5, 0xaa, 1, [1, 1, 1]), "Unknown");
    assert_eq!(observed_phase(5, 0x55, 0, [0, 1, 0]), "Unknown");
    for (raw, label) in [
        (1, "Koch/Bunt Schranktrocken / Schonen"),
        (3, "Koch/Bunt Buegelfeucht"),
        (2, "Koch/Bunt Mangelfeucht"),
        (6, "Glaetten"),
        (7, "Finish Wolle"),
    ] {
        assert_eq!(program(raw), label);
    }
}

#[test]
fn uncertainty_and_post_run() {
    assert_eq!(door([0, 1, 0]), "Unknown");
    assert_eq!(program(255), "Unknown");
    assert_eq!(running(0), "Unknown");
    assert_eq!(motion(3), "Unknown");
    assert_eq!(phase(5, 0xaa, 0), "Program active");
    assert_eq!(
        phase(5, 0x55, 1),
        "Inactive / waiting / interrupted / post-run"
    );
    assert_eq!(
        phase(5, 0x55, 0),
        "Inactive / waiting / interrupted / post-run"
    );
}

#[test]
fn other_appliances_are_refused() {
    match TumbleDryer::connect().supply(Reply::Id(410)) {
        ConnectStep::Failed(Error::UnknownSoftwareId(id)) => assert_eq!(id, 410),
        other => panic!("{other:?}"),
    }
    assert!(matches!(
        Connecting::Unlock.supply(Reply::TimedOut(vec![])),
        ConnectStep::Failed(Error::Link(Reply::TimedOut(_)))
    ));
}

#[test]
fn snapshot_reads_three_blocks() {
    let mut stage = Observing::Program;
    let mut addresses = vec![];
    let snapshot = loop {
        match stage.request() {
            Request::ReadMemory {
                address, length, ..
            } => {
                assert_eq!(length, 16);
                addresses.push(address);
                let data = vec![address as u8; 16];
                match stage.supply(Reply::Data(data)) {
                    ObserveStep::Do(next) => stage = next,
                    ObserveStep::Observed(snapshot) => break snapshot,
                    ObserveStep::Failed(reply) => panic!("{reply:?}"),
                }
            }
            other => panic!("{other:?}"),
        }
    };
    assert_eq!(addresses, [0xb0, 0x260, 0x270]);
    assert_eq!(snapshot.program, [0xb0; 16]);
    assert_eq!(snapshot.door, [0x60; 16]);
    assert_eq!(snapshot.run, [0x70; 16]);
    assert!(matches!(
        Observing::Program.supply(Reply::Failed(vec![1])),
        ObserveStep::Failed(Reply::Failed(_))
    ));
}

#[test]
fn values_are_decoded() {
    let mut snap = Snapshot {
        program: [0; 16],
        door: [0; 16],
        run: [0; 16],
    };
    snap.program[6] = 14;
    snap.door[0] = 0x21;
    snap.door[5..8].copy_from_slice(&[1, 1, 1]);
    snap.door[10] = 0xab;
    snap.run[0] = 0x55;
    snap.run[14] = 2;
    snap.run[15] = 0x0f;
    let texts: Vec<String> = properties()
        .iter()
        .map(|p| match snap.value::<()>(p).unwrap() {
            Value::String(s) => String::from_utf8(s).unwrap(),
            Value::Number(n) => format!("number {n}"),
            other => panic!("{other:?}"),
        })
        .collect();
    assert_eq!(
        texts,
        [
            "Koch/Bunt Schranktrocken+",
            "Open",
            "Not running",
            "Marker 2",
            "Door open / inactive",
            "0x0e",
            "01 01 01",
            "0x55",
            "ab 02",
            "0x21",
            "0x02",
            "0x0f",
            "number 498",
        ]
    );
}

#[test]
fn unknown_properties_and_actions() {
    let dev = match Connecting::Unlock.supply(Reply::Done) {
        ConnectStep::Connected(dev) => dev,
        other => panic!("{other:?}"),
    };
    let mut p = properties()[0];
    assert!(dev.query_property::<()>(&p).is_ok());
    p.name = "Another name";
    assert!(matches!(
        dev.query_property::<()>(&p),
        Err(Error::UnknownProperty)
    ));
    let stranger = Property {
        kind: PropertyKind::Operation,
        id: "dryer_temperature",
        name: "Dryer Temperature",
        unit: Some("C"),
    };
    let snap = Snapshot {
        program: [0; 16],
        door: [0; 16],
        run: [0; 16],
    };
    assert!(matches!(
        snap.value::<()>(&stranger),
        Err(Error::UnknownProperty)
    ));
    let action = Action {
        kind: ActionKind::Operation,
        id: "start",
        name: "Start",
        takes_parameter: false,
    };
    assert!(matches!(
        dev.trigger_action::<()>(&action, None),
        Err(Error::UnknownAction)
    ));
}
