use freemdu_home::accelerometer::Metrics;
use freemdu_home::bridge::BridgeCommand;
use freemdu_home::device::id498::properties;
use freemdu_home::device::{properties_of_kind, Action, ActionKind, Property, PropertyKind, Value};
use freemdu_home::diagnostics::command::DiagnosticCommand;
use freemdu_home::keyscan::{Phase, State};
use freemdu_home::link::{Reply, Request};
use freemdu_home::monitor::{
    actions_to_publish, availability_after, dryer_value, properties_to_publish, regains_after,
    regains_at_boot, resume_after_boot, sampling, scan_turn, Availability, PortTask, PublishStage,
    SensorTask, TaskAction, TaskEvent, WindowAction,
};
use freemdu_home::publish::{
    action_discovery, hostname, mg_as_g, property_discovery, property_value, publishes_action, select_action, sensor_id, sensor_topic,
    statistic, statistic_discovery, statistic_value, trigger_topic, triggered_action, unique_id, value_topic,
    Component, STATISTICS,
};

fn text(bytes: Vec<u8>) -> String {
    String::from_utf8(bytes).unwrap()
}

fn property(kind: PropertyKind) -> Property {
    Property {
        kind,
        id: "p",
        name: "P",
        unit: None,
    }
}

fn action(id: &'static str, kind: ActionKind, takes_parameter: bool) -> Action {
    Action {
        kind,
        id,
        name: "A",
        takes_parameter,
    }
}

#[test]
fn names_and_topics() {
    let host = hostname(&[0x0a, 0xff, 0, 1, 2, 3]);
    assert_eq!(text(host.clone()), "freemdu_home_0aff00010203");
    assert_eq!(text(unique_id(&host, b"door")), "freemdu_home_0aff00010203_door");
    assert_eq!(text(value_topic(b"door")), "door/value");
    assert_eq!(text(trigger_topic(b"start")), "start/trigger");
    assert_eq!(
        text(sensor_id(&host, b"rms")),
        "freemdu_home_0aff00010203_lis2dh_rms"
    );
    assert_eq!(text(sensor_topic(b"rms")), "accelerometer/rms/value");
}

#[test]
fn triggers_are_recognised() {
    assert_eq!(triggered_action(b"start/trigger"), Some(&b"start"[..]));
    assert_eq!(triggered_action(b"/trigger"), Some(&b""[..]));
    assert_eq!(triggered_action(b"start"), None);
    assert_eq!(triggered_action(b"start/value"), None);
    assert_eq!(triggered_action(b"a/b/trigger"), None);
    assert_eq!(triggered_action(b"start/trigger/x"), None);
    assert_eq!(triggered_action(&trigger_topic(b"stop")), Some(&b"stop"[..]));
}

#[test]
fn values_are_published_as_text() {
    let publish = |v: Value| property_value(&v).map(text);
    assert_eq!(publish(Value::Number(498)).unwrap(), "498");
    assert_eq!(publish(Value::Bool(true)).unwrap(), "Yes");
    assert_eq!(publish(Value::Bool(false)).unwrap(), "No");
    assert_eq!(publish(Value::String(b"Open".to_vec())).unwrap(), "Open");
    assert_eq!(publish(Value::Duration(59)).unwrap(), "0h 0min");
    assert_eq!(publish(Value::Duration(3600 * 27 + 61)).unwrap(), "27h 1min");
    assert_eq!(
        publish(Value::Date {
            year: 2003,
            month: 4,
            day: 15
        })
        .unwrap(),
        "2003-04-15"
    );
    assert!(publish(Value::Sensor).is_none());
    assert!(publish(Value::Fault).is_none());
}

#[test]
fn statistics_are_published() {
    let m = Metrics {
        samples: 100,
        x_mean_mg: -1,
        y_mean_mg: 2,
        z_mean_mg: 1003,
        x_stddev_mg: 4,
        y_stddev_mg: 5,
        z_stddev_mg: 6,
        vibration_rms_mg: 83,
        peak_to_peak_mg: 1234,
        acceleration_peak_mg: 2000,
        dynamic_peak_mg: 7,
    };
    let all: Vec<(&str, &str, &str, String)> = (0..STATISTICS)
        .map(|i| {
            let (id, name, unit) = statistic(i);
            (id, name, unit, text(statistic_value(&m, i)))
        })
        .collect();
    let expected = [
        ("acceleration_x_mean", "Acceleration X mean", "mg", "-1"),
        ("acceleration_y_mean", "Acceleration Y mean", "mg", "2"),
        ("acceleration_z_mean", "Acceleration Z mean", "mg", "1003"),
        ("vibration_x_stddev", "Vibration X stddev", "mg", "4"),
        ("vibration_y_stddev", "Vibration Y stddev", "mg", "5"),
        ("vibration_z_stddev", "Vibration Z stddev", "mg", "6"),
        ("vibration_rms", "Vibration RMS", "mg", "83"),
        ("acceleration_peak_to_peak", "Acceleration peak-to-peak", "mg", "1234"),
        ("acceleration_peak_g", "Peak acceleration", "g", "2.000"),
        ("dynamic_peak_g", "Dynamic peak", "g", "0.007"),
        ("vibration_rms_g", "Vibration RMS", "g", "0.083"),
        ("peak_to_peak_g", "Peak-to-peak", "g", "1.234"),
    ]
    .map(|(id, name, unit, value)| (id, name, unit, value.to_string()));
    assert_eq!(all, expected);
    assert_eq!(text(mg_as_g(u32::MAX)), "4294967.295");
}

#[test]
fn actions_are_selected() {
    let actions = [
        action("stop", ActionKind::Operation, false),
        action("start", ActionKind::Operation, true),
        action("start", ActionKind::Other(1), false),
    ];
    assert_eq!(select_action(&actions, b"stop"), Some((0, false)));
    assert_eq!(select_action(&actions, b"start"), Some((1, true)));
    assert_eq!(select_action(&actions, b"sta"), None);
    assert_eq!(actions_to_publish(&actions), [0]);
    assert!(publishes_action(&actions[0]));
    assert!(!publishes_action(&actions[1]));
    assert!(!publishes_action(&actions[2]));
}

#[test]
fn properties_are_selected() {
    let props = [
        property(PropertyKind::Other(3)),
        property(PropertyKind::Operation),
        property(PropertyKind::Other(3)),
        property(PropertyKind::Operation),
    ];
    assert_eq!(properties_to_publish(&props), [1, 3]);
    assert_eq!(properties_of_kind(&props, PropertyKind::Other(3)), [0, 2]);
    assert!(properties_of_kind(&props, PropertyKind::Other(4)).is_empty());
}

#[test]
fn all_queries_come_before_all_publishing() {
    let mut stage = PublishStage::begin(410, 2, 1);
    let mut stages = vec![];
    while !matches!(stage, PublishStage::Done) {
        stages.push(format!("{stage:?}"));
        stage = stage.next(2, 1);
    }
    assert_eq!(
        stages,
        [
            "Query(0)",
            "Query(1)",
            "Announce(0, None)",
            "Value(0, None)",
            "Announce(1, None)",
            "Value(1, None)",
            "Action(0)",
        ]
    );
    for id in [410, 498] {
        assert!(matches!(PublishStage::begin(id, 0, 0), PublishStage::Done));
        assert!(matches!(
            PublishStage::begin(id, 0, 1),
            PublishStage::Action(0)
        ));
    }
}

#[test]
fn dryer_is_observed_once_for_all_its_values() {
    let all = properties();
    let props = properties_to_publish(&all);
    assert_eq!(props, (0..13).collect::<Vec<usize>>());

    let mut reads = vec![];
    let mut published = vec![];
    let mut stage = PublishStage::begin(498, props.len(), 0);
    loop {
        match stage {
            PublishStage::Observe(observing) => {
                let Request::ReadMemory {
                    address, length, ..
                } = observing.request()
                else {
                    panic!("only memory is read")
                };
                // Each read meets other contents.
                let value = 0x0f + reads.len() as u8;
                reads.push((address, length));
                let mut block = vec![value; 16];
                if address == 0x260 {
                    block[5..8].fill(1);
                }
                stage = stage.supply(Reply::Data(block)).unwrap();
                continue;
            }
            PublishStage::Query(_) => panic!("no property is queried"),
            PublishStage::Value(i, Some(observed)) => {
                let text = dryer_value(&observed, props[i]).unwrap();
                published.push((all[props[i]].id, String::from_utf8(text).unwrap()));
            }
            PublishStage::Announce(_, Some(_)) => {}
            PublishStage::Done => break,
            other => panic!("{other:?}"),
        }
        stage = stage.next(props.len(), 0);
    }
    assert_eq!(reads, [(0xb0, 16), (0x260, 16), (0x270, 16)]);
    assert_eq!(published.len(), 13);
    let value = |id: &str| {
        let (_, text) = published.iter().find(|(other, _)| *other == id).unwrap();
        text.clone()
    };
    assert_eq!(value("dryer_program"), "Ende");
    assert_eq!(value("dryer_program_raw"), "0x0f");
    assert_eq!(value("dryer_door"), "Open");
    assert_eq!(value("dryer_door_raw"), "01 01 01");
    assert_eq!(value("dryer_post_run_raw"), "0x10");
    assert_eq!(value("dryer_flags_raw"), "10 11");
    assert_eq!(value("dryer_run_raw"), "0x11");
    assert_eq!(value("dryer_transition_raw"), "0x11");
    assert_eq!(value("dryer_software_id"), "498");
}

#[test]
fn dryer_is_not_published_when_a_read_fails() {
    let first = PublishStage::begin(498, 13, 0);
    assert!(first.supply(Reply::Failed(vec![])).is_none());
    let second = first.supply(Reply::Data(vec![0; 16])).unwrap();
    assert!(second.supply(Reply::TimedOut(vec![])).is_none());
    let third = second.supply(Reply::Data(vec![0; 16])).unwrap();
    assert!(third.supply(Reply::Done).is_none());
    assert!(matches!(
        third.supply(Reply::Data(vec![0; 16])),
        Some(PublishStage::Announce(0, Some(_)))
    ));
}

#[test]
fn dryer_is_published_every_five_seconds() {
    let mut task = PortTask::new();
    assert_eq!(task.publish_interval(60), 60);
    task.detected(498);
    assert_eq!(task.publish_interval(60), 5);
    task.dispatch(TaskEvent::MqttDisconnected);
    assert_eq!(task.publish_interval(60), 5);
    task.detected(410);
    assert_eq!(task.publish_interval(60), 60);
}

#[test]
fn events_are_dispatched() {
    let mut task = PortTask::new();
    assert!(task.led_high());
    assert!(matches!(
        task.dispatch(TaskEvent::PublishTick),
        TaskAction::Idle
    ));
    assert!(matches!(
        task.dispatch(TaskEvent::MqttConnected),
        TaskAction::RestartInterval
    ));
    assert!(!task.led_high());
    assert!(matches!(
        task.dispatch(TaskEvent::PublishTick),
        TaskAction::Publish
    ));
    assert!(matches!(
        task.dispatch(TaskEvent::TraceTick),
        TaskAction::Trace
    ));
    assert!(matches!(
        task.dispatch(TaskEvent::Ambient),
        TaskAction::Idle
    ));
    assert!(matches!(
        task.dispatch(TaskEvent::Bridge(BridgeCommand::Connect)),
        TaskAction::Bridge
    ));
    assert!(matches!(
        task.dispatch(TaskEvent::Bridge(BridgeCommand::Disconnect)),
        TaskAction::Idle
    ));
    assert!(matches!(
        task.dispatch(TaskEvent::Diagnostic(DiagnosticCommand::QueryId)),
        TaskAction::Execute(DiagnosticCommand::QueryId)
    ));
    let message = |topic: &[u8], payload: &[u8]| TaskEvent::MqttMessage {
        topic: topic.to_vec(),
        payload: payload.to_vec(),
    };
    match task.dispatch(message(b"start/trigger", b"now")) {
        TaskAction::Trigger { id, param } => {
            assert_eq!((id, param), (b"start".to_vec(), b"now".to_vec()))
        }
        _ => panic!("an action is triggered"),
    }
    assert!(matches!(
        task.dispatch(message(b"start/trigger", b"\xff")),
        TaskAction::Idle
    ));
    assert!(matches!(
        task.dispatch(message(b"start/value", b"now")),
        TaskAction::Idle
    ));
    assert!(matches!(
        task.dispatch(TaskEvent::MqttDisconnected),
        TaskAction::Idle
    ));
    assert!(task.led_high());
}

#[test]
fn line_is_regained() {
    assert!(regains_after(b"ERR read_memory\n"));
    assert!(!regains_after(b"OK ERR \n"));
    assert!(!regains_after(b"ERR"));
    assert_eq!(availability_after(true), (Availability::Online, false));
    assert_eq!(availability_after(false), (Availability::Offline, true));
}

#[test]
fn job_resumes_after_a_boot() {
    let state = State::start(410, 1, 9, 40, 500).unwrap();
    assert!(regains_at_boot(state));
    assert_eq!(resume_after_boot(state, true), (state, false));
    let mut failed = state;
    failed.failure();
    assert_eq!(resume_after_boot(state, false), (failed, true));
    let found = State {
        phase: Phase::Found,
        ..state
    };
    assert!(!regains_at_boot(found));
    assert_eq!(resume_after_boot(found, false), (found, false));
    let turn = scan_turn(Some(BridgeCommand::Connect), None);
    assert!(turn.refuse_bridge);
    assert_eq!(turn.command, None);
    let turn = scan_turn(
        Some(BridgeCommand::Disconnect),
        Some(DiagnosticCommand::ScanPause),
    );
    assert!(!turn.refuse_bridge);
    assert_eq!(turn.command, Some(DiagnosticCommand::ScanPause));
}

#[test]
fn windows_are_published() {
    let s = sampling(100, 10);
    assert_eq!((s.hz, s.period_us, s.target_samples), (100, 10_000, 1000));
    let s = sampling(0, 0);
    assert_eq!((s.hz, s.period_us, s.target_samples), (1, 1_000_000, 1));
    let s = sampling(400, u32::MAX);
    assert_eq!((s.period_us, s.target_samples), (2500, u32::MAX));
    let mut task = SensorTask::new();
    assert_eq!(task.window(999, 1000, true), WindowAction::Continue);
    assert_eq!(
        task.window(1000, 1000, true),
        WindowAction::Publish { announce: true }
    );
    task.announced(false);
    assert_eq!(
        task.window(1000, 1000, true),
        WindowAction::Publish { announce: true }
    );
    task.announced(true);
    assert_eq!(
        task.window(1000, 1000, true),
        WindowAction::Publish { announce: false }
    );
    assert_eq!(task.window(1000, 1000, false), WindowAction::Discard);
    assert!(!task.announced);
    task.announced(true);
    task.lost_sensor();
    assert!(!task.announced);
}

#[test]
fn entities_are_announced() {
    let prop = Property {
        unit: Some("rpm"),
        ..property(PropertyKind::Operation)
    };
    let d = property_discovery(&prop, b"Washer", b"host");
    assert_eq!(text(d.device), "Washer");
    assert_eq!(text(d.unique_id), "host_p");
    assert_eq!((d.name, d.availability_topic), ("P", Some("status")));
    assert_eq!(d.state_topic.map(text).unwrap(), "p/value");
    assert!(d.command_topic.is_none());
    assert_eq!(d.component, Component::Sensor { unit: Some("rpm") });

    let d = action_discovery(&action("stop", ActionKind::Operation, false), b"Washer", b"host");
    assert_eq!(text(d.device), "Washer");
    assert_eq!(text(d.unique_id), "host_stop");
    assert_eq!((d.name, d.availability_topic), ("A", Some("status")));
    assert!(d.state_topic.is_none());
    assert_eq!(d.command_topic.map(text).unwrap(), "stop/trigger");
    assert_eq!(d.component, Component::Button);

    let d = statistic_discovery(8, b"host");
    assert_eq!(text(d.device), "FreeMDU vibration monitor");
    assert_eq!(text(d.unique_id), "host_lis2dh_acceleration_peak_g");
    assert_eq!((d.name, d.availability_topic), ("Peak acceleration", None));
    assert_eq!(
        d.state_topic.map(text).unwrap(),
        "accelerometer/acceleration_peak_g/value"
    );
    assert!(d.command_topic.is_none());
    assert_eq!(d.component, Component::Sensor { unit: Some("g") });
}
