use freemdu_home::optical::{
    fill, judge_read, DrainEvent, DrainStep, Draining, Echo, EchoStep, Echoing, OpticalError,
    OpticalProgress,
};

fn drain(events: &[DrainEvent]) -> DrainStep<()> {
    let mut draining = Draining::begin();
    for (i, event) in events.iter().enumerate() {
        match draining.supply::<()>(*event) {
            DrainStep::Again(next, pause) => {
                assert_eq!(pause, u64::from(*event == DrainEvent::Noise));
                draining = next;
            }
            over => {
                assert_eq!(i + 1, events.len());
                return over;
            }
        }
    }
    DrainStep::Again(draining, 0)
}

#[test]
fn silence_drains() {
    assert!(matches!(
        drain(&[DrainEvent::Silence]),
        DrainStep::Over(Ok(()))
    ));
    assert!(matches!(
        drain(&[DrainEvent::Bytes, DrainEvent::Silence]),
        DrainStep::Over(Err(OpticalError::LateInput))
    ));
    assert!(matches!(
        drain(&[DrainEvent::Noise, DrainEvent::Bytes, DrainEvent::Silence]),
        DrainStep::Over(Err(OpticalError::LateInput))
    ));
    assert!(matches!(
        drain(&[DrainEvent::Bytes, DrainEvent::Limit]),
        DrainStep::Over(Err(OpticalError::NoisyLine))
    ));
    assert!(matches!(
        drain(&[DrainEvent::Limit]),
        DrainStep::Over(Err(OpticalError::NoisyLine))
    ));
}

fn echo(sent: &[u8], echoes: Vec<Echo<u8>>) -> EchoStep<u8> {
    let mut step = Echoing::begin::<u8>(sent);
    for echo in echoes {
        match step {
            EchoStep::Again(echoing) => step = echoing.supply(sent, echo),
            _ => panic!("no echo is expected any more"),
        }
    }
    step
}

#[test]
fn every_byte_is_echoed() {
    assert!(matches!(echo(&[], vec![]), EchoStep::Sent));
    assert!(matches!(
        echo(&[1, 2], vec![Echo::Byte(1), Echo::Byte(2)]),
        EchoStep::Sent
    ));
    // A wrong byte is reported only once all echoes were consumed.
    assert!(matches!(
        echo(&[1, 2], vec![Echo::Byte(9)]),
        EchoStep::Again(_)
    ));
    assert!(matches!(
        echo(&[1, 2], vec![Echo::Byte(9), Echo::Byte(2)]),
        EchoStep::Failed(OpticalError::EchoMismatch)
    ));
    assert!(matches!(
        echo(&[1, 2], vec![Echo::Byte(1), Echo::Missing]),
        EchoStep::Failed(OpticalError::EchoTimeout)
    ));
    assert!(matches!(
        echo(&[1, 2], vec![Echo::Empty]),
        EchoStep::Failed(OpticalError::EmptyRead)
    ));
    assert!(matches!(
        echo(&[1, 2], vec![Echo::Failed(7)]),
        EchoStep::Failed(OpticalError::Receive(7))
    ));
}

#[test]
fn reads_are_judged() {
    assert!(matches!(judge_read::<()>(0, Err(())), Ok(0)));
    assert!(matches!(
        judge_read::<()>(4, Ok(0)),
        Err(OpticalError::EmptyRead)
    ));
    assert!(matches!(judge_read::<()>(4, Ok(3)), Ok(3)));
    assert!(matches!(
        judge_read(4, Err('x')),
        Err(OpticalError::Receive('x'))
    ));
    assert_eq!(fill(3, 10, 4), 7);
}

#[test]
fn progress_wraps() {
    let p = OpticalProgress::default();
    assert_eq!((p.tx, p.rx), (0, 0));
    let p = p.sent(5).received(7).received(usize::MAX);
    assert_eq!((p.tx, p.rx), (5, 6));
}

#[test]
fn errors_are_described() {
    let describe = |e: OpticalError<()>| String::from_utf8(e.describe(b"parity")).unwrap();
    assert_eq!(
        describe(OpticalError::Receive(())),
        "optical transport: Receive(parity)"
    );
    for (error, name) in [
        (OpticalError::Transmit, "Transmit"),
        (OpticalError::EchoTimeout, "EchoTimeout"),
        (OpticalError::EmptyRead, "EmptyRead"),
        (OpticalError::EchoMismatch, "EchoMismatch"),
        (OpticalError::NoisyLine, "NoisyLine"),
        (OpticalError::LateInput, "LateInput"),
    ] {
        assert_eq!(describe(error), format!("optical transport: {name}"));
    }
}
