//! The task that owns the optical port, and the task of the accelerometer: what
//! they do next.

use crate::bridge::BridgeCommand;
use crate::device::id498::{block_read, dryer_property, lemma_every_property_has_a_value};
use crate::device::id498::{properties, ObserveStep, Observing, Snapshot, PROPERTY_COUNT, SOFTWARE_ID};
use crate::device::{of_kind, positions, properties_of_kind};
use crate::device::{Action, ActionKind, Property, PropertyKind};
use crate::diagnostics::DiagnosticCommand;
use crate::keyscan::{Phase, State};
use crate::link::{Reply, Request};
use crate::publish::{property_value, publishes_action, triggered, triggered_action, value_text};
use crate::text::{copy_of, has_prefix, is_utf8, starts_with};
use vstd::prelude::*;
use vstd::string::*;
use vstd::utf8::*;

verus! {

// ---------------------------------------------------------------------------
// The port's task
// ---------------------------------------------------------------------------
/// The job after a boot, and whether it is to be saved.
pub open spec fn resumed(s: State, regained: bool) -> (State, bool) {
    if s.phase == Phase::Running && !regained {
        (s.after_failure(), true)
    } else {
        (s, false)
    }
}

/// The job after a boot. A running job resumes only on a line that could be
/// regained; otherwise the failure is noted, and the job is to be saved.
pub fn resume_after_boot(s: State, regained: bool) -> (r: (State, bool))
    ensures
        r == resumed(s, regained),
{
    if s.phase == Phase::Running && !regained {
        let mut s = s;
        s.failure();
        return (s, true);
    }
    (s, false)
}

/// A boot has to regain the line.
pub open spec fn needs_line_at_boot(s: State) -> bool {
    s.phase == Phase::Running
}

/// Tells whether a boot has to regain the line.
pub fn regains_at_boot(s: State) -> (r: bool)
    ensures
        r == needs_line_at_boot(s),
{
    s.phase == Phase::Running
}

/// What the task does between two candidates of a running job.
#[derive(Clone, Copy, Debug, PartialEq, Eq, Structural)]
pub struct ScanTurn {
    /// A bridge client is told that it is not connected.
    pub refuse_bridge: bool,
    /// A command is executed; where none waits the job goes on.
    pub command: Option<DiagnosticCommand>,
}

/// A turn of a running job with what waits at the bridge and the diagnostic console.
pub open spec fn turn_of(
    bridge: Option<BridgeCommand>,
    command: Option<DiagnosticCommand>,
) -> ScanTurn {
    ScanTurn { refuse_bridge: bridge matches Some(BridgeCommand::Connect), command }
}

/// Takes a turn of a running job: what waits at the bridge and the diagnostic
/// console. Commands never own the job.
pub fn scan_turn(bridge: Option<BridgeCommand>, command: Option<DiagnosticCommand>) -> (r: ScanTurn)
    ensures
        r == turn_of(bridge, command),
{
    let refuse_bridge = match bridge {
        Some(BridgeCommand::Connect) => true,
        _ => false,
    };
    ScanTurn { refuse_bridge, command }
}

/// What the task waits for while no job runs.
pub enum TaskEvent {
    Bridge(BridgeCommand),
    Diagnostic(DiagnosticCommand),
    MqttConnected,
    MqttDisconnected,
    /// A message for this device.
    MqttMessage { topic: Vec<u8>, payload: Vec<u8> },
    /// It is time to publish the device.
    PublishTick,
    /// It is time to trace.
    TraceTick,
    /// The idle port received something, or failed to.
    Ambient,
}

/// What the task does then.
pub enum TaskAction {
    /// Nothing.
    Idle,
    /// Let a bridge client own the port until it leaves, then regain the line.
    Bridge,
    /// Execute a command; an answer that is an error is followed by regaining the
    /// line.
    Execute(DiagnosticCommand),
    /// Begin the publishing interval anew.
    RestartInterval,
    /// Trigger an action with this parameter.
    Trigger { id: Vec<u8>, param: Vec<u8> },
    /// Publish the device, and then its availability.
    Publish,
    /// Sweep the memory of the appliance.
    Trace,
}

/// The task of the port.
#[derive(Clone, Copy, Debug, PartialEq, Eq, Structural)]
pub struct PortTask {
    /// MQTT is connected.
    pub connected: bool,
    /// The appliance that was detected last is a dryer.
    pub dryer: bool,
}

/// The seconds between two updates of a dryer.
pub const DRYER_INTERVAL_S: u64 = 5;

/// What the task does on an event, as a relation; `connected` is whether MQTT was
/// connected before.
pub open spec fn reacts(connected: bool, event: TaskEvent, action: TaskAction) -> bool {
    match event {
        TaskEvent::Bridge(command) => if command is Connect {
            action is Bridge
        } else {
            action is Idle
        },
        TaskEvent::Diagnostic(command) => action == TaskAction::Execute(command),
        TaskEvent::MqttConnected => action is RestartInterval,
        TaskEvent::MqttDisconnected => action is Idle,
        TaskEvent::MqttMessage { topic, payload } => match triggered(topic@) {
            Some(id) => if valid_utf8(payload@) {
                action matches TaskAction::Trigger { id: named, param } && named@ == id && param@
                    == payload@
            } else {
                action is Idle
            },
            None => action is Idle,
        },
        TaskEvent::PublishTick => if connected {
            action is Publish
        } else {
            action is Idle
        },
        TaskEvent::TraceTick => action is Trace,
        TaskEvent::Ambient => action is Idle,
    }
}

/// The seconds between two updates of the device.
pub open spec fn interval_of(dryer: bool, configured_s: u64) -> u64 {
    if dryer {
        DRYER_INTERVAL_S
    } else {
        configured_s
    }
}

/// The software ID is that of a dryer.
pub open spec fn is_dryer(software_id: u16) -> bool {
    software_id == SOFTWARE_ID
}

/// The level of the status light.
pub open spec fn light_level(connected: bool) -> bool {
    !connected
}

/// MQTT is connected behind an event.
pub open spec fn connected_after(connected: bool, event: TaskEvent) -> bool {
    if event is MqttConnected {
        true
    } else if event is MqttDisconnected {
        false
    } else {
        connected
    }
}

impl PortTask {
    pub fn new() -> (r: PortTask)
        ensures
            !r.connected,
            !r.dryer,
    {
        PortTask { connected: false, dryer: false }
    }

    /// Takes note of the appliance that was detected.
    pub fn detected(&mut self, software_id: u16)
        ensures
            final(self).dryer == is_dryer(software_id),
            final(self).connected == old(self).connected,
    {
        self.dryer = software_id == SOFTWARE_ID;
    }

    /// The seconds between two updates of the device: those that are configured,
    /// until a dryer is detected.
    pub fn publish_interval(&self, configured_s: u64) -> (r: u64)
        ensures
            r == interval_of(self.dryer, configured_s),
    {
        if self.dryer {
            DRYER_INTERVAL_S
        } else {
            configured_s
        }
    }

    /// Decides what to do on an event.
    pub fn dispatch(&mut self, event: TaskEvent) -> (r: TaskAction)
        ensures
            reacts(old(self).connected, event, r),
            final(self).connected == connected_after(old(self).connected, event),
            final(self).dryer == old(self).dryer,
    {
        match event {
            TaskEvent::Bridge(command) => match command {
                BridgeCommand::Connect => TaskAction::Bridge,
                // From a client that vanished before it owned the port.
                _ => TaskAction::Idle,
            },
            TaskEvent::Diagnostic(command) => TaskAction::Execute(command),
            TaskEvent::MqttConnected => {
                self.connected = true;
                TaskAction::RestartInterval
            },
            TaskEvent::MqttDisconnected => {
                self.connected = false;
                TaskAction::Idle
            },
            TaskEvent::MqttMessage { topic, payload } => {
                if !is_utf8(payload.as_slice()) {
                    return TaskAction::Idle;
                }
                match triggered_action(topic.as_slice()) {
                    Some(id) => TaskAction::Trigger { id: copy_of(id), param: payload },
                    None => TaskAction::Idle,
                }
            },
            TaskEvent::PublishTick => if self.connected {
                TaskAction::Publish
            } else {
                TaskAction::Idle
            },
            TaskEvent::TraceTick => TaskAction::Trace,
            TaskEvent::Ambient => TaskAction::Idle,
        }
    }

    /// The level of the status light: it is lit, active low, while MQTT is
    /// connected.
    pub fn led_high(&self) -> (r: bool)
        ensures
            r == light_level(self.connected),
    {
        !self.connected
    }
}

/// The line is to be regained behind a response: it is an error.
pub open spec fn needs_line_after(response: Seq<u8>) -> bool {
    has_prefix(response, "ERR ".spec_bytes())
}

/// Tells whether the line is to be regained behind a response.
pub fn regains_after(response: &[u8]) -> (r: bool)
    ensures
        r == needs_line_after(response@),
{
    starts_with(response, "ERR ".as_bytes())
}

/// The published availability of the device.
#[derive(Clone, Copy, Debug, PartialEq, Eq, Structural)]
pub enum Availability {
    Online,
    Offline,
}

/// The availability after an attempt to publish, and whether the line is to be regained.
pub open spec fn availability_of(published: bool) -> (Availability, bool) {
    if published {
        (Availability::Online, false)
    } else {
        (Availability::Offline, true)
    }
}

/// The availability after an attempt to publish; a failed one is followed by
/// regaining the line.
pub fn availability_after(published: bool) -> (r: (Availability, bool))
    ensures
        r == availability_of(published),
{
    if published {
        (Availability::Online, false)
    } else {
        (Availability::Offline, true)
    }
}

// ---------------------------------------------------------------------------
// Publishing a device
// ---------------------------------------------------------------------------
/// The positions of the published actions among the first `n`.
pub open spec fn published_actions(actions: Seq<Action>, n: int) -> Seq<int>
    decreases n,
{
    if n <= 0 {
        Seq::empty()
    } else if actions[n - 1].kind == ActionKind::Operation && !actions[n - 1].takes_parameter {
        published_actions(actions, n - 1).push(n - 1)
    } else {
        published_actions(actions, n - 1)
    }
}

/// Selects the properties to publish, those of the appliance's operation, in order.
pub fn properties_to_publish(props: &[Property]) -> (r: Vec<usize>)
    ensures
        positions(r@) == of_kind(props@, PropertyKind::Operation, props@.len() as int),
        forall|i: int| 0 <= i < r@.len() ==> #[trigger] r@[i] < props@.len(),
{
    properties_of_kind(props, PropertyKind::Operation)
}

/// Selects the actions to publish, in order.
pub fn actions_to_publish(actions: &[Action]) -> (r: Vec<usize>)
    ensures
        positions(r@) == published_actions(actions@, actions@.len() as int),
        forall|i: int| 0 <= i < r@.len() ==> #[trigger] r@[i] < actions@.len(),
{
    let mut r: Vec<usize> = Vec::new();
    assert(positions(r@) =~= Seq::empty());
    for i in 0..actions.len()
        invariant
            positions(r@) == published_actions(actions@, i as int),
            forall|j: int| 0 <= j < r@.len() ==> #[trigger] r@[j] < actions@.len(),
    {
        if publishes_action(&actions[i]) {
            let ghost before = r@;
            r.push(i);
            assert(positions(r@) =~= positions(before).push(i as int));
        }
    }
    r
}

/// The step of publishing a device; numbers count the selected properties and
/// actions. Everything is read first, as publishing in between might let the session
/// time out. A dryer is observed once, and all its values come from that observation;
/// the properties of another device are queried one by one.
#[derive(Clone, Copy, Debug)]
pub enum PublishStage {
    /// Read the next block of the observation.
    Observe(Observing),
    /// Query a property.
    Query(usize),
    /// Announce a property.
    Announce(usize, Option<Snapshot>),
    /// Publish the value of a property.
    Value(usize, Option<Snapshot>),
    /// Announce an action.
    Action(usize),
    /// Everything is published.
    Done,
}

impl PublishStage {
    /// How it begins with so many properties and actions.
    pub open spec fn first(dryer: bool, properties: int, actions: int) -> PublishStage {
        if properties > 0 {
            if dryer {
                PublishStage::Observe(Observing::Program)
            } else {
                PublishStage::Query(0)
            }
        } else {
            PublishStage::first_action(actions)
        }
    }

    /// The first action, or the end.
    pub open spec fn first_action(actions: int) -> PublishStage {
        if actions > 0 {
            PublishStage::Action(0)
        } else {
            PublishStage::Done
        }
    }

    /// The appliance is asked for something.
    pub open spec fn asks(self) -> bool {
        self is Observe || self is Query
    }

    /// The read of the observation that is wanted.
    pub open spec fn read(self) -> Option<Request> {
        match self {
            PublishStage::Observe(o) => Some(o.operation()),
            _ => None,
        }
    }

    /// The observation that a published property comes from.
    pub open spec fn observed(self) -> Option<Snapshot> {
        match self {
            PublishStage::Announce(_, observed) => observed,
            PublishStage::Value(_, observed) => observed,
            _ => None,
        }
    }

    /// What follows a step that succeeded; one that failed ends it all. What follows a
    /// read is told by `after_block`.
    pub open spec fn following(self, properties: int, actions: int) -> PublishStage {
        match self {
            PublishStage::Observe(_) => self,
            PublishStage::Query(i) => if i + 1 < properties {
                PublishStage::Query((i + 1) as usize)
            } else {
                PublishStage::Announce(0, None)
            },
            PublishStage::Announce(i, observed) => PublishStage::Value(i, observed),
            PublishStage::Value(i, observed) => if i + 1 < properties {
                PublishStage::Announce((i + 1) as usize, observed)
            } else {
                PublishStage::first_action(actions)
            },
            PublishStage::Action(i) => if i + 1 < actions {
                PublishStage::Action((i + 1) as usize)
            } else {
                PublishStage::Done
            },
            PublishStage::Done => PublishStage::Done,
        }
    }

    /// `next` follows when a read of the observation returned `data`: the next read, or
    /// behind the last one the first property.
    pub open spec fn after_block(self, data: Seq<u8>, next: PublishStage) -> bool {
        match self {
            PublishStage::Observe(Observing::Program) => {
                next matches PublishStage::Observe(Observing::Door { program }) && program@ == data
            },
            PublishStage::Observe(Observing::Door { program: before }) => {
                next matches PublishStage::Observe(Observing::Run { program, door }) && program
                    == before && door@ == data
            },
            PublishStage::Observe(Observing::Run { program, door }) => {
                next matches PublishStage::Announce(0, Some(snapshot)) && snapshot.program
                    == program && snapshot.door == door && snapshot.run@ == data
            },
            _ => false,
        }
    }

    pub open spec fn well_formed(self, properties: int, actions: int) -> bool {
        match self {
            PublishStage::Observe(_) => 0 < properties,
            PublishStage::Query(i) => i < properties,
            PublishStage::Announce(i, _) => i < properties,
            PublishStage::Value(i, _) => i < properties,
            PublishStage::Action(i) => i < actions,
            PublishStage::Done => true,
        }
    }

    /// A bound on the steps that are left.
    pub open spec fn remaining(self, properties: int, actions: int) -> int {
        match self {
            PublishStage::Observe(Observing::Program) => actions + 2 * properties + 3,
            PublishStage::Observe(Observing::Door { .. }) => actions + 2 * properties + 2,
            PublishStage::Observe(Observing::Run { .. }) => actions + 2 * properties + 1,
            PublishStage::Query(i) => actions + 2 * properties + (properties - i),
            PublishStage::Announce(i, _) => actions + 2 * (properties - i),
            PublishStage::Value(i, _) => actions + 2 * (properties - i) - 1,
            PublishStage::Action(i) => actions - i,
            PublishStage::Done => 0,
        }
    }

    /// Begins to publish the device with this software ID.
    pub fn begin(software_id: u16, properties: usize, actions: usize) -> (r: PublishStage)
        ensures
            r == PublishStage::first(
                software_id == SOFTWARE_ID,
                properties as int,
                actions as int,
            ),
            r.well_formed(properties as int, actions as int),
    {
        if properties > 0 {
            if software_id == SOFTWARE_ID {
                PublishStage::Observe(Observing::Program)
            } else {
                PublishStage::Query(0)
            }
        } else if actions > 0 {
            PublishStage::Action(0)
        } else {
            PublishStage::Done
        }
    }

    /// Takes the reply to a read of the observation; there is no step behind one that
    /// failed.
    pub fn supply(self, reply: Reply) -> (r: Option<PublishStage>)
        requires
            self is Observe,
            reply matches Reply::Data(data) ==> data@.len() == 16,
        ensures
            reply matches Reply::Data(data) ==> (r matches Some(next) && self.after_block(
                data@,
                next,
            )),
            !(reply is Data) ==> r is None,
            r matches Some(next) ==> forall|properties: int, actions: int|
                self.well_formed(properties, actions) ==> #[trigger] next.well_formed(
                    properties,
                    actions,
                ) && next.remaining(properties, actions) + 1 == self.remaining(
                    properties,
                    actions,
                ),
    {
        match self {
            PublishStage::Observe(observing) => match observing.supply(reply) {
                ObserveStep::Do(next) => Some(PublishStage::Observe(next)),
                ObserveStep::Observed(snapshot) => Some(PublishStage::Announce(0, Some(snapshot))),
                ObserveStep::Failed(_) => None,
            },
            _ => None,
        }
    }

    /// Goes on after another step that succeeded.
    pub fn next(self, properties: usize, actions: usize) -> (r: PublishStage)
        requires
            !(self is Observe),
            self.well_formed(properties as int, actions as int),
        ensures
            r == self.following(properties as int, actions as int),
            r.well_formed(properties as int, actions as int),
            self != PublishStage::Done ==> 0 <= r.remaining(properties as int, actions as int)
                < self.remaining(properties as int, actions as int),
    {
        match self {
            PublishStage::Observe(_) => self,
            PublishStage::Query(i) => if i + 1 < properties {
                PublishStage::Query(i + 1)
            } else {
                PublishStage::Announce(0, None)
            },
            PublishStage::Announce(i, observed) => PublishStage::Value(i, observed),
            PublishStage::Value(i, observed) => if i + 1 < properties {
                PublishStage::Announce(i + 1, observed)
            } else if actions > 0 {
                PublishStage::Action(0)
            } else {
                PublishStage::Done
            },
            PublishStage::Action(i) => if i + 1 < actions {
                PublishStage::Action(i + 1)
            } else {
                PublishStage::Done
            },
            PublishStage::Done => PublishStage::Done,
        }
    }
}

/// The published text of property `i` of a dryer in this observation.
pub fn dryer_value(observed: &Snapshot, i: usize) -> (r: Option<Vec<u8>>)
    requires
        i < PROPERTY_COUNT,
    ensures
        observed.known_value(dryer_property(i as int).id@) matches Some(v) && (match r {
            Some(text) => value_text(v) == Some(text@),
            None => value_text(v) is None,
        }),
{
    let all = properties();
    let prop = &all[i];
    assert(*prop == dryer_property(i as int));
    proof {
        assert(dryer_property(i as int).same(*prop));
        lemma_every_property_has_a_value(*observed, *prop);
    }
    match observed.value::<()>(prop) {
        Ok(v) => property_value(&v),
        Err(_) => None,
    }
}

proof fn lemma_all_of_kind(props: Seq<Property>, n: int)
    requires
        0 <= n <= props.len(),
        forall|i: int|
            0 <= i < props.len() ==> (#[trigger] props[i]).kind == PropertyKind::Operation,
    ensures
        of_kind(props, PropertyKind::Operation, n) == Seq::new(n as nat, |i: int| i),
    decreases n,
{
    if n > 0 {
        lemma_all_of_kind(props, n - 1);
    }
    assert(of_kind(props, PropertyKind::Operation, n) =~= Seq::new(n as nat, |i: int| i));
}

/// Of a dryer every property is published, in order.
pub proof fn lemma_dryer_publishes_every_property(props: Seq<Property>)
    requires
        props.len() == PROPERTY_COUNT,
        forall|i: int| 0 <= i < PROPERTY_COUNT ==> #[trigger] props[i] == dryer_property(i),
    ensures
        of_kind(props, PropertyKind::Operation, props.len() as int) == Seq::new(
            PROPERTY_COUNT as nat,
            |i: int| i,
        ),
{
    lemma_all_of_kind(props, props.len() as int);
}

/// The appliance is asked for nothing once anything has been published.
pub proof fn lemma_queries_come_first(s: PublishStage, properties: int, actions: int)
    requires
        s.well_formed(properties, actions),
        !s.asks(),
    ensures
        !s.following(properties, actions).asks(),
{
}

/// The steps of publishing, each behind the one before; a read of the observation
/// returned the block of that number.
pub open spec fn published_in(
    steps: Seq<PublishStage>,
    blocks: Seq<Seq<u8>>,
    properties: int,
    actions: int,
) -> bool {
    forall|i: int|
        #![trigger steps[i]]
        0 <= i < steps.len() - 1 ==> if steps[i] is Observe {
            steps[i].after_block(blocks[i], steps[i + 1])
        } else {
            steps[i + 1] == steps[i].following(properties, actions)
        }
}

proof fn lemma_observation_stays(
    steps: Seq<PublishStage>,
    blocks: Seq<Seq<u8>>,
    properties: int,
    actions: int,
    snapshot: Snapshot,
    i: int,
)
    requires
        published_in(steps, blocks, properties, actions),
        3 <= i < steps.len(),
        steps[3] == PublishStage::Announce(0, Some(snapshot)),
    ensures
        !steps[i].asks(),
        steps[i] is Announce || steps[i] is Value ==> steps[i].observed() == Some(snapshot),
    decreases i,
{
    if i > 3 {
        lemma_observation_stays(steps, blocks, properties, actions, snapshot, i - 1);
        assert(steps[i - 1 + 1] == steps[i - 1].following(properties, actions));
    }
}

/// Every update of a dryer reads the three blocks at 0x00b0, 0x0260 and 0x0270 once,
/// in this order and before anything is published, and nothing else; whatever is then
/// announced or published comes from the observation of these blocks.
pub proof fn lemma_dryer_is_observed_once(
    steps: Seq<PublishStage>,
    blocks: Seq<Seq<u8>>,
    properties: int,
    actions: int,
)
    requires
        properties > 0,
        steps.len() > 3,
        steps[0] == PublishStage::first(true, properties, actions),
        published_in(steps, blocks, properties, actions),
    ensures
        steps[0].read() == Some(block_read(0xb0)),
        steps[1].read() == Some(block_read(0x260)),
        steps[2].read() == Some(block_read(0x270)),
        forall|i: int| 3 <= i < steps.len() ==> !(#[trigger] steps[i]).asks(),
        forall|i: int|
            3 <= i < steps.len() && ((#[trigger] steps[i]) is Announce || steps[i] is Value) ==> (
            steps[i].observed() matches Some(s) && s.program@ == blocks[0] && s.door@ == blocks[1]
                && s.run@ == blocks[2]),
{
    assert(steps[0].after_block(blocks[0], steps[1]));
    assert(steps[1].after_block(blocks[1], steps[2]));
    assert(steps[2].after_block(blocks[2], steps[3]));
    let snapshot = steps[3].observed()->0;
    assert forall|i: int| 3 <= i < steps.len() implies !(#[trigger] steps[i]).asks() && (steps[
    i] is Announce || steps[i] is Value ==> steps[i].observed() == Some(snapshot)) by {
        lemma_observation_stays(steps, blocks, properties, actions, snapshot, i);
    }
}

// ---------------------------------------------------------------------------
// The accelerometer's task
// ---------------------------------------------------------------------------
/// The settings of the accelerometer's task.
#[derive(Clone, Copy, Debug, PartialEq, Eq, Structural)]
pub struct Sampling {
    pub hz: u32,
    pub period_us: u64,
    pub target_samples: u32,
}

/// The number, or 1 where it is 0.
pub open spec fn at_least_one(n: u32) -> u32 {
    if n == 0 {
        1
    } else {
        n
    }
}

/// The sampling for a rate and a publishing interval.
pub open spec fn sampled(hz: u32, interval_s: u32) -> Sampling {
    Sampling {
        hz: at_least_one(hz),
        period_us: 1_000_000u64 / (at_least_one(hz) as u64),
        target_samples: if at_least_one(hz) * at_least_one(interval_s) <= u32::MAX {
            (at_least_one(hz) * at_least_one(interval_s)) as u32
        } else {
            u32::MAX
        },
    }
}

/// The sampling for a rate and a publishing interval: a rate of at least one, and
/// windows of at least a second.
pub fn sampling(hz: u32, interval_s: u32) -> (r: Sampling)
    ensures
        r == sampled(hz, interval_s),
{
    let hz = if hz == 0 {
        1
    } else {
        hz
    };
    let seconds = if interval_s == 0 {
        1
    } else {
        interval_s
    };
    assert(hz * seconds <= 0xffff_fffe_0000_0001) by (nonlinear_arith)
        requires
            0 < hz <= 0xffff_ffff,
            0 < seconds <= 0xffff_ffff,
    ;
    let product = hz as u64 * seconds as u64;
    let target_samples = if product > u32::MAX as u64 {
        u32::MAX
    } else {
        product as u32
    };
    Sampling { hz, period_us: 1_000_000 / hz as u64, target_samples }
}

/// What is done with a window of so many samples.
#[derive(Clone, Copy, Debug, PartialEq, Eq, Structural)]
pub enum WindowAction {
    /// The window goes on.
    Continue,
    /// The window is dropped: publishing while disconnected can appear successful.
    Discard,
    /// The statistics are published, and a new window begins.
    Publish { announce: bool },
}

/// The accelerometer's task: whether its sensors were announced.
#[derive(Clone, Copy, Debug, PartialEq, Eq, Structural)]
pub struct SensorTask {
    pub announced: bool,
}

/// What is done with a window of so many samples; `announced` is whether the sensors were.
pub open spec fn window_action(
    announced: bool,
    samples: u32,
    target_samples: u32,
    connected: bool,
) -> WindowAction {
    if samples == 0 || samples < target_samples {
        WindowAction::Continue
    } else if !connected {
        WindowAction::Discard
    } else {
        WindowAction::Publish { announce: !announced }
    }
}

/// The sensors count as announced behind that; a lost connection forgets it.
pub open spec fn announced_after(announced: bool, action: WindowAction) -> bool {
    announced && !(action is Discard)
}

/// The sensors count as announced behind an attempt to announce them.
pub open spec fn announced_by(announced: bool, success: bool) -> bool {
    announced || success
}

impl SensorTask {
    pub fn new() -> (r: SensorTask)
        ensures
            !r.announced,
    {
        SensorTask { announced: false }
    }

    /// After a sample could not be read: the sensor is set up anew and announced
    /// again.
    pub fn lost_sensor(&mut self)
        ensures
            !final(self).announced,
    {
        self.announced = false;
    }

    /// Decides on a window.
    pub fn window(&mut self, samples: u32, target_samples: u32, connected: bool) -> (r: WindowAction)
        ensures
            r == window_action(old(self).announced, samples, target_samples, connected),
            final(self).announced == announced_after(old(self).announced, r),
    {
        if samples == 0 || samples < target_samples {
            return WindowAction::Continue;
        }
        if !connected {
            self.announced = false;
            return WindowAction::Discard;
        }
        WindowAction::Publish { announce: !self.announced }
    }

    /// Takes note of an announcement.
    pub fn announced(&mut self, success: bool)
        ensures
            final(self).announced == announced_by(old(self).announced, success),
    {
        if success {
            self.announced = true;
        }
    }
}

} // verus!
