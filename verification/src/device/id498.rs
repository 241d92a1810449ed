//! Experimental read-only support for the T4223C tumble dryer, software ID 498.

use super::{Action, DeviceKind, Error, Property, PropertyKind, Value, ValueView};
use crate::link::{Reply, Request, DEVICE_TIMEOUT_MS};
use crate::text::{hex, push_hex, push_text, same_text, text_bytes};
use vstd::prelude::*;
use vstd::string::*;
use vstd::utf8::*;

verus! {

/// Confirmed read-access key. Monitoring never unlocks full access.
pub const READ_KEY: u16 = 0x2b2c;

/// The software ID of the dryer.
pub const SOFTWARE_ID: u16 = 498;

// ---------------------------------------------------------------------------
// Labels
// ---------------------------------------------------------------------------
/// The observed selector positions; others remain unknown.
pub open spec fn program_label(raw: u8) -> &'static str {
    match raw {
        15 => "Ende",
        14 => "Koch/Bunt Schranktrocken+",
        1 => "Koch/Bunt Schranktrocken / Schonen",
        3 => "Koch/Bunt Buegelfeucht",
        2 => "Koch/Bunt Mangelfeucht",
        6 => "Glaetten",
        7 => "Finish Wolle",
        8 => "Pflegeleicht Schranktrocken+",
        9 => "Pflegeleicht Schranktrocken",
        13 => "Pflegeleicht Schranktrocken / Schonen",
        12 => "Pflegeleicht Buegelfeucht",
        4 => "20 min warm",
        5 => "15 min kalt",
        _ => "Unknown",
    }
}

/// Decode observed selector positions; unsupported positions remain unknown.
pub fn program(raw: u8) -> (r: &'static str)
    ensures
        r == program_label(raw),
{
    match raw {
        15 => "Ende",
        14 => "Koch/Bunt Schranktrocken+",
        1 => "Koch/Bunt Schranktrocken / Schonen",
        3 => "Koch/Bunt Buegelfeucht",
        2 => "Koch/Bunt Mangelfeucht",
        6 => "Glaetten",
        7 => "Finish Wolle",
        8 => "Pflegeleicht Schranktrocken+",
        9 => "Pflegeleicht Schranktrocken",
        13 => "Pflegeleicht Schranktrocken / Schonen",
        12 => "Pflegeleicht Buegelfeucht",
        4 => "20 min warm",
        5 => "15 min kalt",
        _ => "Unknown",
    }
}

/// All three door bytes say `b`.
pub open spec fn agree(raw: Seq<u8>, b: u8) -> bool {
    raw[0] == b && raw[1] == b && raw[2] == b
}

/// The state of the door, where all three bytes agree.
pub open spec fn door_label(raw: Seq<u8>) -> &'static str {
    if agree(raw, 0) {
        "Closed"
    } else if agree(raw, 1) {
        "Open"
    } else {
        "Unknown"
    }
}

fn all_are(raw: &[u8; 3], b: u8) -> (r: bool)
    ensures
        r == agree(raw@, b),
{
    raw[0] == b && raw[1] == b && raw[2] == b
}

/// Require agreement between all three observed door bytes.
pub fn door(raw: [u8; 3]) -> (r: &'static str)
    ensures
        r == door_label(raw@),
{
    if all_are(&raw, 0) {
        "Closed"
    } else if all_are(&raw, 1) {
        "Open"
    } else {
        "Unknown"
    }
}

/// The state of the program's marker.
pub open spec fn running_label(raw: u8) -> &'static str {
    match raw {
        0xaa => "Running",
        0x55 => "Not running",
        _ => "Unknown",
    }
}

/// Program marker, not actual drum movement or a completion indication.
pub fn running(raw: u8) -> (r: &'static str)
    ensures
        r == running_label(raw),
{
    match raw {
        0xaa => "Running",
        0x55 => "Not running",
        _ => "Unknown",
    }
}

/// The label of the direction marker.
pub open spec fn motion_label(raw: u8) -> &'static str {
    match raw {
        0 => "Marker 0",
        1 => "Marker 1",
        2 => "Marker 2",
        _ => "Unknown",
    }
}

/// Raw marker labels: physical movement and direction remain unverified.
pub fn motion(raw: u8) -> (r: &'static str)
    ensures
        r == motion_label(raw),
{
    match raw {
        0 => "Marker 0",
        1 => "Marker 1",
        2 => "Marker 2",
        _ => "Unknown",
    }
}

/// The phase that a single observation allows to tell.
pub open spec fn phase_label(selector: u8, run: u8, motor: u8) -> &'static str {
    if motor > 2 {
        "Unknown"
    } else if run == 0xaa {
        "Program active"
    } else if run != 0x55 {
        "Unknown"
    } else if selector == 15 && motor == 0 {
        "Selector at Ende"
    } else {
        "Inactive / waiting / interrupted / post-run"
    }
}

/// Stateless phase interpretation cannot distinguish all inactive states.
pub fn phase(selector: u8, run: u8, motor: u8) -> (r: &'static str)
    ensures
        r == phase_label(selector, run, motor),
{
    if motor > 2 {
        "Unknown"
    } else if run == 0xaa {
        "Program active"
    } else if run != 0x55 {
        "Unknown"
    } else if selector == 15 && motor == 0 {
        "Selector at Ende"
    } else {
        "Inactive / waiting / interrupted / post-run"
    }
}

/// The phase, together with the door.
pub open spec fn observed_label(selector: u8, run: u8, motor: u8, triplet: Seq<u8>) -> &'static str {
    if agree(triplet, 0) {
        phase_label(selector, run, motor)
    } else if agree(triplet, 1) && run == 0x55 {
        "Door open / inactive"
    } else {
        "Unknown"
    }
}

/// A closed door with an inactive marker does not prove readiness or completion.
pub fn observed_phase(selector: u8, run: u8, motor: u8, triplet: [u8; 3]) -> (r: &'static str)
    ensures
        r == observed_label(selector, run, motor, triplet@),
{
    if all_are(&triplet, 0) {
        phase(selector, run, motor)
    } else if all_are(&triplet, 1) && run == 0x55 {
        "Door open / inactive"
    } else {
        "Unknown"
    }
}

// ---------------------------------------------------------------------------
// Properties
// ---------------------------------------------------------------------------
/// The number of properties.
pub const PROPERTY_COUNT: usize = 13;

/// The identifier and the name of property `i`.
pub open spec fn property_words(i: int) -> (&'static str, &'static str) {
    if i == 0 {
        ("dryer_program", "Dryer Selected program")
    } else if i == 1 {
        ("dryer_door", "Dryer Door")
    } else if i == 2 {
        ("dryer_run_state", "Dryer Program state (experimental)")
    } else if i == 3 {
        ("dryer_motion", "Dryer Direction marker (raw)")
    } else if i == 4 {
        ("dryer_phase", "Dryer Observed phase (experimental)")
    } else if i == 5 {
        ("dryer_program_raw", "Dryer Program marker raw")
    } else if i == 6 {
        ("dryer_door_raw", "Dryer Door triplet raw")
    } else if i == 7 {
        ("dryer_run_raw", "Dryer Run marker raw")
    } else if i == 8 {
        ("dryer_flags_raw", "Dryer Flags 026a/027e raw")
    } else if i == 9 {
        ("dryer_post_run_raw", "Dryer Marker 0260 raw")
    } else if i == 10 {
        ("dryer_motion_raw", "Dryer Motor marker 027e raw")
    } else if i == 11 {
        ("dryer_transition_raw", "Dryer Transition marker 027f raw")
    } else {
        ("dryer_software_id", "Dryer Software ID")
    }
}

/// Property `i` of the dryer.
pub open spec fn dryer_property(i: int) -> Property {
    Property {
        kind: PropertyKind::Operation,
        id: property_words(i).0,
        name: property_words(i).1,
        unit: None,
    }
}

fn operation(id: &'static str, name: &'static str) -> (r: Property)
    ensures
        r == (Property { kind: PropertyKind::Operation, id, name, unit: None }),
{
    Property { kind: PropertyKind::Operation, id, name, unit: None }
}

/// The properties of the dryer, in order.
pub fn properties() -> (r: Vec<Property>)
    ensures
        r@.len() == PROPERTY_COUNT,
        forall|i: int| 0 <= i < PROPERTY_COUNT ==> #[trigger] r@[i] == dryer_property(i),
{
    let mut r: Vec<Property> = Vec::new();
    r.push(operation("dryer_program", "Dryer Selected program"));
    r.push(operation("dryer_door", "Dryer Door"));
    r.push(operation("dryer_run_state", "Dryer Program state (experimental)"));
    r.push(operation("dryer_motion", "Dryer Direction marker (raw)"));
    r.push(operation("dryer_phase", "Dryer Observed phase (experimental)"));
    r.push(operation("dryer_program_raw", "Dryer Program marker raw"));
    r.push(operation("dryer_door_raw", "Dryer Door triplet raw"));
    r.push(operation("dryer_run_raw", "Dryer Run marker raw"));
    r.push(operation("dryer_flags_raw", "Dryer Flags 026a/027e raw"));
    r.push(operation("dryer_post_run_raw", "Dryer Marker 0260 raw"));
    r.push(operation("dryer_motion_raw", "Dryer Motor marker 027e raw"));
    r.push(operation("dryer_transition_raw", "Dryer Transition marker 027f raw"));
    r.push(operation("dryer_software_id", "Dryer Software ID"));
    r
}

/// The property is one of the dryer's.
pub open spec fn is_dryer_property(p: Property) -> bool {
    exists|i: int| 0 <= i < PROPERTY_COUNT && (#[trigger] dryer_property(i)).same(p)
}

/// Tells whether a property is one of the dryer's.
pub fn has_property(p: &Property) -> (r: bool)
    ensures
        r == is_dryer_property(*p),
{
    let all = properties();
    for i in 0..all.len()
        invariant
            all@.len() == PROPERTY_COUNT,
            forall|j: int| 0 <= j < PROPERTY_COUNT ==> #[trigger] all@[j] == dryer_property(j),
            forall|j: int| 0 <= j < i ==> !(#[trigger] dryer_property(j)).same(*p),
    {
        if all[i].is(p) {
            assert(dryer_property(i as int).same(*p));
            return true;
        }
    }
    false
}

// ---------------------------------------------------------------------------
// Observations
// ---------------------------------------------------------------------------
/// Three sequential reads, not an atomic snapshot of appliance memory.
#[derive(Clone, Copy, Debug)]
pub struct Snapshot {
    /// Memory block 00b0.
    pub program: [u8; 16],
    /// Memory block 0260.
    pub door: [u8; 16],
    /// Memory block 0270.
    pub run: [u8; 16],
}

/// A byte in hexadecimal behind `0x`.
pub open spec fn raw_text(b: u8) -> Seq<u8> {
    "0x".spec_bytes() + hex(b as nat, 2)
}

impl Snapshot {
    /// The three door bytes.
    pub open spec fn triplet(self) -> Seq<u8> {
        seq![self.door@[5], self.door@[6], self.door@[7]]
    }

    /// The value of the property with this identifier, if there is one.
    pub open spec fn known_value(self, id: Seq<char>) -> Option<ValueView> {
        if id == "dryer_program"@ {
            Some(ValueView::String(program_label(self.program@[6]).spec_bytes()))
        } else if id == "dryer_door"@ {
            Some(ValueView::String(door_label(self.triplet()).spec_bytes()))
        } else if id == "dryer_run_state"@ {
            Some(ValueView::String(running_label(self.run@[0]).spec_bytes()))
        } else if id == "dryer_motion"@ {
            Some(ValueView::String(motion_label(self.run@[14]).spec_bytes()))
        } else if id == "dryer_phase"@ {
            Some(
                ValueView::String(
                    observed_label(
                        self.program@[6],
                        self.run@[0],
                        self.run@[14],
                        self.triplet(),
                    ).spec_bytes(),
                ),
            )
        } else if id == "dryer_program_raw"@ {
            Some(ValueView::String(raw_text(self.program@[6])))
        } else if id == "dryer_door_raw"@ {
            Some(
                ValueView::String(
                    hex(self.door@[5] as nat, 2) + " ".spec_bytes() + hex(self.door@[6] as nat, 2)
                        + " ".spec_bytes() + hex(self.door@[7] as nat, 2),
                ),
            )
        } else if id == "dryer_run_raw"@ {
            Some(ValueView::String(raw_text(self.run@[0])))
        } else if id == "dryer_flags_raw"@ {
            Some(
                ValueView::String(
                    hex(self.door@[10] as nat, 2) + " ".spec_bytes() + hex(self.run@[14] as nat, 2),
                ),
            )
        } else if id == "dryer_post_run_raw"@ {
            Some(ValueView::String(raw_text(self.door@[0])))
        } else if id == "dryer_motion_raw"@ {
            Some(ValueView::String(raw_text(self.run@[14])))
        } else if id == "dryer_transition_raw"@ {
            Some(ValueView::String(raw_text(self.run@[15])))
        } else if id == "dryer_software_id"@ {
            Some(ValueView::Number(498))
        } else {
            None
        }
    }

    fn raw_value(b: u8) -> (r: Value)
        ensures
            r@ == ValueView::String(raw_text(b)),
    {
        let mut out = text_bytes("0x");
        push_hex(&mut out, b as u64, 2);
        Value::String(out)
    }

    fn door_raw(&self) -> (r: Value)
        ensures
            r@ == ValueView::String(
                hex(self.door@[5] as nat, 2) + " ".spec_bytes() + hex(self.door@[6] as nat, 2)
                    + " ".spec_bytes() + hex(self.door@[7] as nat, 2),
            ),
    {
        let mut out: Vec<u8> = Vec::new();
        push_hex(&mut out, self.door[5] as u64, 2);
        push_text(&mut out, " ");
        push_hex(&mut out, self.door[6] as u64, 2);
        push_text(&mut out, " ");
        push_hex(&mut out, self.door[7] as u64, 2);
        assert(out@ =~= hex(self.door@[5] as nat, 2) + " ".spec_bytes() + hex(
            self.door@[6] as nat,
            2,
        ) + " ".spec_bytes() + hex(self.door@[7] as nat, 2));
        Value::String(out)
    }

    fn flags_raw(&self) -> (r: Value)
        ensures
            r@ == ValueView::String(
                hex(self.door@[10] as nat, 2) + " ".spec_bytes() + hex(self.run@[14] as nat, 2),
            ),
    {
        let mut out: Vec<u8> = Vec::new();
        push_hex(&mut out, self.door[10] as u64, 2);
        push_text(&mut out, " ");
        push_hex(&mut out, self.run[14] as u64, 2);
        assert(out@ =~= hex(self.door@[10] as nat, 2) + " ".spec_bytes() + hex(
            self.run@[14] as nat,
            2,
        ));
        Value::String(out)
    }

    fn label(text: &'static str) -> (r: Value)
        ensures
            r@ == ValueView::String(text.spec_bytes()),
    {
        Value::String(text_bytes(text))
    }

    fn door_bytes(&self) -> (r: [u8; 3])
        ensures
            r@ == self.triplet(),
    {
        let r = [self.door[5], self.door[6], self.door[7]];
        assert(r@ =~= self.triplet());
        r
    }

    /// Decode properties while preserving unknown marker values.
    pub fn value<E>(&self, prop: &Property) -> (r: Result<Value, Error<E>>)
        ensures
            r matches Ok(v) ==> self.known_value(prop.id@) == Some(v@),
            r matches Err(e) ==> e is UnknownProperty && self.known_value(prop.id@) is None,
    {
        let id = prop.id;
        if same_text(id, "dryer_program") {
            Ok(Snapshot::label(program(self.program[6])))
        } else if same_text(id, "dryer_door") {
            Ok(Snapshot::label(door(self.door_bytes())))
        } else if same_text(id, "dryer_run_state") {
            Ok(Snapshot::label(running(self.run[0])))
        } else if same_text(id, "dryer_motion") {
            Ok(Snapshot::label(motion(self.run[14])))
        } else if same_text(id, "dryer_phase") {
            let label = observed_phase(
                self.program[6],
                self.run[0],
                self.run[14],
                self.door_bytes(),
            );
            Ok(Snapshot::label(label))
        } else if same_text(id, "dryer_program_raw") {
            Ok(Snapshot::raw_value(self.program[6]))
        } else if same_text(id, "dryer_door_raw") {
            Ok(self.door_raw())
        } else if same_text(id, "dryer_run_raw") {
            Ok(Snapshot::raw_value(self.run[0]))
        } else if same_text(id, "dryer_flags_raw") {
            Ok(self.flags_raw())
        } else if same_text(id, "dryer_post_run_raw") {
            Ok(Snapshot::raw_value(self.door[0]))
        } else if same_text(id, "dryer_motion_raw") {
            Ok(Snapshot::raw_value(self.run[14]))
        } else if same_text(id, "dryer_transition_raw") {
            Ok(Snapshot::raw_value(self.run[15]))
        } else if same_text(id, "dryer_software_id") {
            Ok(Value::Number(498))
        } else {
            Err(Error::UnknownProperty)
        }
    }
}

/// Every property of the dryer has a value in every observation.
pub proof fn lemma_every_property_has_a_value(s: Snapshot, p: Property)
    requires
        is_dryer_property(p),
    ensures
        s.known_value(p.id@) is Some,
{
}

/// Whatever the markers say, an observation claims activity, an open door or the
/// end position only where the markers prove it; anything else is left open.
pub proof fn lemma_phase_claims_are_proved(selector: u8, run: u8, motor: u8, triplet: Seq<u8>)
    ensures
        observed_label(selector, run, motor, triplet) == "Program active" ==> agree(triplet, 0)
            && run == 0xaa && motor <= 2,
        observed_label(selector, run, motor, triplet) == "Door open / inactive" ==> agree(
            triplet,
            1,
        ) && run == 0x55,
        observed_label(selector, run, motor, triplet) == "Selector at Ende" ==> agree(triplet, 0)
            && selector == 15 && run == 0x55 && motor == 0,
        !agree(triplet, 0) && !agree(triplet, 1) ==> observed_label(selector, run, motor, triplet)
            == "Unknown",
{
    reveal_strlit("Program active");
    reveal_strlit("Door open / inactive");
    reveal_strlit("Selector at Ende");
    reveal_strlit("Unknown");
    reveal_strlit("Inactive / waiting / interrupted / post-run");
}

// ---------------------------------------------------------------------------
// The device
// ---------------------------------------------------------------------------
/// Read-only dryer profile with no appliance actions. A value of it stands for a
/// session in which read access is unlocked.
#[derive(Clone, Copy, Debug, PartialEq, Eq, Structural)]
pub struct TumbleDryer {}

/// The step of a connection.
#[derive(Clone, Copy, Debug, PartialEq, Eq, Structural)]
pub enum Connecting {
    /// Ask for the software ID.
    Query,
    /// Unlock read access.
    Unlock,
}

/// What comes after a reply.
#[derive(Debug)]
pub enum ConnectStep {
    Do(Connecting),
    Connected(TumbleDryer),
    /// The connection failed; a link failure carries its reply.
    Failed(Error<Reply>),
}

impl Connecting {
    /// The operation that is wanted.
    pub open spec fn operation(self) -> Request {
        match self {
            Connecting::Query => Request::QueryId,
            Connecting::Unlock => Request::Unlock { key: READ_KEY },
        }
    }

    /// What comes after a reply.
    pub open spec fn after(self, reply: Reply) -> ConnectStep {
        match self {
            Connecting::Query => match reply {
                Reply::Id(id) => if id == SOFTWARE_ID {
                    ConnectStep::Do(Connecting::Unlock)
                } else {
                    ConnectStep::Failed(Error::UnknownSoftwareId(id))
                },
                _ => ConnectStep::Failed(Error::Link(reply)),
            },
            Connecting::Unlock => if reply is Done {
                ConnectStep::Connected(TumbleDryer {  })
            } else {
                ConnectStep::Failed(Error::Link(reply))
            },
        }
    }

    /// The operation that is wanted.
    pub fn request(&self) -> (r: Request)
        ensures
            r == self.operation(),
    {
        match self {
            Connecting::Query => Request::QueryId,
            Connecting::Unlock => Request::Unlock { key: READ_KEY },
        }
    }

    /// Takes the reply to the wanted operation.
    pub fn supply(self, reply: Reply) -> (r: ConnectStep)
        ensures
            r == self.after(reply),
    {
        match self {
            Connecting::Query => match reply {
                Reply::Id(id) => {
                    if id != SOFTWARE_ID {
                        return ConnectStep::Failed(Error::UnknownSoftwareId(id));
                    }
                    ConnectStep::Do(Connecting::Unlock)
                },
                other => ConnectStep::Failed(Error::Link(other)),
            },
            Connecting::Unlock => match reply {
                Reply::Done => ConnectStep::Connected(TumbleDryer {  }),
                other => ConnectStep::Failed(Error::Link(other)),
            },
        }
    }
}

/// An observation being read: the blocks that are there.
#[derive(Clone, Copy, Debug)]
pub enum Observing {
    Program,
    Door { program: [u8; 16] },
    Run { program: [u8; 16], door: [u8; 16] },
}

/// What comes after a reply.
#[derive(Debug)]
pub enum ObserveStep {
    Do(Observing),
    Observed(Snapshot),
    /// Reading failed with this reply.
    Failed(Reply),
}

/// The read of a block.
pub open spec fn block_read(address: u32) -> Request {
    Request::ReadMemory { address, length: 16, timeout_ms: DEVICE_TIMEOUT_MS }
}

impl Observing {
    /// The operation that is wanted: only the validated memory window is read.
    pub open spec fn operation(self) -> Request {
        match self {
            Observing::Program => block_read(0xb0),
            Observing::Door { .. } => block_read(0x260),
            Observing::Run { .. } => block_read(0x270),
        }
    }

    /// The step after a reply: the block that was read follows those before it.
    pub open spec fn takes(self, reply: Reply, step: ObserveStep) -> bool {
        match reply {
            Reply::Data(data) => match self {
                Observing::Program => step matches ObserveStep::Do(Observing::Door { program })
                    && program@ == data@,
                Observing::Door { program: before } => step matches ObserveStep::Do(
                    Observing::Run { program, door },
                ) && program == before && door@ == data@,
                Observing::Run {
                    program,
                    door,
                } => step matches ObserveStep::Observed(snapshot) && snapshot.program == program
                    && snapshot.door == door && snapshot.run@ == data@,
            },
            _ => step == ObserveStep::Failed(reply),
        }
    }

    /// The operation that is wanted.
    pub fn request(&self) -> (r: Request)
        ensures
            r == self.operation(),
    {
        let address: u32 = match self {
            Observing::Program => 0xb0,
            Observing::Door { .. } => 0x260,
            Observing::Run { .. } => 0x270,
        };
        Request::ReadMemory { address, length: 16, timeout_ms: DEVICE_TIMEOUT_MS }
    }

    fn block(data: &[u8]) -> (r: [u8; 16])
        requires
            data@.len() == 16,
        ensures
            r@ == data@,
    {
        let mut r: [u8; 16] = [0; 16];
        for i in 0..16usize
            invariant
                data@.len() == 16,
                forall|j: int| 0 <= j < i ==> r@[j] == data@[j],
        {
            r[i] = data[i];
        }
        assert(r@ =~= data@);
        r
    }

    /// Takes the reply to the wanted operation.
    pub fn supply(self, reply: Reply) -> (step: ObserveStep)
        requires
            reply matches Reply::Data(data) ==> data@.len() == 16,
        ensures
            self.takes(reply, step),
    {
        let data = match reply {
            Reply::Data(data) => data,
            other => return ObserveStep::Failed(other),
        };
        let block = Observing::block(data.as_slice());
        match self {
            Observing::Program => ObserveStep::Do(Observing::Door { program: block }),
            Observing::Door { program } => ObserveStep::Do(
                Observing::Run { program, door: block },
            ),
            Observing::Run { program, door } => ObserveStep::Observed(
                Snapshot { program, door, run: block },
            ),
        }
    }
}

impl TumbleDryer {
    /// Begins a connection.
    pub fn connect() -> (r: Connecting)
        ensures
            r == Connecting::Query,
    {
        Connecting::Query
    }

    pub fn software_id(&self) -> (r: u16)
        ensures
            r == SOFTWARE_ID,
    {
        SOFTWARE_ID
    }

    pub fn kind(&self) -> (r: DeviceKind)
        ensures
            r == DeviceKind::TumbleDryer,
    {
        DeviceKind::TumbleDryer
    }

    /// The dryer has no actions.
    pub fn actions(&self) -> (r: Vec<Action>)
        ensures
            r@.len() == 0,
    {
        Vec::new()
    }

    /// Begins to query a property, if the dryer has it.
    pub fn query_property<E>(&self, prop: &Property) -> (r: Result<Observing, Error<E>>)
        ensures
            r matches Ok(o) ==> o == Observing::Program && is_dryer_property(*prop),
            r matches Err(e) ==> e is UnknownProperty && !is_dryer_property(*prop),
    {
        if !has_property(prop) {
            return Err(Error::UnknownProperty);
        }
        Ok(Observing::Program)
    }

    /// No action can be triggered.
    pub fn trigger_action<E>(&self, action: &Action, param: Option<&[u8]>) -> (r: Result<
        (),
        Error<E>,
    >)
        ensures
            r == Err::<(), Error<E>>(Error::UnknownAction),
    {
        Err(Error::UnknownAction)
    }
}

/// Monitoring asks for nothing but the software ID, read access with the dryer's
/// key and reads below address 0x480.
pub proof fn lemma_monitoring_only_reads(c: Connecting, o: Observing)
    ensures
        c.operation() == Request::QueryId || c.operation() == (Request::Unlock { key: READ_KEY }),
        o.operation() matches Request::ReadMemory { address, length, .. } && address + length
            <= 0x480,
{
}

} // verus!
