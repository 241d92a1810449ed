//! The worker of the desktop tool: its requests and responses, and the work that a
//! session asks for.

use crate::device::{of_kind, positions, properties_of_kind, Property, PropertyKind, Value};
use crate::link::{Reply, Request as LinkRequest, DEVICE_TIMEOUT_MS};
use crate::text::{decimal, find, hex, occurrence, push_bytes, push_decimal, push_hex, push_text};
use crate::text::text_bytes;
use vstd::prelude::*;
use vstd::string::*;
use vstd::utf8::*;

verus! {

/// The pause between attempts to connect.
pub const DEVICE_CONNECT_INTERVAL_MS: u64 = 4000;

/// What the tool asks of the worker.
#[allow(inconsistent_fields)]
#[derive(Debug)]
pub enum Request {
    /// Query the properties of a kind.
    QueryProperties(PropertyKind),
    /// Trigger the action at this position, with a parameter where it takes one.
    TriggerAction(usize, Option<Vec<u8>>),
    RawQuerySoftwareId,
    RawUnlockRead { key: u16 },
    RawReadMemory16 { key: u16, address: u32 },
    RawReadEeprom16 { key: u16, address: u16 },
}

/// What the worker tells the tool.
#[derive(Debug)]
pub enum Response {
    DeviceConnected { software_id: u16 },
    UnknownDeviceConnected { software_id: u16 },
    DeviceDisconnected,
    /// The properties of a kind were queried: their positions and values.
    PropertiesQueried(PropertyKind, Vec<(usize, Value)>),
    /// The action at this position does not take this argument.
    InvalidActionArgument(usize),
    /// The action at this position is not possible now.
    InvalidActionState(usize),
    RawStatus(Vec<u8>),
    RawData { label: &'static str, data: Vec<u8> },
}

/// A response, in the abstract.
pub ghost enum ResponseView {
    DeviceConnected { software_id: u16 },
    UnknownDeviceConnected { software_id: u16 },
    DeviceDisconnected,
    PropertiesQueried(PropertyKind, Seq<(usize, Value)>),
    InvalidActionArgument(usize),
    InvalidActionState(usize),
    RawStatus(Seq<u8>),
    RawData { label: &'static str, data: Seq<u8> },
}

impl View for Response {
    type V = ResponseView;

    open spec fn view(&self) -> ResponseView {
        match *self {
            Response::DeviceConnected { software_id } => ResponseView::DeviceConnected {
                software_id,
            },
            Response::UnknownDeviceConnected { software_id } =>
                ResponseView::UnknownDeviceConnected { software_id },
            Response::DeviceDisconnected => ResponseView::DeviceDisconnected,
            Response::PropertiesQueried(kind, data) => ResponseView::PropertiesQueried(kind, data@),
            Response::InvalidActionArgument(i) => ResponseView::InvalidActionArgument(i),
            Response::InvalidActionState(i) => ResponseView::InvalidActionState(i),
            Response::RawStatus(status) => ResponseView::RawStatus(status@),
            Response::RawData { label, data } => ResponseView::RawData { label, data: data@ },
        }
    }
}

/// How an attempt to connect came out.
#[derive(Debug)]
pub enum ConnectOutcome {
    Connected,
    /// It failed, and this is the message.
    Failed(Vec<u8>),
    TimedOut,
}

/// The connection failed because no profile knows the software ID.
pub open spec fn unknown_device(outcome: ConnectOutcome) -> bool {
    outcome matches ConnectOutcome::Failed(message) && occurrence(
        message@,
        "unknown software ID".spec_bytes(),
        0,
    ) is Some
}

/// Tells whether the device is to be handled as an unknown one: the connection
/// failed because no profile knows its software ID.
pub fn use_raw_mode(outcome: &ConnectOutcome) -> (r: bool)
    ensures
        r == unknown_device(*outcome),
{
    proof {
        reveal_strlit("unknown software ID");
        is_ascii_spec_bytes("unknown software ID");
    }
    match outcome {
        ConnectOutcome::Failed(message) => find(
            message.as_slice(),
            "unknown software ID".as_bytes(),
        ).is_some(),
        _ => false,
    }
}

/// How an action of a device came out.
#[derive(Clone, Copy, Debug, PartialEq, Eq, Structural)]
pub enum ActionOutcome {
    Done,
    InvalidArgument,
    InvalidState,
    /// Another error, or none in time.
    Failed,
}

/// What an action that came out like this is answered with: nothing where it was done, and
/// no session any more where it failed.
pub open spec fn action_answer(action: usize, outcome: ActionOutcome) -> Result<
    Option<ResponseView>,
    (),
> {
    match outcome {
        ActionOutcome::Done => Ok(None),
        ActionOutcome::InvalidArgument => Ok(Some(ResponseView::InvalidActionArgument(action))),
        ActionOutcome::InvalidState => Ok(Some(ResponseView::InvalidActionState(action))),
        ActionOutcome::Failed => Err(()),
    }
}

/// The response to a triggered action, where there is one; a failure ends the
/// session.
pub fn action_response(action: usize, outcome: ActionOutcome) -> (r: Result<Option<Response>, ()>)
    ensures
        match action_answer(action, outcome) {
            Ok(Some(answer)) => r matches Ok(Some(response)) && response@ == answer,
            Ok(None) => r matches Ok(None),
            Err(_) => r is Err,
        },
{
    match outcome {
        ActionOutcome::Done => Ok(None),
        ActionOutcome::InvalidArgument => Ok(Some(Response::InvalidActionArgument(action))),
        ActionOutcome::InvalidState => Ok(Some(Response::InvalidActionState(action))),
        ActionOutcome::Failed => Err(()),
    }
}

// ---------------------------------------------------------------------------
// A known device
// ---------------------------------------------------------------------------
/// A query of the properties of a kind; `data` holds what is known so far.
#[derive(Debug)]
pub struct PropertyQuery {
    pub kind: PropertyKind,
    pub wanted: Vec<usize>,
    pub data: Vec<(usize, Value)>,
}

/// What comes after a value.
#[derive(Debug)]
pub enum QueryStep {
    /// Another property is to be queried.
    Do(PropertyQuery),
    Answer(Response),
    /// A property could not be queried in time; the session ends.
    Failed,
}

/// The work that a session with a known device asks for.
#[derive(Debug)]
pub enum Work {
    Query(QueryStep),
    Trigger(usize, Option<Vec<u8>>),
    /// Raw requests are not for known devices.
    Idle,
}

/// The values belong to the first of the wanted positions, in order.
pub open spec fn in_order(wanted: Seq<usize>, data: Seq<(usize, Value)>) -> bool {
    &&& data.len() <= wanted.len()
    &&& forall|i: int| 0 <= i < data.len() ==> (#[trigger] data[i]).0 == wanted[i]
}

impl PropertyQuery {
    /// A property is wanted, and the values are those of the properties before it.
    pub open spec fn well_formed(self) -> bool {
        &&& self.data@.len() < self.wanted@.len()
        &&& in_order(self.wanted@, self.data@)
    }

    /// Begins to query the properties of a kind.
    pub fn begin(props: &[Property], kind: PropertyKind) -> (r: QueryStep)
        ensures
            match r {
                QueryStep::Do(query) => {
                    &&& query.well_formed()
                    &&& query.kind == kind
                    &&& query.data@.len() == 0
                    &&& positions(query.wanted@) == of_kind(props@, kind, props@.len() as int)
                },
                QueryStep::Answer(response) => {
                    &&& response@ == ResponseView::PropertiesQueried(kind, Seq::empty())
                    &&& of_kind(props@, kind, props@.len() as int).len() == 0
                },
                QueryStep::Failed => false,
            },
    {
        let wanted = properties_of_kind(props, kind);
        let data: Vec<(usize, Value)> = Vec::new();
        assert(data@ =~= Seq::empty());
        assert(positions(wanted@).len() == wanted@.len());
        if wanted.len() == 0 {
            return QueryStep::Answer(Response::PropertiesQueried(kind, data));
        }
        QueryStep::Do(PropertyQuery { kind, wanted, data })
    }

    /// The position of the property that is to be queried.
    pub fn request(&self) -> (r: usize)
        requires
            self.well_formed(),
        ensures
            r == self.wanted@[self.data@.len() as int],
    {
        self.wanted[self.data.len()]
    }

    /// Takes the value of the wanted property, or notes that there is none in time.
    /// The answer comes with the last value and holds all of them in order.
    pub fn supply(self, value: Option<Value>) -> (r: QueryStep)
        requires
            self.well_formed(),
        ensures
            match value {
                None => r is Failed,
                Some(value) => {
                    let data = self.data@.push((self.wanted@[self.data@.len() as int], value));
                    if data.len() < self.wanted@.len() {
                        &&& r matches QueryStep::Do(next)
                        &&& next.well_formed()
                        &&& next.kind == self.kind
                        &&& next.wanted == self.wanted
                        &&& next.data@ == data
                    } else {
                        &&& r matches QueryStep::Answer(response)
                        &&& response@ == ResponseView::PropertiesQueried(self.kind, data)
                        &&& data.len() == self.wanted@.len()
                        &&& in_order(self.wanted@, data)
                    }
                },
            },
    {
        let value = match value {
            None => return QueryStep::Failed,
            Some(value) => value,
        };
        let position = self.request();
        let mut data = self.data;
        data.push((position, value));
        if data.len() < self.wanted.len() {
            return QueryStep::Do(PropertyQuery { kind: self.kind, wanted: self.wanted, data });
        }
        QueryStep::Answer(Response::PropertiesQueried(self.kind, data))
    }
}

/// Takes a request of a session with a device that has these properties.
pub fn known_device_work(request: Request, props: &[Property]) -> (r: Work)
    ensures
        match request {
            Request::QueryProperties(kind) => match r {
                Work::Query(QueryStep::Do(query)) => {
                    &&& query.well_formed()
                    &&& query.kind == kind
                    &&& query.data@.len() == 0
                    &&& positions(query.wanted@) == of_kind(props@, kind, props@.len() as int)
                },
                Work::Query(QueryStep::Answer(response)) => {
                    &&& response@ == ResponseView::PropertiesQueried(kind, Seq::empty())
                    &&& of_kind(props@, kind, props@.len() as int).len() == 0
                },
                _ => false,
            },
            Request::TriggerAction(action, param) => r == Work::Trigger(action, param),
            _ => r is Idle,
        },
{
    match request {
        Request::QueryProperties(kind) => Work::Query(PropertyQuery::begin(props, kind)),
        Request::TriggerAction(action, param) => Work::Trigger(action, param),
        _ => Work::Idle,
    }
}

// ---------------------------------------------------------------------------
// Raw requests
// ---------------------------------------------------------------------------
/// The step of a raw request.
#[derive(Clone, Copy, Debug, PartialEq, Eq, Structural)]
pub enum RawStage {
    Query,
    Unlock,
    Read,
}

/// A raw request being worked on. All its steps together may take
/// `DEVICE_TIMEOUT_MS`; a step that would end later times out.
#[derive(Debug)]
pub struct RawWork {
    pub request: Request,
    pub stage: RawStage,
}

/// What comes after a reply.
#[derive(Debug)]
pub enum RawStep {
    Do(RawWork),
    Answer(Response),
}

/// What comes after a reply, in the abstract.
pub ghost enum RawStepView {
    Do(RawWork),
    Answer(ResponseView),
}

impl View for RawStep {
    type V = RawStepView;

    open spec fn view(&self) -> RawStepView {
        match *self {
            RawStep::Do(work) => RawStepView::Do(work),
            RawStep::Answer(response) => RawStepView::Answer(response@),
        }
    }
}

impl Request {
    /// The request is for a raw session.
    pub open spec fn is_raw(self) -> bool {
        self is RawQuerySoftwareId || self is RawUnlockRead || self is RawReadMemory16 || self
            is RawReadEeprom16
    }

    /// The key that unlocks the read.
    pub open spec fn raw_key(self) -> u16 {
        match self {
            Request::RawUnlockRead { key } => key,
            Request::RawReadMemory16 { key, .. } => key,
            Request::RawReadEeprom16 { key, .. } => key,
            _ => 0,
        }
    }

    /// What the request is called in a status.
    pub open spec fn raw_name(self) -> &'static str {
        match self {
            Request::RawQuerySoftwareId => "Software-ID query",
            Request::RawUnlockRead { .. } => "Read unlock",
            Request::RawReadMemory16 { .. } => "Memory read",
            _ => "EEPROM read",
        }
    }

    fn name_of(&self) -> (r: &'static str)
        ensures
            r == self.raw_name(),
    {
        match self {
            Request::RawQuerySoftwareId => "Software-ID query",
            Request::RawUnlockRead { .. } => "Read unlock",
            Request::RawReadMemory16 { .. } => "Memory read",
            _ => "EEPROM read",
        }
    }
}

/// The status where a request failed or timed out.
pub open spec fn failure_status(request: Request, reply: Reply) -> Seq<u8> {
    request.raw_name().spec_bytes() + (match reply {
        Reply::Failed(e) => " failed: ".spec_bytes() + e@,
        _ => " timed out".spec_bytes(),
    })
}

impl RawWork {
    pub open spec fn well_formed(self) -> bool {
        &&& self.request.is_raw()
        &&& self.stage == RawStage::Unlock ==> !(self.request is RawQuerySoftwareId)
        &&& self.stage == RawStage::Read ==> self.request is RawReadMemory16 || self.request
            is RawReadEeprom16
    }

    /// The operation that is wanted.
    pub open spec fn operation(self) -> LinkRequest {
        match self.stage {
            RawStage::Query => LinkRequest::QueryId,
            RawStage::Unlock => LinkRequest::Unlock { key: self.request.raw_key() },
            RawStage::Read => match self.request {
                Request::RawReadMemory16 { address, .. } => LinkRequest::ReadMemory {
                    address,
                    length: 16,
                    timeout_ms: DEVICE_TIMEOUT_MS,
                },
                Request::RawReadEeprom16 { address, .. } => LinkRequest::ReadEeprom {
                    address,
                    length: 16,
                },
                _ => LinkRequest::QueryId,
            },
        }
    }

    /// What comes after a reply.
    pub open spec fn after(self, reply: Reply) -> RawStepView {
        match (self.stage, reply) {
            (RawStage::Query, Reply::Id(id)) => if self.request is RawQuerySoftwareId {
                RawStepView::Answer(
                    ResponseView::RawStatus(
                        "Software ID: ".spec_bytes() + decimal(id as nat) + " / 0x".spec_bytes()
                            + hex(id as nat, 4),
                    ),
                )
            } else {
                RawStepView::Do(RawWork { stage: RawStage::Unlock, ..self })
            },
            (RawStage::Unlock, Reply::Done) => if self.request is RawUnlockRead {
                RawStepView::Answer(
                    ResponseView::RawStatus(
                        "Read access unlocked with key 0x".spec_bytes() + hex(
                            self.request.raw_key() as nat,
                            4,
                        ),
                    ),
                )
            } else {
                RawStepView::Do(RawWork { stage: RawStage::Read, ..self })
            },
            (RawStage::Read, Reply::Data(data)) => RawStepView::Answer(
                ResponseView::RawData {
                    label: if self.request is RawReadMemory16 {
                        "Memory @ 0x0000"
                    } else {
                        "EEPROM @ word 0x0000"
                    },
                    data: data@,
                },
            ),
            _ => RawStepView::Answer(
                ResponseView::RawStatus(failure_status(self.request, reply)),
            ),
        }
    }

    /// The work on a request; only raw ones are worked on.
    pub open spec fn first(request: Request) -> Option<RawWork> {
        if request.is_raw() {
            Some(RawWork { request, stage: RawStage::Query })
        } else {
            None
        }
    }

    /// Begins to work on a request; only raw ones are worked on.
    pub fn begin(request: Request) -> (r: Option<RawWork>)
        ensures
            r == RawWork::first(request),
            r matches Some(work) ==> work.well_formed(),
    {
        match &request {
            Request::QueryProperties(_) => None,
            Request::TriggerAction(_, _) => None,
            _ => Some(RawWork { request, stage: RawStage::Query }),
        }
    }

    /// The operation that is wanted.
    pub fn request(&self) -> (r: LinkRequest)
        ensures
            r == self.operation(),
    {
        match self.stage {
            RawStage::Query => LinkRequest::QueryId,
            RawStage::Unlock => {
                let key = match self.request {
                    Request::RawUnlockRead { key } => key,
                    Request::RawReadMemory16 { key, .. } => key,
                    Request::RawReadEeprom16 { key, .. } => key,
                    _ => 0u16,
                };
                LinkRequest::Unlock { key }
            },
            RawStage::Read => match self.request {
                Request::RawReadMemory16 { address, .. } => LinkRequest::ReadMemory {
                    address,
                    length: 16,
                    timeout_ms: DEVICE_TIMEOUT_MS,
                },
                Request::RawReadEeprom16 { address, .. } => LinkRequest::ReadEeprom {
                    address,
                    length: 16,
                },
                _ => LinkRequest::QueryId,
            },
        }
    }

    fn fail(self, reply: Reply) -> (r: RawStep)
        ensures
            r@ == RawStepView::Answer(
                ResponseView::RawStatus(failure_status(self.request, reply)),
            ),
    {
        let mut out = text_bytes(self.request.name_of());
        match &reply {
            Reply::Failed(e) => {
                push_text(&mut out, " failed: ");
                push_bytes(&mut out, e.as_slice());
            },
            _ => push_text(&mut out, " timed out"),
        }
        assert(out@ =~= failure_status(self.request, reply));
        RawStep::Answer(Response::RawStatus(out))
    }

    /// Takes the reply to the wanted operation.
    pub fn supply(self, reply: Reply) -> (r: RawStep)
        requires
            self.well_formed(),
        ensures
            r@ == self.after(reply),
            r matches RawStep::Do(next) ==> next.well_formed(),
    {
        match (self.stage, reply) {
            (RawStage::Query, Reply::Id(id)) => {
                if let Request::RawQuerySoftwareId = &self.request {
                    let mut out = text_bytes("Software ID: ");
                    push_decimal(&mut out, id as u64);
                    push_text(&mut out, " / 0x");
                    push_hex(&mut out, id as u64, 4);
                    return RawStep::Answer(Response::RawStatus(out));
                }
                RawStep::Do(RawWork { stage: RawStage::Unlock, ..self })
            },
            (RawStage::Unlock, Reply::Done) => {
                if let Request::RawUnlockRead { key } = self.request {
                    let mut out = text_bytes("Read access unlocked with key 0x");
                    push_hex(&mut out, key as u64, 4);
                    return RawStep::Answer(Response::RawStatus(out));
                }
                RawStep::Do(RawWork { stage: RawStage::Read, ..self })
            },
            (RawStage::Read, Reply::Data(data)) => {
                let label = match self.request {
                    Request::RawReadMemory16 { .. } => "Memory @ 0x0000",
                    _ => "EEPROM @ word 0x0000",
                };
                RawStep::Answer(Response::RawData { label, data })
            },
            (_, other) => self.fail(other),
        }
    }
}

/// Whatever a raw session asks for, the device is only asked for its software ID,
/// for read access and for sixteen bytes.
pub proof fn lemma_raw_work_only_reads(work: RawWork)
    requires
        work.well_formed(),
    ensures
        match work.operation() {
            LinkRequest::QueryId => true,
            LinkRequest::Unlock { .. } => true,
            LinkRequest::ReadMemory { length, .. } => length == 16,
            LinkRequest::ReadEeprom { length, .. } => length == 16,
            _ => false,
        },
{
}

} // verus!
