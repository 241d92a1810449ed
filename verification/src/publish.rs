//! What is published over MQTT: names, topics and the texts of values.

use crate::accelerometer::Metrics;
use crate::device::{Action, ActionKind, Property, Value, ValueView};
use crate::text::{copy_of, decimal, first_index, hex_bytes, index_of, is_text, numeral};
use crate::text::{push_bytes, push_decimal, push_hex_bytes, push_numeral, push_signed, push_text};
use crate::text::{same_bytes, signed, text_bytes};
use vstd::prelude::*;
use vstd::string::*;
use vstd::utf8::*;

verus! {

// ---------------------------------------------------------------------------
// Names and topics
// ---------------------------------------------------------------------------
/// The host name of the adapter with this hardware address.
pub open spec fn hostname_of(mac: Seq<u8>) -> Seq<u8> {
    "freemdu_home_".spec_bytes() + hex_bytes(mac)
}

/// Writes the host name of the adapter with this hardware address.
pub fn hostname(mac: &[u8]) -> (r: Vec<u8>)
    ensures
        r@ == hostname_of(mac@),
{
    let mut out = text_bytes("freemdu_home_");
    push_hex_bytes(&mut out, mac);
    out
}

/// The identifier of a property or an action of the device, among all adapters.
pub open spec fn unique_id_of(host: Seq<u8>, id: Seq<u8>) -> Seq<u8> {
    host + "_".spec_bytes() + id
}

/// Writes the identifier of a property or an action.
pub fn unique_id(host: &[u8], id: &[u8]) -> (r: Vec<u8>)
    ensures
        r@ == unique_id_of(host@, id@),
{
    let mut out = copy_of(host);
    push_text(&mut out, "_");
    push_bytes(&mut out, id);
    out
}

/// The topic of a property's value.
pub open spec fn value_topic_of(id: Seq<u8>) -> Seq<u8> {
    id + "/value".spec_bytes()
}

/// Writes the topic of a property's value.
pub fn value_topic(id: &[u8]) -> (r: Vec<u8>)
    ensures
        r@ == value_topic_of(id@),
{
    let mut out = copy_of(id);
    push_text(&mut out, "/value");
    out
}

/// The topic that triggers an action.
pub open spec fn trigger_topic_of(id: Seq<u8>) -> Seq<u8> {
    id + "/trigger".spec_bytes()
}

/// Writes the topic that triggers an action.
pub fn trigger_topic(id: &[u8]) -> (r: Vec<u8>)
    ensures
        r@ == trigger_topic_of(id@),
{
    let mut out = copy_of(id);
    push_text(&mut out, "/trigger");
    out
}

/// The identifier of the action that a topic triggers, if it triggers one: what
/// stands before the first slash, where `trigger` stands behind it.
pub open spec fn triggered(topic: Seq<u8>) -> Option<Seq<u8>> {
    let at = first_index(topic, 47);
    if at < topic.len() && topic.skip(at + 1) == "trigger".spec_bytes() {
        Some(topic.subrange(0, at))
    } else {
        None
    }
}

/// Reads the identifier of the action that a topic triggers.
pub fn triggered_action(topic: &[u8]) -> (r: Option<&[u8]>)
    ensures
        r matches Some(id) ==> triggered(topic@) == Some(id@),
        r is None ==> triggered(topic@) is None,
{
    let at = index_of(topic, 47);
    if at < topic.len() {
        let rest = vstd::slice::slice_subrange(topic, at + 1, topic.len());
        assert(rest@ =~= topic@.skip(at + 1));
        if is_text(rest, "trigger") {
            return Some(vstd::slice::slice_subrange(topic, 0, at));
        }
    }
    None
}

/// The topic of an action triggers that action, whatever its identifier, if that
/// holds no slash.
pub proof fn lemma_trigger_topic_triggers(id: Seq<u8>)
    requires
        forall|i: int| 0 <= i < id.len() ==> id[i] != 47,
    ensures
        triggered(trigger_topic_of(id)) == Some(id),
{
    reveal_strlit("/trigger");
    reveal_strlit("trigger");
    is_ascii_spec_bytes("/trigger");
    is_ascii_spec_bytes("trigger");
    let topic = trigger_topic_of(id);
    assert("/trigger".spec_bytes()[0] == 47);
    lemma_slash(id, "/trigger".spec_bytes());
    assert(topic.skip(id.len() as int + 1) =~= "trigger".spec_bytes());
    assert(topic.subrange(0, id.len() as int) =~= id);
}

proof fn lemma_slash(id: Seq<u8>, rest: Seq<u8>)
    requires
        forall|i: int| 0 <= i < id.len() ==> id[i] != 47,
        rest.len() > 0,
        rest[0] == 47,
    ensures
        first_index(id + rest, 47) == id.len(),
    decreases id.len(),
{
    if id.len() > 0 {
        assert((id + rest)[0] == id[0]);
        assert((id + rest).skip(1) =~= id.skip(1) + rest);
        assert forall|i: int| 0 <= i < id.skip(1).len() implies id.skip(1)[i] != 47 by {
            assert(id.skip(1)[i] == id[i + 1]);
        }
        lemma_slash(id.skip(1), rest);
    } else {
        assert((id + rest)[0] == 47);
    }
}

// ---------------------------------------------------------------------------
// Values
// ---------------------------------------------------------------------------
/// The published text of a value; sensor readings and faults are not published.
pub open spec fn value_text(v: ValueView) -> Option<Seq<u8>> {
    match v {
        ValueView::Number(n) => Some(decimal(n as nat)),
        ValueView::Bool(b) => Some(
            if b {
                "Yes".spec_bytes()
            } else {
                "No".spec_bytes()
            },
        ),
        ValueView::String(s) => Some(s),
        ValueView::Duration(seconds) => Some(
            decimal((seconds / 3600) as nat) + "h ".spec_bytes() + decimal(
                (seconds / 60 % 60) as nat,
            ) + "min".spec_bytes(),
        ),
        ValueView::Date { year, month, day } => Some(
            decimal(year as nat) + "-".spec_bytes() + numeral(month as nat, 10, 2)
                + "-".spec_bytes() + numeral(day as nat, 10, 2),
        ),
        ValueView::Sensor => None,
        ValueView::Fault => None,
    }
}

/// Writes the published text of a value.
pub fn property_value(v: &Value) -> (r: Option<Vec<u8>>)
    ensures
        r matches Some(text) ==> value_text(v@) == Some(text@),
        r is None ==> value_text(v@) is None,
{
    let mut out: Vec<u8> = Vec::new();
    match v {
        Value::Number(n) => {
            push_decimal(&mut out, *n as u64);
            assert(out@ =~= decimal(*n as nat));
        },
        Value::Bool(b) => {
            if *b {
                out = text_bytes("Yes");
            } else {
                out = text_bytes("No");
            }
        },
        Value::String(s) => {
            out = copy_of(s.as_slice());
        },
        Value::Duration(seconds) => {
            let total_mins = *seconds / 60;
            push_decimal(&mut out, total_mins / 60);
            push_text(&mut out, "h ");
            push_decimal(&mut out, total_mins % 60);
            push_text(&mut out, "min");
            assert(*seconds / 60 / 60 == *seconds / 3600);
            assert(out@ =~= value_text(v@).unwrap());
        },
        Value::Date { year, month, day } => {
            push_decimal(&mut out, *year as u64);
            push_text(&mut out, "-");
            push_numeral(&mut out, *month as u64, 10, 2);
            push_text(&mut out, "-");
            push_numeral(&mut out, *day as u64, 10, 2);
            assert(out@ =~= value_text(v@).unwrap());
        },
        Value::Sensor => return None,
        Value::Fault => return None,
    }
    Some(out)
}

/// An action of the appliance's operation without parameters.
pub open spec fn published(action: Action) -> bool {
    action.kind == ActionKind::Operation && !action.takes_parameter
}

/// Tells whether an action is published. There is no suitable component for
/// actions with parameters.
pub fn publishes_action(action: &Action) -> (r: bool)
    ensures
        r == published(*action),
{
    match action.kind {
        ActionKind::Operation => !action.takes_parameter,
        _ => false,
    }
}

/// The position of the first action with this identifier at or behind `i`.
pub open spec fn action_index(actions: Seq<Action>, id: Seq<u8>, i: int) -> Option<int>
    decreases actions.len() - i,
{
    if i >= actions.len() {
        None
    } else if actions[i].id.spec_bytes() == id {
        Some(i)
    } else {
        action_index(actions, id, i + 1)
    }
}

/// Selects the action to trigger and whether the published value is its
/// parameter; an action without parameters ignores the value.
pub fn select_action(actions: &[Action], id: &[u8]) -> (r: Option<(usize, bool)>)
    ensures
        r matches Some((i, with_parameter)) ==> action_index(actions@, id@, 0) == Some(i as int) && i
            < actions@.len() && with_parameter == actions@[i as int].takes_parameter,
        r is None ==> action_index(actions@, id@, 0) is None,
{
    for i in 0..actions.len()
        invariant
            action_index(actions@, id@, 0) == action_index(actions@, id@, i as int),
    {
        if same_bytes(actions[i].id.as_bytes(), id) {
            return Some((i, actions[i].takes_parameter));
        }
    }
    None
}

// ---------------------------------------------------------------------------
// The accelerometer
// ---------------------------------------------------------------------------
/// The number of published statistics.
pub const STATISTICS: usize = 12;

/// The identifier, name and unit of statistic `i`. The last four repeat values in
/// g, which read more easily; the others keep the resolution.
pub open spec fn statistic_words(i: int) -> (&'static str, &'static str, &'static str) {
    if i == 0 {
        ("acceleration_x_mean", "Acceleration X mean", "mg")
    } else if i == 1 {
        ("acceleration_y_mean", "Acceleration Y mean", "mg")
    } else if i == 2 {
        ("acceleration_z_mean", "Acceleration Z mean", "mg")
    } else if i == 3 {
        ("vibration_x_stddev", "Vibration X stddev", "mg")
    } else if i == 4 {
        ("vibration_y_stddev", "Vibration Y stddev", "mg")
    } else if i == 5 {
        ("vibration_z_stddev", "Vibration Z stddev", "mg")
    } else if i == 6 {
        ("vibration_rms", "Vibration RMS", "mg")
    } else if i == 7 {
        ("acceleration_peak_to_peak", "Acceleration peak-to-peak", "mg")
    } else if i == 8 {
        ("acceleration_peak_g", "Peak acceleration", "g")
    } else if i == 9 {
        ("dynamic_peak_g", "Dynamic peak", "g")
    } else if i == 10 {
        ("vibration_rms_g", "Vibration RMS", "g")
    } else {
        ("peak_to_peak_g", "Peak-to-peak", "g")
    }
}

/// The identifier, name and unit of a statistic.
pub fn statistic(i: usize) -> (r: (&'static str, &'static str, &'static str))
    requires
        i < STATISTICS,
    ensures
        r == statistic_words(i as int),
{
    match i {
        0 => ("acceleration_x_mean", "Acceleration X mean", "mg"),
        1 => ("acceleration_y_mean", "Acceleration Y mean", "mg"),
        2 => ("acceleration_z_mean", "Acceleration Z mean", "mg"),
        3 => ("vibration_x_stddev", "Vibration X stddev", "mg"),
        4 => ("vibration_y_stddev", "Vibration Y stddev", "mg"),
        5 => ("vibration_z_stddev", "Vibration Z stddev", "mg"),
        6 => ("vibration_rms", "Vibration RMS", "mg"),
        7 => ("acceleration_peak_to_peak", "Acceleration peak-to-peak", "mg"),
        8 => ("acceleration_peak_g", "Peak acceleration", "g"),
        9 => ("dynamic_peak_g", "Dynamic peak", "g"),
        10 => ("vibration_rms_g", "Vibration RMS", "g"),
        _ => ("peak_to_peak_g", "Peak-to-peak", "g"),
    }
}

/// Thousandths of g as a decimal number of g, with three places.
pub open spec fn in_g(mg: u32) -> Seq<u8> {
    decimal((mg / 1000) as nat) + ".".spec_bytes() + numeral((mg % 1000) as nat, 10, 3)
}

/// The published text of statistic `i`.
pub open spec fn statistic_text(m: Metrics, i: int) -> Seq<u8> {
    if i == 0 {
        signed(m.x_mean_mg as int)
    } else if i == 1 {
        signed(m.y_mean_mg as int)
    } else if i == 2 {
        signed(m.z_mean_mg as int)
    } else if i == 3 {
        decimal(m.x_stddev_mg as nat)
    } else if i == 4 {
        decimal(m.y_stddev_mg as nat)
    } else if i == 5 {
        decimal(m.z_stddev_mg as nat)
    } else if i == 6 {
        decimal(m.vibration_rms_mg as nat)
    } else if i == 7 {
        decimal(m.peak_to_peak_mg as nat)
    } else if i == 8 {
        in_g(m.acceleration_peak_mg)
    } else if i == 9 {
        in_g(m.dynamic_peak_mg)
    } else if i == 10 {
        in_g(m.vibration_rms_mg)
    } else {
        in_g(m.peak_to_peak_mg)
    }
}

/// Writes thousandths of g as a decimal number of g.
pub fn mg_as_g(mg: u32) -> (r: Vec<u8>)
    ensures
        r@ == in_g(mg),
{
    let mut out: Vec<u8> = Vec::new();
    push_decimal(&mut out, (mg / 1000) as u64);
    push_text(&mut out, ".");
    push_numeral(&mut out, (mg % 1000) as u64, 10, 3);
    assert(out@ =~= in_g(mg));
    out
}

fn signed_text(n: i32) -> (r: Vec<u8>)
    ensures
        r@ == signed(n as int),
{
    let mut out: Vec<u8> = Vec::new();
    push_signed(&mut out, n);
    assert(out@ =~= signed(n as int));
    out
}

fn decimal_text(n: u32) -> (r: Vec<u8>)
    ensures
        r@ == decimal(n as nat),
{
    let mut out: Vec<u8> = Vec::new();
    push_decimal(&mut out, n as u64);
    assert(out@ =~= decimal(n as nat));
    out
}

/// Writes the published text of a statistic.
pub fn statistic_value(m: &Metrics, i: usize) -> (r: Vec<u8>)
    requires
        i < STATISTICS,
    ensures
        r@ == statistic_text(*m, i as int),
{
    match i {
        0 => signed_text(m.x_mean_mg),
        1 => signed_text(m.y_mean_mg),
        2 => signed_text(m.z_mean_mg),
        3 => decimal_text(m.x_stddev_mg),
        4 => decimal_text(m.y_stddev_mg),
        5 => decimal_text(m.z_stddev_mg),
        6 => decimal_text(m.vibration_rms_mg),
        7 => decimal_text(m.peak_to_peak_mg),
        8 => mg_as_g(m.acceleration_peak_mg),
        9 => mg_as_g(m.dynamic_peak_mg),
        10 => mg_as_g(m.vibration_rms_mg),
        _ => mg_as_g(m.peak_to_peak_mg),
    }
}

/// The identifier of a statistic, among all adapters.
pub open spec fn sensor_id_of(host: Seq<u8>, id: Seq<u8>) -> Seq<u8> {
    host + "_lis2dh_".spec_bytes() + id
}

/// Writes the identifier of a statistic.
pub fn sensor_id(host: &[u8], id: &[u8]) -> (r: Vec<u8>)
    ensures
        r@ == sensor_id_of(host@, id@),
{
    let mut out = copy_of(host);
    push_text(&mut out, "_lis2dh_");
    push_bytes(&mut out, id);
    out
}

/// The topic of a statistic.
pub open spec fn sensor_topic_of(id: Seq<u8>) -> Seq<u8> {
    "accelerometer/".spec_bytes() + id + "/value".spec_bytes()
}

/// Writes the topic of a statistic.
pub fn sensor_topic(id: &[u8]) -> (r: Vec<u8>)
    ensures
        r@ == sensor_topic_of(id@),
{
    let mut out = text_bytes("accelerometer/");
    push_bytes(&mut out, id);
    push_text(&mut out, "/value");
    out
}

// ---------------------------------------------------------------------------
// Discovery
// ---------------------------------------------------------------------------
/// The topic that tells whether the device is available.
pub const STATUS_TOPIC: &'static str = "status";

/// The name under which the statistics of the accelerometer appear.
pub const MONITOR_NAME: &'static str = "FreeMDU vibration monitor";

/// What an entity is.
#[derive(Clone, Copy, Debug, PartialEq, Eq)]
pub enum Component {
    Sensor { unit: Option<&'static str> },
    Button,
}

/// An entity as it is announced. Its topics are those of this adapter.
#[derive(Debug)]
pub struct Discovery {
    /// The name of the device that the entity belongs to.
    pub device: Vec<u8>,
    /// The identifier of the entity and of its object.
    pub unique_id: Vec<u8>,
    pub name: &'static str,
    /// The topic that tells whether the entity is available, where there is one.
    pub availability_topic: Option<&'static str>,
    pub state_topic: Option<Vec<u8>>,
    pub command_topic: Option<Vec<u8>>,
    pub component: Component,
}

/// An announced entity in the abstract.
pub ghost struct DiscoveryView {
    pub device: Seq<u8>,
    pub unique_id: Seq<u8>,
    pub name: &'static str,
    pub availability_topic: Option<&'static str>,
    pub state_topic: Option<Seq<u8>>,
    pub command_topic: Option<Seq<u8>>,
    pub component: Component,
}

/// The bytes of a topic, where there is one.
pub open spec fn topic_view(topic: Option<Vec<u8>>) -> Option<Seq<u8>> {
    match topic {
        Some(topic) => Some(topic@),
        None => None,
    }
}

impl View for Discovery {
    type V = DiscoveryView;

    open spec fn view(&self) -> DiscoveryView {
        DiscoveryView {
            device: self.device@,
            unique_id: self.unique_id@,
            name: self.name,
            availability_topic: self.availability_topic,
            state_topic: topic_view(self.state_topic),
            command_topic: topic_view(self.command_topic),
            component: self.component,
        }
    }
}

/// A property as it is announced.
pub open spec fn property_entry(prop: Property, device: Seq<u8>, host: Seq<u8>) -> DiscoveryView {
    DiscoveryView {
        device,
        unique_id: unique_id_of(host, prop.id.spec_bytes()),
        name: prop.name,
        availability_topic: Some(STATUS_TOPIC),
        state_topic: Some(value_topic_of(prop.id.spec_bytes())),
        command_topic: None,
        component: Component::Sensor { unit: prop.unit },
    }
}

/// How a property of a device is announced: a sensor that shows its value.
pub fn property_discovery(prop: &Property, device: &[u8], host: &[u8]) -> (r: Discovery)
    ensures
        r@ == property_entry(*prop, device@, host@),
{
    Discovery {
        device: copy_of(device),
        unique_id: unique_id(host, prop.id.as_bytes()),
        name: prop.name,
        availability_topic: Some(STATUS_TOPIC),
        state_topic: Some(value_topic(prop.id.as_bytes())),
        command_topic: None,
        component: Component::Sensor { unit: prop.unit },
    }
}

/// An action as it is announced.
pub open spec fn action_entry(action: Action, device: Seq<u8>, host: Seq<u8>) -> DiscoveryView {
    DiscoveryView {
        device,
        unique_id: unique_id_of(host, action.id.spec_bytes()),
        name: action.name,
        availability_topic: Some(STATUS_TOPIC),
        state_topic: None,
        command_topic: Some(trigger_topic_of(action.id.spec_bytes())),
        component: Component::Button,
    }
}

/// How an action of a device is announced: a button that triggers it.
pub fn action_discovery(action: &Action, device: &[u8], host: &[u8]) -> (r: Discovery)
    ensures
        r@ == action_entry(*action, device@, host@),
{
    Discovery {
        device: copy_of(device),
        unique_id: unique_id(host, action.id.as_bytes()),
        name: action.name,
        availability_topic: Some(STATUS_TOPIC),
        state_topic: None,
        command_topic: Some(trigger_topic(action.id.as_bytes())),
        component: Component::Button,
    }
}

/// A statistic of the accelerometer as it is announced.
pub open spec fn statistic_entry(i: int, host: Seq<u8>) -> DiscoveryView {
    DiscoveryView {
        device: MONITOR_NAME.spec_bytes(),
        unique_id: sensor_id_of(host, statistic_words(i).0.spec_bytes()),
        name: statistic_words(i).1,
        availability_topic: None,
        state_topic: Some(sensor_topic_of(statistic_words(i).0.spec_bytes())),
        command_topic: None,
        component: Component::Sensor { unit: Some(statistic_words(i).2) },
    }
}

/// How a statistic of the accelerometer is announced: a sensor that is available
/// whether or not an appliance is.
pub fn statistic_discovery(i: usize, host: &[u8]) -> (r: Discovery)
    requires
        i < STATISTICS,
    ensures
        r@ == statistic_entry(i as int, host@),
{
    let (id, name, unit) = statistic(i);
    Discovery {
        device: text_bytes(MONITOR_NAME),
        unique_id: sensor_id(host, id.as_bytes()),
        name,
        availability_topic: None,
        state_topic: Some(sensor_topic(id.as_bytes())),
        command_topic: None,
        component: Component::Sensor { unit: Some(unit) },
    }
}

} // verus!
