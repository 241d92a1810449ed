//! Reports: what is published, under which names, and when.

use crate::accelerometer::Metrics;
use crate::bridge::BridgeCommand;
use crate::device::id498::{Observing, Snapshot};
use crate::device::{of_kind, Action, Property, PropertyKind, ValueView};
use crate::diagnostics::DiagnosticCommand;
use crate::keyscan::State;
use crate::laws::reading::lemma_first_place;
use crate::monitor::{announced_after, announced_by, availability_of, connected_after};
use crate::monitor::{interval_of, is_dryer, light_level, reacts};
use crate::monitor::{needs_line_after, needs_line_at_boot, published_actions, resumed, sampled};
use crate::monitor::{turn_of, window_action, Availability, PublishStage, TaskAction, TaskEvent};
use crate::monitor::WindowAction;
use crate::publish::{action_entry, action_index, hostname_of, in_g, property_entry, published};
use crate::publish::{sensor_id_of, sensor_topic_of, statistic_entry, statistic_text};
use crate::publish::{statistic_words, trigger_topic_of, triggered, unique_id_of, value_text};
use crate::publish::{value_topic_of, Component};
use crate::text::{decimal, first_index, hex_bytes, numeral, signed};
use vstd::prelude::*;
use vstd::string::*;
use vstd::utf8::*;

verus! {

// ---------------------------------------------------------------------------
// Names and topics
// ---------------------------------------------------------------------------
/// The names under which things are published.
pub proof fn lemma_published_names(mac: Seq<u8>, host: Seq<u8>, id: Seq<u8>)
    ensures
        hostname_of(mac) == "freemdu_home_".spec_bytes() + hex_bytes(mac),
        unique_id_of(host, id) == host + "_".spec_bytes() + id,
        value_topic_of(id) == id + "/value".spec_bytes(),
        trigger_topic_of(id) == id + "/trigger".spec_bytes(),
        sensor_id_of(host, id) == host + "_lis2dh_".spec_bytes() + id,
        sensor_topic_of(id) == "accelerometer/".spec_bytes() + id + "/value".spec_bytes(),
{
}

/// A topic triggers an action if and only if it is the identifier, a slash and the word.
pub proof fn lemma_triggers(topic: Seq<u8>, id: Seq<u8>)
    ensures
        triggered(topic) == Some(id) ==> topic == trigger_topic_of(id),
        triggered(topic) == Some(id) ==> forall|i: int| 0 <= i < id.len() ==> id[i] != 47,
{
    if triggered(topic) == Some(id) {
        let at = first_index(topic, 47);
        lemma_first_place(topic, 47, 0);
        reveal_strlit("/trigger");
        is_ascii_spec_bytes("/trigger");
        reveal_strlit("trigger");
        is_ascii_spec_bytes("trigger");
        let word = "trigger".spec_bytes();
        assert("/trigger".spec_bytes() =~= seq![47u8] + word);
        assert(topic =~= id + (seq![47u8] + word)) by {
            assert(topic =~= topic.subrange(0, at) + seq![topic[at]] + topic.skip(at + 1));
        }
        assert forall|i: int| 0 <= i < id.len() implies id[i] != 47 by {
            lemma_first_place(topic, 47, i);
            assert(id[i] == topic[i]);
        }
    }
}

/// The first action with an identifier is the one to trigger.
pub proof fn lemma_first_action_is_chosen(actions: Seq<Action>, id: Seq<u8>, from: int, k: int)
    requires
        0 <= from,
    ensures
        action_index(actions, id, from) matches Some(i) ==> from <= i < actions.len()
            && actions[i].id.spec_bytes() == id && (from <= k < i ==> actions[k].id.spec_bytes()
            != id),
        action_index(actions, id, from) is None && from <= k < actions.len()
            ==> actions[k].id.spec_bytes() != id,
    decreases actions.len() - from,
{
    if from < actions.len() && actions[from].id.spec_bytes() != id {
        lemma_first_action_is_chosen(actions, id, from + 1, k);
    }
}

// ---------------------------------------------------------------------------
// Values
// ---------------------------------------------------------------------------
/// The text of each kind of value.
pub proof fn lemma_value_texts(n: u32, s: Seq<u8>, seconds: u64, year: u16, month: u8, day: u8)
    ensures
        value_text(ValueView::Number(n)) == Some(decimal(n as nat)),
        value_text(ValueView::Bool(true)) == Some("Yes".spec_bytes()),
        value_text(ValueView::Bool(false)) == Some("No".spec_bytes()),
        value_text(ValueView::String(s)) == Some(s),
        value_text(ValueView::Date { year, month, day }) == Some(
            decimal(year as nat) + "-".spec_bytes() + numeral(month as nat, 10, 2)
                + "-".spec_bytes() + numeral(day as nat, 10, 2),
        ),
        value_text(ValueView::Sensor) is None,
        value_text(ValueView::Fault) is None,
{
}

/// A duration is told in hours and in the minutes that are left; seconds are not told.
pub proof fn lemma_duration_text(hours: u64, minutes: u64, seconds: u64)
    requires
        minutes < 60,
        seconds < 60,
        3600 * hours + 60 * minutes + seconds <= u64::MAX,
    ensures
        value_text(
            ValueView::Duration((3600 * hours + 60 * minutes + seconds) as u64),
        ) == Some(
            decimal(hours as nat) + "h ".spec_bytes() + decimal(minutes as nat)
                + "min".spec_bytes(),
        ),
{
    let n = 3600 * hours + 60 * minutes + seconds;
    assert(n / 3600 == hours);
    assert(n / 60 == 60 * hours + minutes);
    assert(n / 60 % 60 == minutes);
}

/// Thousandths of g are told as g, with three digits behind the point.
pub proof fn lemma_g_text(g: u32, milli: u32)
    requires
        milli < 1000,
        1000 * g + milli <= u32::MAX,
    ensures
        in_g((1000 * g + milli) as u32) == decimal(g as nat) + ".".spec_bytes() + numeral(
            milli as nat,
            10,
            3,
        ),
{
    let n = 1000 * g + milli;
    assert(n / 1000 == g);
    assert(n % 1000 == milli);
}

/// Which number each statistic tells, under which name and in which unit.
pub proof fn lemma_statistics(m: Metrics)
    ensures
        statistic_words(0) == ("acceleration_x_mean", "Acceleration X mean", "mg"),
        statistic_words(1) == ("acceleration_y_mean", "Acceleration Y mean", "mg"),
        statistic_words(2) == ("acceleration_z_mean", "Acceleration Z mean", "mg"),
        statistic_words(3) == ("vibration_x_stddev", "Vibration X stddev", "mg"),
        statistic_words(4) == ("vibration_y_stddev", "Vibration Y stddev", "mg"),
        statistic_words(5) == ("vibration_z_stddev", "Vibration Z stddev", "mg"),
        statistic_words(6) == ("vibration_rms", "Vibration RMS", "mg"),
        statistic_words(7) == ("acceleration_peak_to_peak", "Acceleration peak-to-peak", "mg"),
        statistic_words(8) == ("acceleration_peak_g", "Peak acceleration", "g"),
        statistic_words(9) == ("dynamic_peak_g", "Dynamic peak", "g"),
        statistic_words(10) == ("vibration_rms_g", "Vibration RMS", "g"),
        statistic_words(11) == ("peak_to_peak_g", "Peak-to-peak", "g"),
        statistic_text(m, 0) == signed(m.x_mean_mg as int),
        statistic_text(m, 1) == signed(m.y_mean_mg as int),
        statistic_text(m, 2) == signed(m.z_mean_mg as int),
        statistic_text(m, 3) == decimal(m.x_stddev_mg as nat),
        statistic_text(m, 4) == decimal(m.y_stddev_mg as nat),
        statistic_text(m, 5) == decimal(m.z_stddev_mg as nat),
        statistic_text(m, 6) == decimal(m.vibration_rms_mg as nat),
        statistic_text(m, 7) == decimal(m.peak_to_peak_mg as nat),
        statistic_text(m, 8) == in_g(m.acceleration_peak_mg),
        statistic_text(m, 9) == in_g(m.dynamic_peak_mg),
        statistic_text(m, 10) == in_g(m.vibration_rms_mg),
        statistic_text(m, 11) == in_g(m.peak_to_peak_mg),
{
}

// ---------------------------------------------------------------------------
// Announcements
// ---------------------------------------------------------------------------
/// A property is announced as a sensor that shows its topic, an action as a button that
/// sends to its own, and both depend on the device; a statistic does not.
pub proof fn lemma_announcements(p: Property, a: Action, i: int, device: Seq<u8>, host: Seq<u8>)
    ensures
        ({
            let e = property_entry(p, device, host);
            &&& e.device == device && e.name == p.name
            &&& e.unique_id == host + "_".spec_bytes() + p.id.spec_bytes()
            &&& e.state_topic == Some(p.id.spec_bytes() + "/value".spec_bytes())
            &&& e.command_topic is None
            &&& e.availability_topic == Some("status")
            &&& e.component == (Component::Sensor { unit: p.unit })
        }),
        ({
            let e = action_entry(a, device, host);
            &&& e.device == device && e.name == a.name
            &&& e.unique_id == host + "_".spec_bytes() + a.id.spec_bytes()
            &&& e.command_topic == Some(a.id.spec_bytes() + "/trigger".spec_bytes())
            &&& e.state_topic is None
            &&& e.availability_topic == Some("status")
            &&& e.component is Button
        }),
        ({
            let e = statistic_entry(i, host);
            let words = statistic_words(i);
            &&& e.device == "FreeMDU vibration monitor".spec_bytes() && e.name == words.1
            &&& e.unique_id == host + "_lis2dh_".spec_bytes() + words.0.spec_bytes()
            &&& e.state_topic == Some(
                "accelerometer/".spec_bytes() + words.0.spec_bytes() + "/value".spec_bytes(),
            )
            &&& e.command_topic is None
            &&& e.availability_topic is None
            &&& e.component == (Component::Sensor { unit: Some(words.2) })
        }),
{
}

/// The button of an action triggers this action.
pub proof fn lemma_button_triggers_its_action(a: Action, device: Seq<u8>, host: Seq<u8>)
    requires
        forall|i: int| 0 <= i < a.id.spec_bytes().len() ==> a.id.spec_bytes()[i] != 47,
    ensures
        triggered(action_entry(a, device, host).command_topic->0) == Some(a.id.spec_bytes()),
{
    crate::publish::lemma_trigger_topic_triggers(a.id.spec_bytes());
}

/// Actions of the operation are published unless they take a parameter, in their order.
pub proof fn lemma_published_actions(actions: Seq<Action>, n: int, k: int)
    requires
        0 <= n <= actions.len(),
    ensures
        published(actions[k]) <==> actions[k].kind is Operation && !actions[k].takes_parameter,
        0 <= k < n ==> (published_actions(actions, n).contains(k) <==> actions[k].kind is Operation
            && !actions[k].takes_parameter),
        published_actions(actions, n).contains(k) ==> 0 <= k < n,
        forall|i: int, j: int|
            0 <= i < j < published_actions(actions, n).len() ==> #[trigger] published_actions(
                actions,
                n,
            )[i] < #[trigger] published_actions(actions, n)[j],
    decreases n,
{
    if n > 0 {
        lemma_published_actions(actions, n - 1, k);
        let before = published_actions(actions, n - 1);
        let all = published_actions(actions, n);
        assert forall|i: int| 0 <= i < before.len() implies 0 <= #[trigger] before[i] < n - 1 by {
            lemma_published_actions(actions, n - 1, before[i]);
            assert(before.contains(before[i]));
        }
        if all.len() > before.len() {
            assert(all == before.push(n - 1));
            assert(all[before.len() as int] == n - 1);
            if before.contains(k) {
                let i = choose|i: int| 0 <= i < before.len() && before[i] == k;
                assert(all[i] == k);
            }
            if all.contains(k) && k != n - 1 {
                let i = choose|i: int| 0 <= i < all.len() && all[i] == k;
                assert(before[i] == k);
            }
        }
    }
}

/// The properties of a kind are all of that kind, in their order.
pub proof fn lemma_properties_of_a_kind(props: Seq<Property>, kind: PropertyKind, n: int, k: int)
    requires
        0 <= n <= props.len(),
    ensures
        0 <= k < n ==> (of_kind(props, kind, n).contains(k) <==> props[k].kind == kind),
        of_kind(props, kind, n).contains(k) ==> 0 <= k < n,
        forall|i: int, j: int|
            0 <= i < j < of_kind(props, kind, n).len() ==> #[trigger] of_kind(props, kind, n)[i]
                < #[trigger] of_kind(props, kind, n)[j],
    decreases n,
{
    if n > 0 {
        lemma_properties_of_a_kind(props, kind, n - 1, k);
        let before = of_kind(props, kind, n - 1);
        let all = of_kind(props, kind, n);
        assert forall|i: int| 0 <= i < before.len() implies 0 <= #[trigger] before[i] < n - 1 by {
            lemma_properties_of_a_kind(props, kind, n - 1, before[i]);
            assert(before.contains(before[i]));
        }
        if all.len() > before.len() {
            assert(all == before.push(n - 1));
            assert(all[before.len() as int] == n - 1);
            if before.contains(k) {
                let i = choose|i: int| 0 <= i < before.len() && before[i] == k;
                assert(all[i] == k);
            }
            if all.contains(k) && k != n - 1 {
                let i = choose|i: int| 0 <= i < all.len() && all[i] == k;
                assert(before[i] == k);
            }
        }
    }
}

// ---------------------------------------------------------------------------
// The port's task
// ---------------------------------------------------------------------------
/// A boot leaves a job alone unless it runs and the line is lost: that counts as a failure,
/// and is saved.
pub proof fn lemma_boot(s: State, regained: bool)
    ensures
        needs_line_at_boot(s) <==> s.phase is Running,
        s.phase is Running && !regained ==> resumed(s, regained) == (s.after_failure(), true),
        !(s.phase is Running) || regained ==> resumed(s, regained) == (s, false),
{
}

/// Between two candidates a waiting command is executed, and a client of the bridge turned
/// away.
pub proof fn lemma_turns(bridge: Option<BridgeCommand>, command: Option<DiagnosticCommand>)
    ensures
        turn_of(bridge, command).command == command,
        turn_of(bridge, command).refuse_bridge <==> bridge is Some && bridge->0 is Connect,
{
}

/// A dryer is published every five seconds, another device as configured.
pub proof fn lemma_publishing_interval(configured_s: u64)
    ensures
        interval_of(true, configured_s) == 5,
        interval_of(false, configured_s) == configured_s,
{
}

/// MQTT counts as connected from the event that tells so to the one that tells otherwise.
pub proof fn lemma_connection_is_known(connected: bool, event: TaskEvent)
    ensures
        event is MqttConnected ==> connected_after(connected, event),
        event is MqttDisconnected ==> !connected_after(connected, event),
        !(event is MqttConnected) && !(event is MqttDisconnected) ==> connected_after(
            connected,
            event,
        ) == connected,
{
}

/// What each event makes the task do.
pub proof fn lemma_reactions(connected: bool, event: TaskEvent, action: TaskAction)
    requires
        reacts(connected, event, action),
    ensures
        action is Publish <==> event is PublishTick && connected,
        action is Trace <==> event is TraceTick,
        action is RestartInterval <==> event is MqttConnected,
        action is Bridge <==> event == TaskEvent::Bridge(BridgeCommand::Connect),
        action is Execute <==> event is Diagnostic,
        event matches TaskEvent::Diagnostic(command) ==> action == TaskAction::Execute(command),
        event is Ambient || event is MqttDisconnected ==> action is Idle,
        action is Trigger ==> event is MqttMessage,
        event matches TaskEvent::MqttMessage { topic, payload } ==> (action is Trigger
            <==> triggered(topic@) is Some && valid_utf8(payload@)) && (
        action matches TaskAction::Trigger { id, param } ==> topic@ == trigger_topic_of(id@)
            && param@ == payload@),
{
    if let TaskEvent::MqttMessage { topic, payload } = event {
        if let TaskAction::Trigger { id, param } = action {
            lemma_triggers(topic@, id@);
        }
    }
}

/// The line is regained behind an answer that is an error, and behind a failed publication.
pub proof fn lemma_line_is_regained(rest: Seq<u8>, published: bool)
    ensures
        needs_line_after("ERR ".spec_bytes() + rest),
        !needs_line_after("OK ".spec_bytes() + rest),
        availability_of(true) == (Availability::Online, false),
        availability_of(false) == (Availability::Offline, true),
{
    let e = "ERR ".spec_bytes();
    let o = "OK ".spec_bytes();
    reveal_strlit("ERR ");
    is_ascii_spec_bytes("ERR ");
    reveal_strlit("OK ");
    is_ascii_spec_bytes("OK ");
    assert((e + rest).subrange(0, e.len() as int) =~= e);
    if needs_line_after(o + rest) {
        assert((o + rest).subrange(0, e.len() as int)[0] == e[0]);
        assert((o + rest)[0] == o[0]);
    }
}

// ---------------------------------------------------------------------------
// Publishing a device
// ---------------------------------------------------------------------------
/// How publishing begins: with an observation of a dryer, with a query of another device,
/// and with its actions where it has no properties.
pub proof fn lemma_publishing_begins(properties: int, actions: int)
    ensures
        properties > 0 ==> PublishStage::first(true, properties, actions) == PublishStage::Observe(
            Observing::Program,
        ),
        properties > 0 ==> PublishStage::first(false, properties, actions) == PublishStage::Query(
            0,
        ),
        properties <= 0 && actions > 0 ==> PublishStage::first(true, properties, actions)
            == PublishStage::Action(0) && PublishStage::first(false, properties, actions)
            == PublishStage::Action(0),
        properties <= 0 && actions <= 0 ==> PublishStage::first(true, properties, actions)
            == PublishStage::Done && PublishStage::first(false, properties, actions)
            == PublishStage::Done,
{
}

/// How it goes on: every property is queried, then announced and published one by one, then
/// the actions; what was observed stays with every property.
pub proof fn lemma_publishing_goes_on(
    i: usize,
    o: Option<Snapshot>,
    properties: int,
    actions: int,
)
    requires
        properties <= usize::MAX,
        actions <= usize::MAX,
    ensures
        i + 1 < properties ==> PublishStage::Query(i).following(properties, actions)
            == PublishStage::Query((i + 1) as usize),
        i + 1 == properties ==> PublishStage::Query(i).following(properties, actions)
            == PublishStage::Announce(0, None),
        PublishStage::Announce(i, o).following(properties, actions) == PublishStage::Value(i, o),
        i + 1 < properties ==> PublishStage::Value(i, o).following(properties, actions)
            == PublishStage::Announce((i + 1) as usize, o),
        i + 1 == properties && actions > 0 ==> PublishStage::Value(i, o).following(
            properties,
            actions,
        ) == PublishStage::Action(0),
        i + 1 == properties && actions <= 0 ==> PublishStage::Value(i, o).following(
            properties,
            actions,
        ) == PublishStage::Done,
        i + 1 < actions ==> PublishStage::Action(i).following(properties, actions)
            == PublishStage::Action((i + 1) as usize),
        i + 1 == actions ==> PublishStage::Action(i).following(properties, actions)
            == PublishStage::Done,
        PublishStage::Done.following(properties, actions) == PublishStage::Done,
{
}

// ---------------------------------------------------------------------------
// The accelerometer's task
// ---------------------------------------------------------------------------
/// Samples are taken at least once a second, and a window holds those of the interval, as
/// far as they can be counted.
pub proof fn lemma_sampling(hz: u32, interval_s: u32)
    ensures
        hz > 0 ==> sampled(hz, interval_s).hz == hz,
        sampled(0, interval_s).hz == 1,
        hz > 0 ==> sampled(hz, interval_s).period_us * hz <= 1_000_000 && 1_000_000 < (sampled(
            hz,
            interval_s,
        ).period_us + 1) * hz,
        hz > 0 && interval_s > 0 && hz * interval_s <= 0xffff_ffff ==> sampled(
            hz,
            interval_s,
        ).target_samples == hz * interval_s,
        hz > 0 && interval_s > 0 && hz * interval_s > 0xffff_ffff ==> sampled(
            hz,
            interval_s,
        ).target_samples == 0xffff_ffff,
        hz > 0 ==> sampled(hz, 0).target_samples == hz,
        interval_s > 0 ==> sampled(0, interval_s).target_samples == interval_s,
{
    if hz > 0 {
        let p = sampled(hz, interval_s).period_us;
        assert(p * hz <= 1_000_000 && 1_000_000 < (p + 1) * hz) by (nonlinear_arith)
            requires
                p == 1_000_000u64 / (hz as u64),
                hz > 0,
        ;
        assert(hz * 1 == hz) by (nonlinear_arith);
    }
    assert(1 * interval_s == interval_s) by (nonlinear_arith);
}

/// A window goes on until it has its samples, is then published while MQTT is connected, and
/// dropped otherwise; what was not announced, or announced before the connection was lost, is
/// announced first.
pub proof fn lemma_windows(announced: bool, samples: u32, target: u32, connected: bool)
    ensures
        ({
            let r = window_action(announced, samples, target, connected);
            let full = samples > 0 && samples >= target;
            &&& r is Continue <==> !full
            &&& r is Discard <==> full && !connected
            &&& r is Publish <==> full && connected
            &&& r matches WindowAction::Publish { announce } ==> announce == !announced
            &&& full && !connected ==> !announced_after(announced, r)
            &&& !full || connected ==> announced_after(announced, r) == announced
        }),
{
}

/// The dryer has its own software ID; the light is on, with a low level, while MQTT is
/// connected; and an announcement that failed is made again.
pub proof fn lemma_what_the_tasks_know(id: u16, connected: bool, announced: bool)
    ensures
        is_dryer(id) <==> id == 498,
        light_level(connected) <==> !connected,
        announced_by(announced, true),
        announced_by(announced, false) == announced,
{
}

/// An observation that is published holds the blocks that were read, each where it belongs.
pub proof fn lemma_published_observation(
    a: Seq<u8>,
    b: Seq<u8>,
    c: Seq<u8>,
    second: PublishStage,
    third: PublishStage,
    fourth: PublishStage,
)
    requires
        PublishStage::Observe(Observing::Program).after_block(a, second),
        second.after_block(b, third),
        third.after_block(c, fourth),
    ensures
        fourth matches PublishStage::Announce(0, Some(s)) && s.program@ == a && s.door@ == b
            && s.run@ == c,
        second matches PublishStage::Observe(o) && o is Door,
        third matches PublishStage::Observe(o) && o is Run,
{
}

} // verus!
