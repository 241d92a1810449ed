//! The dryer: what each label and property says of the observed bytes.

use crate::device::id498::{agree, block_read, door_label, dryer_property, motion_label};
use crate::device::id498::{observed_label, phase_label, program_label, running_label};
use crate::device::id498::{ConnectStep, Connecting, ObserveStep, Observing, Snapshot};
use crate::device::{Error, PropertyKind, ValueView};
use crate::link::{Reply, Request};
use crate::text::hex;
use vstd::prelude::*;
use vstd::string::*;
use vstd::utf8::*;

verus! {

/// Three equal door bytes.
pub open spec fn all_say(triplet: Seq<u8>, b: u8) -> bool {
    triplet == seq![b, b, b]
}

proof fn lemma_agree(triplet: Seq<u8>, b: u8)
    requires
        triplet.len() == 3,
    ensures
        agree(triplet, b) == all_say(triplet, b),
{
    if agree(triplet, b) {
        assert(triplet =~= seq![b, b, b]);
    }
}

proof fn lemma_phase_labels_differ()
    ensures
        "Program active"@ != "Unknown"@,
        "Program active"@ != "Door open / inactive"@,
        "Program active"@ != "Selector at Ende"@,
        "Program active"@ != "Inactive / waiting / interrupted / post-run"@,
        "Unknown"@ != "Door open / inactive"@,
        "Unknown"@ != "Selector at Ende"@,
        "Unknown"@ != "Inactive / waiting / interrupted / post-run"@,
        "Selector at Ende"@ != "Inactive / waiting / interrupted / post-run"@,
        "Selector at Ende"@ != "Door open / inactive"@,
        "Door open / inactive"@ != "Inactive / waiting / interrupted / post-run"@,
{
    reveal_strlit("Program active");
    reveal_strlit("Unknown");
    reveal_strlit("Door open / inactive");
    reveal_strlit("Selector at Ende");
    reveal_strlit("Inactive / waiting / interrupted / post-run");
    assert("Program active"@[0] == 'P' && "Unknown"@[0] == 'U' && "Door open / inactive"@[0] == 'D');
    assert("Selector at Ende"@[0] == 'S' && "Inactive / waiting / interrupted / post-run"@[0]
        == 'I');
}

/// Which phase is told, and of which markers: every claim where its markers stand, and
/// only there.
pub proof fn lemma_phase_is_told(selector: u8, run: u8, motor: u8, triplet: Seq<u8>)
    requires
        triplet.len() == 3,
    ensures
        ({
            let told = observed_label(selector, run, motor, triplet)@;
            let closed = all_say(triplet, 0);
            let moves = motor == 0 || motor == 1 || motor == 2;
            &&& told == "Program active"@ <==> closed && run == 0xaa && moves
            &&& told == "Selector at Ende"@ <==> closed && run == 0x55 && motor == 0 && selector
                == 15
            &&& told == "Inactive / waiting / interrupted / post-run"@ <==> closed && run == 0x55
                && moves && !(motor == 0 && selector == 15)
            &&& told == "Door open / inactive"@ <==> all_say(triplet, 1) && run == 0x55
            &&& told == "Unknown"@ <==> !(closed && (run == 0xaa || run == 0x55) && moves) && !(
            all_say(triplet, 1) && run == 0x55)
        }),
{
    lemma_phase_labels_differ();
    lemma_agree(triplet, 0);
    lemma_agree(triplet, 1);
}

/// The door is told where all three bytes agree, and only then.
pub proof fn lemma_door_is_told(triplet: Seq<u8>)
    requires
        triplet.len() == 3,
    ensures
        door_label(triplet)@ == "Closed"@ <==> all_say(triplet, 0),
        door_label(triplet)@ == "Open"@ <==> all_say(triplet, 1),
        door_label(triplet)@ == "Unknown"@ <==> !all_say(triplet, 0) && !all_say(triplet, 1),
{
    reveal_strlit("Closed");
    reveal_strlit("Open");
    reveal_strlit("Unknown");
    assert("Closed"@.len() == 6 && "Open"@.len() == 4 && "Unknown"@.len() == 7);
    lemma_agree(triplet, 0);
    lemma_agree(triplet, 1);
}

/// The run marker tells two states, and the direction marker three values.
pub proof fn lemma_markers_are_told(raw: u8)
    ensures
        running_label(raw)@ == "Running"@ <==> raw == 0xaa,
        running_label(raw)@ == "Not running"@ <==> raw == 0x55,
        running_label(raw)@ == "Unknown"@ <==> raw != 0xaa && raw != 0x55,
        motion_label(raw)@ == "Marker 0"@ <==> raw == 0,
        motion_label(raw)@ == "Marker 1"@ <==> raw == 1,
        motion_label(raw)@ == "Marker 2"@ <==> raw == 2,
        motion_label(raw)@ == "Unknown"@ <==> raw > 2,
{
    reveal_strlit("Running");
    reveal_strlit("Not running");
    reveal_strlit("Unknown");
    reveal_strlit("Marker 0");
    reveal_strlit("Marker 1");
    reveal_strlit("Marker 2");
    assert("Running"@[0] == 'R' && "Unknown"@[0] == 'U' && "Not running"@[0] == 'N');
    assert("Marker 0"@[7] == '0' && "Marker 1"@[7] == '1' && "Marker 2"@[7] == '2');
    assert("Marker 0"@.len() == 8 && "Marker 1"@.len() == 8 && "Marker 2"@.len() == 8
        && "Unknown"@.len() == 7);
}

/// The thirteen selector positions that were observed, each under its own name; no other
/// position has one.
pub proof fn lemma_programs_are_told(raw: u8)
    ensures
        raw == 1 ==> program_label(raw) == "Koch/Bunt Schranktrocken / Schonen",
        raw == 2 ==> program_label(raw) == "Koch/Bunt Mangelfeucht",
        raw == 3 ==> program_label(raw) == "Koch/Bunt Buegelfeucht",
        raw == 4 ==> program_label(raw) == "20 min warm",
        raw == 5 ==> program_label(raw) == "15 min kalt",
        raw == 6 ==> program_label(raw) == "Glaetten",
        raw == 7 ==> program_label(raw) == "Finish Wolle",
        raw == 8 ==> program_label(raw) == "Pflegeleicht Schranktrocken+",
        raw == 9 ==> program_label(raw) == "Pflegeleicht Schranktrocken",
        raw == 12 ==> program_label(raw) == "Pflegeleicht Buegelfeucht",
        raw == 13 ==> program_label(raw) == "Pflegeleicht Schranktrocken / Schonen",
        raw == 14 ==> program_label(raw) == "Koch/Bunt Schranktrocken+",
        raw == 15 ==> program_label(raw) == "Ende",
        raw == 0 || raw == 10 || raw == 11 || raw > 15 ==> program_label(raw) == "Unknown",
{
}

/// The text of a property's value.
pub open spec fn told(s: Snapshot, id: &str, text: Seq<u8>) -> bool {
    s.known_value(id@) == Some(ValueView::String(text))
}

proof fn lemma_ids_differ()
    ensures
        "dryer_program"@ != "dryer_door"@,
        "dryer_program"@.len() == 13,
        "dryer_door"@.len() == 10,
        "dryer_run_state"@.len() == 15,
        "dryer_motion"@.len() == 12,
        "dryer_phase"@.len() == 11,
        "dryer_program_raw"@.len() == 17,
        "dryer_door_raw"@.len() == 14,
        "dryer_run_raw"@.len() == 13,
        "dryer_run_raw"@ != "dryer_program"@,
        "dryer_flags_raw"@.len() == 15,
        "dryer_flags_raw"@ != "dryer_run_state"@,
        "dryer_post_run_raw"@.len() == 18,
        "dryer_motion_raw"@.len() == 16,
        "dryer_transition_raw"@.len() == 20,
        "dryer_software_id"@.len() == 17,
        "dryer_software_id"@ != "dryer_program_raw"@,
{
    reveal_strlit("dryer_program");
    reveal_strlit("dryer_door");
    reveal_strlit("dryer_run_state");
    reveal_strlit("dryer_motion");
    reveal_strlit("dryer_phase");
    reveal_strlit("dryer_program_raw");
    reveal_strlit("dryer_door_raw");
    reveal_strlit("dryer_run_raw");
    reveal_strlit("dryer_flags_raw");
    reveal_strlit("dryer_post_run_raw");
    reveal_strlit("dryer_motion_raw");
    reveal_strlit("dryer_transition_raw");
    reveal_strlit("dryer_software_id");
    assert("dryer_run_raw"@[6] == 'r' && "dryer_program"@[6] == 'p');
    assert("dryer_flags_raw"@[6] == 'f' && "dryer_run_state"@[6] == 'r');
    assert("dryer_software_id"@[6] == 's' && "dryer_program_raw"@[6] == 'p');
}

/// Which bytes of an observation each property tells: the labels of the selector, the
/// door, the run and the direction marker, and the raw bytes in hexadecimal. `p` is the
/// block at 0x00b0, `d` that at 0x0260 and `r` that at 0x0270.
pub proof fn lemma_properties_tell_their_bytes(s: Snapshot)
    ensures
        ({
            let p = s.program@;
            let d = s.door@;
            let r = s.run@;
            let door = seq![d[5], d[6], d[7]];
            let x = "0x".spec_bytes();
            let gap = " ".spec_bytes();
            &&& told(s, "dryer_program", program_label(p[6]).spec_bytes())
            &&& told(s, "dryer_door", door_label(door).spec_bytes())
            &&& told(s, "dryer_run_state", running_label(r[0]).spec_bytes())
            &&& told(s, "dryer_motion", motion_label(r[14]).spec_bytes())
            &&& told(s, "dryer_phase", observed_label(p[6], r[0], r[14], door).spec_bytes())
            &&& told(s, "dryer_program_raw", x + hex(p[6] as nat, 2))
            &&& told(
                s,
                "dryer_door_raw",
                hex(d[5] as nat, 2) + gap + hex(d[6] as nat, 2) + gap + hex(d[7] as nat, 2),
            )
            &&& told(s, "dryer_run_raw", x + hex(r[0] as nat, 2))
            &&& told(s, "dryer_flags_raw", hex(d[10] as nat, 2) + gap + hex(r[14] as nat, 2))
            &&& told(s, "dryer_post_run_raw", x + hex(d[0] as nat, 2))
            &&& told(s, "dryer_motion_raw", x + hex(r[14] as nat, 2))
            &&& told(s, "dryer_transition_raw", x + hex(r[15] as nat, 2))
            &&& s.known_value("dryer_software_id"@) == Some(ValueView::Number(498))
        }),
{
    lemma_ids_differ();
}

/// The thirteen properties, in order; all concern the operation and have no unit.
pub proof fn lemma_properties_of_the_dryer(i: int)
    requires
        0 <= i < 13,
    ensures
        dryer_property(i).kind == PropertyKind::Operation,
        dryer_property(i).unit is None,
        dryer_property(0).id == "dryer_program",
        dryer_property(1).id == "dryer_door",
        dryer_property(2).id == "dryer_run_state",
        dryer_property(3).id == "dryer_motion",
        dryer_property(4).id == "dryer_phase",
        dryer_property(5).id == "dryer_program_raw",
        dryer_property(6).id == "dryer_door_raw",
        dryer_property(7).id == "dryer_run_raw",
        dryer_property(8).id == "dryer_flags_raw",
        dryer_property(9).id == "dryer_post_run_raw",
        dryer_property(10).id == "dryer_motion_raw",
        dryer_property(11).id == "dryer_transition_raw",
        dryer_property(12).id == "dryer_software_id",
        dryer_property(0).name == "Dryer Selected program",
        dryer_property(1).name == "Dryer Door",
        dryer_property(2).name == "Dryer Program state (experimental)",
        dryer_property(3).name == "Dryer Direction marker (raw)",
        dryer_property(4).name == "Dryer Observed phase (experimental)",
        dryer_property(5).name == "Dryer Program marker raw",
        dryer_property(6).name == "Dryer Door triplet raw",
        dryer_property(7).name == "Dryer Run marker raw",
        dryer_property(8).name == "Dryer Flags 026a/027e raw",
        dryer_property(9).name == "Dryer Marker 0260 raw",
        dryer_property(10).name == "Dryer Motor marker 027e raw",
        dryer_property(11).name == "Dryer Transition marker 027f raw",
        dryer_property(12).name == "Dryer Software ID",
{
}

/// A connection asks who is there, and unlocks reads with the dryer's read key only where
/// the answer is 498; nothing else is unlocked.
pub proof fn lemma_connection(id: u16, reply: Reply)
    ensures
        Connecting::Query.operation() == Request::QueryId,
        Connecting::Unlock.operation() == (Request::Unlock { key: 0x2b2c }),
        id == 498 ==> Connecting::Query.after(Reply::Id(id)) == ConnectStep::Do(Connecting::Unlock),
        id != 498 ==> Connecting::Query.after(Reply::Id(id)) == ConnectStep::Failed(
            Error::UnknownSoftwareId(id),
        ),
        !(reply is Id) ==> Connecting::Query.after(reply) == ConnectStep::Failed(
            Error::Link(reply),
        ),
        reply is Done <==> Connecting::Unlock.after(reply) is Connected,
        !(reply is Done) ==> Connecting::Unlock.after(reply) == ConnectStep::Failed(
            Error::Link(reply),
        ),
{
}

/// An observation is read block by block: 16 bytes each at 0x00b0, 0x0260 and 0x0270.
pub proof fn lemma_observed_blocks(program: [u8; 16], door: [u8; 16])
    ensures
        Observing::Program.operation() == (Request::ReadMemory {
            address: 0xb0,
            length: 16,
            timeout_ms: 1000,
        }),
        (Observing::Door { program }).operation() == (Request::ReadMemory {
            address: 0x260,
            length: 16,
            timeout_ms: 1000,
        }),
        (Observing::Run { program, door }).operation() == (Request::ReadMemory {
            address: 0x270,
            length: 16,
            timeout_ms: 1000,
        }),
        block_read(0x270) == (Observing::Run { program, door }).operation(),
{
}

/// The phase behind a closed door: three direction markers are known, and with any of them a
/// run marker that is known tells a phase.
pub proof fn lemma_phase_behind_the_door(selector: u8, run: u8, motor: u8)
    ensures
        ({
            let moves = motor == 0 || motor == 1 || motor == 2;
            let phase = phase_label(selector, run, motor)@;
            &&& phase == "Program active"@ <==> moves && run == 0xaa
            &&& phase == "Selector at Ende"@ <==> run == 0x55 && motor == 0 && selector == 15
            &&& phase == "Inactive / waiting / interrupted / post-run"@ <==> moves && run == 0x55
                && !(motor == 0 && selector == 15)
            &&& phase == "Unknown"@ <==> !(moves && (run == 0xaa || run == 0x55))
            &&& all_say(seq![0u8, 0, 0], 0)
            &&& observed_label(selector, run, motor, seq![0u8, 0, 0])@ == phase
        }),
{
    lemma_phase_labels_differ();
    lemma_agree(seq![0u8, 0, 0], 0);
}

/// What is read is what is observed: each block where it belongs; a read that fails ends the
/// observation.
pub proof fn lemma_observation_holds_the_blocks(
    first: ObserveStep,
    second: ObserveStep,
    third: ObserveStep,
    a: Vec<u8>,
    b: Vec<u8>,
    c: Vec<u8>,
    o: Observing,
    reply: Reply,
)
    requires
        Observing::Program.takes(Reply::Data(a), first),
        first matches ObserveStep::Do(next) && next.takes(Reply::Data(b), second),
        second matches ObserveStep::Do(next) && next.takes(Reply::Data(c), third),
    ensures
        third matches ObserveStep::Observed(s) && s.program@ == a@ && s.door@ == b@ && s.run@ == c@,
        first matches ObserveStep::Do(next) && next is Door,
        second matches ObserveStep::Do(next) && next is Run,
        !(reply is Data) && o.takes(reply, third) ==> third is Failed,
{
}

/// A property has a value if and only if it is one of the thirteen.
pub proof fn lemma_other_properties_have_no_value(s: Snapshot, id: Seq<char>)
    ensures
        s.known_value(id) is Some <==> id == "dryer_program"@ || id == "dryer_door"@ || id
            == "dryer_run_state"@ || id == "dryer_motion"@ || id == "dryer_phase"@ || id
            == "dryer_program_raw"@ || id == "dryer_door_raw"@ || id == "dryer_run_raw"@ || id
            == "dryer_flags_raw"@ || id == "dryer_post_run_raw"@ || id == "dryer_motion_raw"@ || id
            == "dryer_transition_raw"@ || id == "dryer_software_id"@,
{
}

} // verus!
