//! The desktop tool and the key registry: what keys, answers and rows come to.

use crate::device::PropertyKind;
use crate::known_read_keys::{behind_line, first_line, has_key, registry, row_of, rows_of};
use crate::known_read_keys::{without_return, RegistryError, RowView};
use crate::laws::reading::lemma_first_place;
use crate::link::{Reply, Request as LinkRequest};
use crate::text::{decimal, first_index, has_prefix, hex, number, occurrence};
use crate::text::trimmed_end;
use crate::tui::app::{ends, for_session, key_action, shown, shown_after_key};
use crate::tui::app::{DisplayView, KeyAction};
use crate::tui::raw_session::{data_lines, informed, key_request, pressed, row_bytes, row_count};
use crate::tui::raw_session::{row_line, rows, title_text, RawView};
use crate::tui::transport::{answer_accepted, auth_text, chosen_token, network_address};
use crate::tui::transport::AuthAnswer;
use crate::tui::worker::{action_answer, unknown_device, ActionOutcome};
use crate::tui::worker::{ConnectOutcome, RawStage, RawStepView, RawWork, Request, ResponseView};
use vstd::prelude::*;
use vstd::string::*;
use vstd::utf8::*;

verus! {

// ---------------------------------------------------------------------------
// The session with an unknown device
// ---------------------------------------------------------------------------
/// The four keys of a raw session, each with its request; the others ask for nothing.
pub proof fn lemma_raw_keys(key: char)
    ensures
        key_request('i') == Some(Request::RawQuerySoftwareId),
        key_request('u') == Some(Request::RawUnlockRead { key: 0 }),
        key_request('m') == Some(Request::RawReadMemory16 { key: 0, address: 0 }),
        key_request('e') == Some(Request::RawReadEeprom16 { key: 0, address: 0 }),
        key != 'i' && key != 'u' && key != 'm' && key != 'e' ==> key_request(key) is None,
{
}

/// A key that asks for something is noted in the status; the data stays until other comes.
pub proof fn lemma_key_presses(s: RawView, key: char)
    ensures
        key_request(key) is Some ==> pressed(s, key).status
            == "Running diagnostic request...".spec_bytes(),
        key_request(key) is None ==> pressed(s, key) == s,
        pressed(s, key).data == s.data,
        pressed(s, key).data_label == s.data_label,
        pressed(s, key).software_id == s.software_id,
{
}

/// A status replaces the status, and data replaces the data and is told in the status.
pub proof fn lemma_answers_are_shown(s: RawView, status: Seq<u8>, label: &'static str, data: Seq<u8>)
    ensures
        informed(s, ResponseView::RawStatus(status)).status == status,
        informed(s, ResponseView::RawStatus(status)).data == s.data,
        informed(s, ResponseView::RawStatus(status)).data_label == s.data_label,
        informed(s, ResponseView::RawStatus(status)).software_id == s.software_id,
        informed(s, ResponseView::RawData { label, data }).data == data,
        informed(s, ResponseView::RawData { label, data }).data_label == Some(label),
        informed(s, ResponseView::RawData { label, data }).software_id == s.software_id,
        informed(s, ResponseView::RawData { label, data }).status == label.spec_bytes()
            + ": ".spec_bytes() + decimal(data.len()) + " bytes received".spec_bytes(),
        informed(s, ResponseView::DeviceDisconnected) == s,
{
}

proof fn lemma_rows(data: Seq<u8>, n: int, k: int)
    requires
        0 <= n,
    ensures
        rows(data, n).len() == n,
        0 <= k < n ==> rows(data, n)[k] == row_line(data, k),
    decreases n,
{
    if n > 0 {
        lemma_rows(data, n - 1, if k < n - 1 {
            k
        } else {
            0
        });
        if k < n - 1 {
            lemma_rows(data, n - 1, k);
        }
    }
}

/// The data is shown in rows of sixteen bytes, all of it, each row behind its offset; without
/// data the display says so.
pub proof fn lemma_data_is_shown(s: RawView, k: int)
    ensures
        s.data.len() == 0 ==> data_lines(s) == seq!["No raw data captured yet.".spec_bytes()],
        s.data.len() > 0 ==> ({
            let head: int = if s.data_label is Some {
                1
            } else {
                0
            };
            let count = data_lines(s).len() - head;
            &&& 16 * (count - 1) < s.data.len() <= 16 * count
            &&& s.data_label matches Some(label) ==> data_lines(s)[0] == label.spec_bytes()
            &&& 0 <= k < count ==> data_lines(s)[head + k] == row_line(s.data, k)
        }),
{
    if s.data.len() > 0 {
        let n = row_count(s.data.len() as int);
        lemma_rows(s.data, n, k);
    }
}

/// A row: the offset and sixteen bytes, or those that are left.
pub proof fn lemma_row(data: Seq<u8>, k: int)
    requires
        0 <= 16 * k < data.len(),
    ensures
        16 * k + 16 <= data.len() ==> row_line(data, k) == hex((16 * k) as nat, 4)
            + ": ".spec_bytes() + row_bytes(data.subrange(16 * k, 16 * k + 16)),
        16 * k + 16 > data.len() ==> row_line(data, k) == hex((16 * k) as nat, 4)
            + ": ".spec_bytes() + row_bytes(data.subrange(16 * k, data.len() as int)),
{
}

/// Each byte of a row is two digits and a space.
pub proof fn lemma_row_bytes(data: Seq<u8>, b: u8)
    ensures
        row_bytes(Seq::empty()) == Seq::<u8>::empty(),
        row_bytes(data.push(b)) == row_bytes(data) + hex(b as nat, 2) + " ".spec_bytes(),
{
    assert(data.push(b).drop_last() =~= data);
}

/// The title tells the software ID in both notations.
pub proof fn lemma_session_title(id: u16)
    ensures
        title_text(id) == " Unknown Miele device — Software ID ".spec_bytes() + decimal(id as nat)
            + " / 0x".spec_bytes() + hex(id as nat, 4) + " ".spec_bytes(),
{
}

// ---------------------------------------------------------------------------
// The display
// ---------------------------------------------------------------------------
/// What is shown follows the worker: a known device, an unknown one, or none.
pub proof fn lemma_display_follows(d: DisplayView, id: u16, r: ResponseView, raw: RawView)
    ensures
        shown(d, ResponseView::DeviceConnected { software_id: id }) is Session,
        shown(d, ResponseView::DeviceDisconnected) is Waiting,
        shown(d, ResponseView::UnknownDeviceConnected { software_id: id }) matches DisplayView::Raw(
            s,
        ) && s.software_id == id && s.data.len() == 0 && s.data_label is None && s.status
            == "Unknown device connected; read-only diagnostic mode".spec_bytes(),
        !(r is DeviceConnected) && !(r is UnknownDeviceConnected) && !(r is DeviceDisconnected)
            ==> shown(DisplayView::Raw(raw), r) == DisplayView::Raw(informed(raw, r)) && shown(
            DisplayView::Session,
            r,
        ) is Session && shown(DisplayView::Waiting, r) is Waiting,
{
}

/// A response reaches the session with a known device if there is one and it is about it.
pub proof fn lemma_session_is_informed(d: DisplayView, r: ResponseView)
    ensures
        for_session(d, r) <==> d is Session && !(r is DeviceConnected) && !(r
            is UnknownDeviceConnected) && !(r is DeviceDisconnected),
{
}

/// `q` ends the tool, and so does `c` with the control key; a raw session takes its own keys
/// first.
pub proof fn lemma_keys(d: DisplayView, key: char, control: bool)
    ensures
        ends('q', control),
        ends('c', true),
        !ends('c', false),
        key != 'q' && key != 'c' ==> !ends(key, control),
        d is Raw && key_request(key) is Some ==> key_action(d, key, control) == KeyAction::Send(
            key_request(key)->0,
        ),
        !(d is Raw && key_request(key) is Some) && ends(key, control) ==> key_action(
            d,
            key,
            control,
        ) is Exit,
        !(d is Raw && key_request(key) is Some) && !ends(key, control) ==> key_action(
            d,
            key,
            control,
        ) is Idle,
        !(d is Raw) ==> shown_after_key(d, key) == d,
        d matches DisplayView::Raw(raw) ==> shown_after_key(d, key) == DisplayView::Raw(
            pressed(raw, key),
        ),
{
}

// ---------------------------------------------------------------------------
// Raw requests
// ---------------------------------------------------------------------------
/// A raw request asks who is there, then unlocks with its key, then reads sixteen bytes at its
/// address.
pub proof fn lemma_raw_operations(w: RawWork, key: u16, address: u32, word: u16)
    ensures
        w.stage is Query ==> w.operation() == LinkRequest::QueryId,
        w.stage is Unlock && w.request == (Request::RawUnlockRead { key }) ==> w.operation() == (
        LinkRequest::Unlock { key }),
        w.stage is Unlock && w.request == (Request::RawReadMemory16 { key, address })
            ==> w.operation() == (LinkRequest::Unlock { key }),
        w.stage is Unlock && w.request == (Request::RawReadEeprom16 { key, address: word })
            ==> w.operation() == (LinkRequest::Unlock { key }),
        w.stage is Read && w.request == (Request::RawReadMemory16 { key, address })
            ==> w.operation() == (LinkRequest::ReadMemory {
            address,
            length: 16,
            timeout_ms: 1000,
        }),
        w.stage is Read && w.request == (Request::RawReadEeprom16 { key, address: word })
            ==> w.operation() == (LinkRequest::ReadEeprom { address: word, length: 16 }),
{
}

/// Only raw requests are worked on, and each begins with the question who is there.
pub proof fn lemma_raw_work_begins(request: Request, kind: PropertyKind)
    ensures
        RawWork::first(request) is Some <==> request is RawQuerySoftwareId || request
            is RawUnlockRead || request is RawReadMemory16 || request is RawReadEeprom16,
        RawWork::first(request) matches Some(w) ==> w.request == request && w.stage is Query,
        RawWork::first(Request::QueryProperties(kind)) is None,
{
}

/// How a raw request goes on: it ends with the step that it asks for.
pub proof fn lemma_raw_work_goes_on(w: RawWork, id: u16, data: Vec<u8>)
    requires
        w.well_formed(),
    ensures
        w.stage is Query && w.request is RawQuerySoftwareId ==> w.after(Reply::Id(id))
            == RawStepView::Answer(
            ResponseView::RawStatus(
                "Software ID: ".spec_bytes() + decimal(id as nat) + " / 0x".spec_bytes() + hex(
                    id as nat,
                    4,
                ),
            ),
        ),
        w.stage is Query && !(w.request is RawQuerySoftwareId) ==> w.after(Reply::Id(id))
            == RawStepView::Do(RawWork { stage: RawStage::Unlock, ..w }),
        w.stage is Unlock ==> (w.request matches Request::RawUnlockRead { key } ==> w.after(
            Reply::Done,
        ) == RawStepView::Answer(
            ResponseView::RawStatus(
                "Read access unlocked with key 0x".spec_bytes() + hex(key as nat, 4),
            ),
        )),
        w.stage is Unlock && !(w.request is RawUnlockRead) ==> w.after(Reply::Done)
            == RawStepView::Do(RawWork { stage: RawStage::Read, ..w }),
        w.stage is Read && w.request is RawReadMemory16 ==> w.after(Reply::Data(data))
            == RawStepView::Answer(
            ResponseView::RawData { label: "Memory @ 0x0000", data: data@ },
        ),
        w.stage is Read && w.request is RawReadEeprom16 ==> w.after(Reply::Data(data))
            == RawStepView::Answer(
            ResponseView::RawData { label: "EEPROM @ word 0x0000", data: data@ },
        ),
{
}

/// A step that fails or times out ends the request with a status that names it.
pub proof fn lemma_raw_work_fails(w: RawWork, e: Vec<u8>)
    requires
        w.well_formed(),
    ensures
        w.after(Reply::Failed(e)) == RawStepView::Answer(
            ResponseView::RawStatus(
                w.request.raw_name().spec_bytes() + (" failed: ".spec_bytes() + e@),
            ),
        ),
        w.after(Reply::TimedOut(e)) == RawStepView::Answer(
            ResponseView::RawStatus(
                w.request.raw_name().spec_bytes() + " timed out".spec_bytes(),
            ),
        ),
        w.request is RawQuerySoftwareId ==> w.request.raw_name() == "Software-ID query",
        w.request is RawUnlockRead ==> w.request.raw_name() == "Read unlock",
        w.request is RawReadMemory16 ==> w.request.raw_name() == "Memory read",
        w.request is RawReadEeprom16 ==> w.request.raw_name() == "EEPROM read",
{
}

/// What an action comes to: nothing to tell where it was done, and the end of the session
/// where it failed.
pub proof fn lemma_action_answers(action: usize)
    ensures
        action_answer(action, ActionOutcome::Done) == Ok::<Option<ResponseView>, ()>(None),
        action_answer(action, ActionOutcome::InvalidArgument) == Ok::<Option<ResponseView>, ()>(
            Some(ResponseView::InvalidActionArgument(action)),
        ),
        action_answer(action, ActionOutcome::InvalidState) == Ok::<Option<ResponseView>, ()>(
            Some(ResponseView::InvalidActionState(action)),
        ),
        action_answer(action, ActionOutcome::Failed) is Err,
{
}

/// A device is unknown where the failure to connect says so, anywhere in its message.
pub proof fn lemma_unknown_devices(before: Seq<u8>, rest: Seq<u8>, message: Vec<u8>)
    ensures
        message@ == before + "unknown software ID".spec_bytes() + rest ==> unknown_device(
            ConnectOutcome::Failed(message),
        ),
        !unknown_device(ConnectOutcome::Connected),
        !unknown_device(ConnectOutcome::TimedOut),
        unknown_device(ConnectOutcome::Failed(message)) ==> exists|i: int|
            0 <= i <= message@.len() && has_prefix(
                #[trigger] message@.skip(i),
                "unknown software ID".spec_bytes(),
            ),
{
    let p = "unknown software ID".spec_bytes();
    let m = message@;
    let n = before.len() as int;
    crate::laws::reading::lemma_first_occurrence(m, p, 0, n);
    if m == before + p + rest {
        assert(m.skip(n).subrange(0, p.len() as int) =~= p);
        assert(has_prefix(m.skip(n), p));
    }
    if let Some(at) = occurrence(m, p, 0) {
        assert(has_prefix(m.skip(at), p));
    }
}

// ---------------------------------------------------------------------------
// The bridge
// ---------------------------------------------------------------------------
/// An endpoint names a network address behind its mark, and a serial port otherwise.
pub proof fn lemma_endpoints(rest: Seq<u8>, s: Seq<u8>)
    ensures
        network_address("tcp://".spec_bytes() + rest) == Some(rest),
        network_address(s) matches Some(address) ==> s == "tcp://".spec_bytes() + address,
{
    let p = "tcp://".spec_bytes();
    assert((p + rest).subrange(0, p.len() as int) =~= p);
    assert((p + rest).skip(p.len() as int) =~= rest);
    if let Some(address) = network_address(s) {
        assert(s =~= s.subrange(0, p.len() as int) + address);
    }
}

/// The token of the command line counts, unless it is empty.
pub proof fn lemma_tokens_are_chosen(cli: Seq<u8>, env: Option<Seq<u8>>)
    ensures
        cli.len() > 0 ==> chosen_token(Some(cli), env) == Some(cli),
        cli.len() == 0 ==> chosen_token(Some(cli), env) == env,
        chosen_token(None, env) == env,
{
}

/// The authentication is the line that the bridge asks for.
pub proof fn lemma_authentication_line(token: Seq<u8>)
    ensures
        auth_text(token) == "FMDUBRIDGE1 ".spec_bytes() + token + "\n".spec_bytes(),
{
}

/// A tool that authenticates with the token of the bridge is let in, where no scan runs.
pub proof fn lemma_bridge_lets_the_tool_in(token: Seq<u8>)
    requires
        crate::laws::reading::is_word(token),
        valid_utf8("FMDUBRIDGE1 ".spec_bytes() + token),
    ensures
        crate::bridge::bridge_header(auth_text(token), token, false) is Ok,
{
    reveal_strlit("FMDUBRIDGE1 ");
    is_ascii_spec_bytes("FMDUBRIDGE1 ");
    reveal_strlit("FMDUBRIDGE1");
    is_ascii_spec_bytes("FMDUBRIDGE1");
    reveal_strlit("\n");
    is_ascii_spec_bytes("\n");
    let word = "FMDUBRIDGE1".spec_bytes();
    let line = "FMDUBRIDGE1 ".spec_bytes() + token;
    assert("\n".spec_bytes() =~= seq![10u8]);
    assert(auth_text(token).drop_last() =~= line);
    assert(line =~= word + seq![32u8] + token);
    assert forall|i: int| 0 <= i < word.len() implies !crate::text::is_blank(#[trigger] word[i]) by {
        assert(word[i] == 70 || word[i] == 77 || word[i] == 68 || word[i] == 85 || word[i] == 66
            || word[i] == 82 || word[i] == 73 || word[i] == 71 || word[i] == 69 || word[i] == 49);
    }
    crate::laws::reading::lemma_word_is_a_field(word);
    crate::laws::reading::lemma_word_is_a_field(token);
    crate::laws::reading::lemma_blank_parts_fields(word, 32, token);
    let f = crate::text::fields(line);
    assert(f =~= seq![word, token]);
    assert(f[0] == word && f[1] == token);
}

/// An answer is accepted if and only if it is a line that says `OK`.
pub proof fn lemma_accepted_answers(a: Seq<u8>)
    ensures
        answer_accepted(a) <==> a.len() > 0 && a.last() == 10 && valid_utf8(a) && has_prefix(
            trimmed_end(a),
            "OK ".spec_bytes(),
        ),
{
}

// ---------------------------------------------------------------------------
// The registry
// ---------------------------------------------------------------------------
proof fn lemma_columns(a: Seq<u8>, b: Seq<u8>, c: Seq<u8>)
    requires
        forall|i: int| 0 <= i < a.len() ==> #[trigger] a[i] != 44,
        forall|i: int| 0 <= i < b.len() ==> #[trigger] b[i] != 44,
        forall|i: int| 0 <= i < c.len() ==> #[trigger] c[i] != 44,
    ensures
        ({
            let line = a + seq![44u8] + b + seq![44u8] + c;
            let tail = b + seq![44u8] + c;
            &&& first_index(line, 44) == a.len()
            &&& line.subrange(0, a.len() as int) == a
            &&& line.skip(a.len() as int + 1) == tail
            &&& first_index(tail, 44) == b.len()
            &&& tail.subrange(0, b.len() as int) == b
            &&& tail.skip(b.len() as int + 1) == c
            &&& first_index(c, 44) == c.len()
        }),
{
    let line = a + seq![44u8] + b + seq![44u8] + c;
    let tail = b + seq![44u8] + c;
    lemma_first_place(line, 44, a.len() as int);
    assert(line[a.len() as int] == 44);
    let p = first_index(line, 44);
    if p < a.len() {
        assert(line[p] == a[p]);
    }
    lemma_first_place(tail, 44, b.len() as int);
    assert(tail[b.len() as int] == 44);
    let q = first_index(tail, 44);
    if q < b.len() {
        assert(tail[q] == b[q]);
    }
    lemma_first_place(c, 44, 0);
    let r = first_index(c, 44);
    if r < c.len() {
        assert(c[r] != 44);
    }
    assert(line.subrange(0, a.len() as int) =~= a);
    assert(line.skip(a.len() as int + 1) =~= tail);
    assert(tail.subrange(0, b.len() as int) =~= b);
    assert(tail.skip(b.len() as int + 1) =~= c);
}

/// A row is a key in hexadecimal, the software IDs and the source, between two commas.
pub proof fn lemma_registry_rows(key: u16, width: nat, ids: Seq<u8>, source: Seq<u8>)
    requires
        forall|i: int| 0 <= i < ids.len() ==> #[trigger] ids[i] != 44,
        forall|i: int| 0 <= i < source.len() ==> #[trigger] source[i] != 44,
    ensures
        row_of("0x".spec_bytes() + hex(key as nat, width) + seq![44u8] + ids + seq![44u8] + source)
            == Ok::<RowView, RegistryError>(RowView { key, software_ids: ids, source }),
{
    reveal_strlit("0x");
    is_ascii_spec_bytes("0x");
    let x = "0x".spec_bytes();
    let digits = hex(key as nat, width);
    let a = x + digits;
    crate::laws::reading::lemma_numeral_has_the_value(key as nat, 16, width);
    crate::laws::reading::lemma_numeral_is_read(key as nat, 16, width, 0xffff);
    assert(x.len() == 2 && x[0] == 48 && x[1] == 120);
    assert forall|i: int| 0 <= i < a.len() implies #[trigger] a[i] != 44 by {
        if i >= 2 {
            assert(a[i] == digits[i - 2]);
            assert(crate::text::is_digit(digits[i - 2], 16));
        }
    }
    lemma_columns(a, ids, source);
    assert(a.subrange(0, 2) =~= x);
    assert(a.skip(2) =~= digits);
}

/// Rows stand in lines, behind the line of the titles; an empty registry holds none.
pub proof fn lemma_registry_lines(title: Seq<u8>, line: Seq<u8>, rest: Seq<u8>, done: Seq<RowView>)
    requires
        forall|i: int| 0 <= i < title.len() ==> #[trigger] title[i] != 10,
        forall|i: int| 0 <= i < line.len() ==> #[trigger] line[i] != 10,
        line.len() > 0,
        line.last() != 13,
    ensures
        registry(title + seq![10u8] + rest) == rows_of(Seq::empty(), rest),
        registry(title) == Ok::<Seq<RowView>, RegistryError>(Seq::empty()),
        first_line(line + seq![10u8] + rest) == line,
        first_line(line + seq![13u8, 10u8] + rest) == line,
        behind_line(line + seq![10u8] + rest) == rest,
        behind_line(line + seq![13u8, 10u8] + rest) == rest,
        row_of(line) matches Ok(row) ==> (has_key(done, row.key) ==> rows_of(
            done,
            line + seq![10u8] + rest,
        ) == Err::<Seq<RowView>, RegistryError>(RegistryError::Duplicate)) && (!has_key(
            done,
            row.key,
        ) ==> rows_of(done, line + seq![10u8] + rest) == rows_of(done.push(row), rest)),
        row_of(line) matches Err(e) ==> rows_of(done, line + seq![10u8] + rest) == Err::<
            Seq<RowView>,
            RegistryError,
        >(e),
{
    let t = title + seq![10u8] + rest;
    lemma_feed(title, seq![10u8] + rest);
    assert(title + (seq![10u8] + rest) =~= t);
    assert(t.skip(title.len() as int + 1) =~= rest);
    lemma_first_place(title, 10, 0);
    let p = first_index(title, 10);
    if p < title.len() {
        assert(title[p] != 10);
    }
    let l = line + seq![10u8] + rest;
    lemma_feed(line, seq![10u8] + rest);
    assert(line + (seq![10u8] + rest) =~= l);
    assert(l.skip(line.len() as int + 1) =~= rest);
    assert(l.subrange(0, line.len() as int) =~= line);
    let c = line.push(13);
    let k = line + seq![13u8, 10u8] + rest;
    assert forall|i: int| 0 <= i < c.len() implies #[trigger] c[i] != 10 by {
        if i < line.len() {
            assert(c[i] == line[i]);
        }
    }
    lemma_feed(c, seq![10u8] + rest);
    assert(c + (seq![10u8] + rest) =~= k);
    assert(k.skip(c.len() as int + 1) =~= rest);
    assert(k.subrange(0, c.len() as int) =~= c);
    assert(c.drop_last() =~= line);
}

proof fn lemma_feed(line: Seq<u8>, rest: Seq<u8>)
    requires
        forall|i: int| 0 <= i < line.len() ==> #[trigger] line[i] != 10,
        rest.len() > 0,
        rest[0] == 10,
    ensures
        first_index(line + rest, 10) == line.len(),
{
    let s = line + rest;
    lemma_first_place(s, 10, line.len() as int);
    assert(s[line.len() as int] == 10);
    let p = first_index(s, 10);
    if p < line.len() {
        assert(s[p] == line[p]);
    }
}

/// Lines without three columns are refused, and so are keys without their mark and keys that
/// are no numbers.
pub proof fn lemma_refused_rows(a: Seq<u8>, b: Seq<u8>, c: Seq<u8>, d: Seq<u8>)
    requires
        forall|i: int| 0 <= i < a.len() ==> #[trigger] a[i] != 44,
        forall|i: int| 0 <= i < b.len() ==> #[trigger] b[i] != 44,
        forall|i: int| 0 <= i < c.len() ==> #[trigger] c[i] != 44,
    ensures
        row_of(a) == Err::<RowView, RegistryError>(RegistryError::Columns),
        row_of(a + seq![44u8] + b) == Err::<RowView, RegistryError>(RegistryError::Columns),
        row_of(a + seq![44u8] + b + seq![44u8] + (c + seq![44u8] + d)) == Err::<
            RowView,
            RegistryError,
        >(RegistryError::Columns),
        !has_prefix(a, "0x".spec_bytes()) ==> row_of(a + seq![44u8] + b + seq![44u8] + c) == Err::<
            RowView,
            RegistryError,
        >(RegistryError::Prefix),
        has_prefix(a, "0x".spec_bytes()) && number(a.skip(2), 16, 0xffff) is None ==> row_of(
            a + seq![44u8] + b + seq![44u8] + c,
        ) == Err::<RowView, RegistryError>(RegistryError::Key),
{
    lemma_columns(a, b, c);
    lemma_first_place(a, 44, 0);
    let p = first_index(a, 44);
    if p < a.len() {
        assert(a[p] != 44);
    }
    lemma_first_place(b, 44, 0);
    let q = first_index(b, 44);
    if q < b.len() {
        assert(b[q] != 44);
    }
    let two = a + seq![44u8] + b;
    lemma_comma(a, b);
    assert(two.skip(a.len() as int + 1) =~= b);
    let last = c + seq![44u8] + d;
    let tail = b + seq![44u8] + last;
    let four = a + seq![44u8] + b + seq![44u8] + last;
    assert(four =~= a + seq![44u8] + tail);
    lemma_comma(a, tail);
    assert(four.skip(a.len() as int + 1) =~= tail);
    lemma_comma(b, last);
    assert(tail.skip(b.len() as int + 1) =~= last);
    lemma_comma(c, d);
}

proof fn lemma_comma(a: Seq<u8>, rest: Seq<u8>)
    requires
        forall|i: int| 0 <= i < a.len() ==> #[trigger] a[i] != 44,
    ensures
        first_index(a + seq![44u8] + rest, 44) == a.len(),
{
    let s = a + seq![44u8] + rest;
    lemma_first_place(s, 44, a.len() as int);
    assert(s[a.len() as int] == 44);
    let p = first_index(s, 44);
    if p < a.len() {
        assert(s[p] == a[p]);
    }
}

/// An answer to the authentication is read up to its line feed, or until it has 256 bytes.
pub proof fn lemma_answers_end(a: AuthAnswer)
    ensures
        a.goes_on() <==> a@.len() < 256 && (a@.len() == 0 || a@.last() != 10),
{
}

/// A carriage return at the end of a line is no part of it.
pub proof fn lemma_returns_are_dropped(line: Seq<u8>)
    ensures
        without_return(line.push(13)) == line,
        line.len() == 0 || line.last() != 13 ==> without_return(line) == line,
{
    assert(line.push(13).drop_last() =~= line);
}

} // verus!
