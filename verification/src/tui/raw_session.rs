//! The read-only session with a device that no profile knows.

use super::worker::{Request, Response, ResponseView};
use crate::text::{contents, decimal, hex, no_lines, push_decimal, push_hex, push_line, push_text};
use crate::text::text_bytes;
use vstd::prelude::*;
use vstd::string::*;
use vstd::utf8::*;

verus! {

/// The bytes in a row of the display.
pub const ROW: usize = 16;

/// A session with an unknown device: its status line and the bytes read last.
#[derive(Debug)]
pub struct RawSession {
    pub software_id: u16,
    pub status: Vec<u8>,
    pub data_label: Option<&'static str>,
    pub data: Vec<u8>,
}

/// A raw session, in the abstract.
#[verifier::ext_equal]
pub ghost struct RawView {
    pub software_id: u16,
    pub status: Seq<u8>,
    pub data_label: Option<&'static str>,
    pub data: Seq<u8>,
}

impl View for RawSession {
    type V = RawView;

    open spec fn view(&self) -> RawView {
        RawView {
            software_id: self.software_id,
            status: self.status@,
            data_label: self.data_label,
            data: self.data@,
        }
    }
}

/// The request that a key asks for.
pub open spec fn key_request(key: char) -> Option<Request> {
    if key == 'i' {
        Some(Request::RawQuerySoftwareId)
    } else if key == 'u' {
        Some(Request::RawUnlockRead { key: 0 })
    } else if key == 'm' {
        Some(Request::RawReadMemory16 { key: 0, address: 0 })
    } else if key == 'e' {
        Some(Request::RawReadEeprom16 { key: 0, address: 0 })
    } else {
        None
    }
}

/// The session as it begins.
pub open spec fn begun_session(software_id: u16) -> RawView {
    RawView {
        software_id,
        status: "Unknown device connected; read-only diagnostic mode".spec_bytes(),
        data_label: None,
        data: Seq::empty(),
    }
}

/// The session after a key press.
pub open spec fn pressed(s: RawView, key: char) -> RawView {
    if key_request(key) is Some {
        RawView { status: "Running diagnostic request...".spec_bytes(), ..s }
    } else {
        s
    }
}

/// The session after a response of the worker.
pub open spec fn informed(s: RawView, r: ResponseView) -> RawView {
    match r {
        ResponseView::RawStatus(status) => RawView { status, ..s },
        ResponseView::RawData { label, data } => RawView {
            status: label.spec_bytes() + ": ".spec_bytes() + decimal(data.len())
                + " bytes received".spec_bytes(),
            data_label: Some(label),
            data,
            ..s
        },
        _ => s,
    }
}

/// The bytes of a row, each followed by a space.
pub open spec fn row_bytes(data: Seq<u8>) -> Seq<u8>
    decreases data.len(),
{
    if data.len() == 0 {
        Seq::empty()
    } else {
        row_bytes(data.drop_last()) + hex(data.last() as nat, 2) + " ".spec_bytes()
    }
}

/// Row `k` of the display.
pub open spec fn row_line(data: Seq<u8>, k: int) -> Seq<u8> {
    let end = if 16 * k + 16 < data.len() {
        16 * k + 16
    } else {
        data.len() as int
    };
    hex((16 * k) as nat, 4) + ": ".spec_bytes() + row_bytes(data.subrange(16 * k, end))
}

/// The first `n` rows of the display.
pub open spec fn rows(data: Seq<u8>, n: int) -> Seq<Seq<u8>>
    decreases n,
{
    if n <= 0 {
        Seq::empty()
    } else {
        rows(data, n - 1).push(row_line(data, n - 1))
    }
}

/// The number of rows that so many bytes take.
pub open spec fn row_count(len: int) -> int {
    (len + 15) / 16
}

/// The lines of the display: the label and the rows.
pub open spec fn data_lines(s: RawView) -> Seq<Seq<u8>> {
    if s.data.len() == 0 {
        seq!["No raw data captured yet.".spec_bytes()]
    } else {
        (match s.data_label {
            Some(label) => seq![label.spec_bytes()],
            None => Seq::empty(),
        }) + rows(s.data, row_count(s.data.len() as int))
    }
}

/// The title of the session.
pub open spec fn title_text(software_id: u16) -> Seq<u8> {
    " Unknown Miele device — Software ID ".spec_bytes() + decimal(software_id as nat)
        + " / 0x".spec_bytes() + hex(software_id as nat, 4) + " ".spec_bytes()
}

fn push_row(out: &mut Vec<u8>, data: &[u8])
    ensures
        final(out)@ == old(out)@ + row_bytes(data@),
{
    let ghost before = out@;
    for i in 0..data.len()
        invariant
            out@ == before + row_bytes(data@.subrange(0, i as int)),
    {
        proof {
            let next = data@.subrange(0, i + 1);
            assert(next.drop_last() =~= data@.subrange(0, i as int));
        }
        push_hex(out, data[i] as u64, 2);
        push_text(out, " ");
        assert(out@ =~= before + row_bytes(data@.subrange(0, i + 1)));
    }
    assert(data@.subrange(0, data@.len() as int) =~= data@);
    assert(out@ =~= before + row_bytes(data@));
}

impl RawSession {
    /// Begins a session with an unknown device.
    pub fn create(software_id: u16) -> (r: RawSession)
        ensures
            r@ == begun_session(software_id),
    {
        let r = RawSession {
            software_id,
            status: text_bytes("Unknown device connected; read-only diagnostic mode"),
            data_label: None,
            data: Vec::new(),
        };
        assert(r@.data =~= Seq::<u8>::empty());
        r
    }

    /// Takes a key press: the request that it asks for, if it is for the session.
    pub fn handle_event(&mut self, key: char) -> (r: Option<Request>)
        ensures
            r == key_request(key),
            final(self)@ == pressed(old(self)@, key),
    {
        let request = if key == 'i' {
            Request::RawQuerySoftwareId
        } else if key == 'u' {
            Request::RawUnlockRead { key: 0 }
        } else if key == 'm' {
            Request::RawReadMemory16 { key: 0, address: 0 }
        } else if key == 'e' {
            Request::RawReadEeprom16 { key: 0, address: 0 }
        } else {
            return None;
        };
        self.status = text_bytes("Running diagnostic request...");
        Some(request)
    }

    /// Takes a response of the worker.
    pub fn handle_worker_response(&mut self, response: Response)
        ensures
            final(self)@ == informed(old(self)@, response@),
    {
        match response {
            Response::RawStatus(status) => {
                self.status = status;
            },
            Response::RawData { label, data } => {
                let mut status = text_bytes(label);
                push_text(&mut status, ": ");
                push_decimal(&mut status, data.len() as u64);
                push_text(&mut status, " bytes received");
                self.status = status;
                self.data_label = Some(label);
                self.data = data;
            },
            _ => {},
        }
    }

    /// Writes the lines of the display.
    pub fn render_data(&self) -> (r: Vec<Vec<u8>>)
        ensures
            contents(r@) == data_lines(self@),
    {
        let mut lines = no_lines();
        if self.data.len() == 0 {
            push_line(&mut lines, text_bytes("No raw data captured yet."));
            assert(contents(lines@) =~= data_lines(self@));
            return lines;
        }
        if let Some(label) = self.data_label {
            push_line(&mut lines, text_bytes(label));
        }
        let ghost head = contents(lines@);
        let n = self.data.len();
        let mut at: usize = 0;
        let ghost mut k: int = 0;
        assert(contents(lines@) =~= head + rows(self.data@, 0));
        while at < n
            invariant
                n == self.data@.len(),
                n > 0,
                k >= 0,
                at == 16 * k || at == n,
                at < n ==> at == 16 * k,
                at == n ==> k == row_count(n as int),
                at <= n,
                contents(lines@) == head + rows(self.data@, k),
            decreases n - at,
        {
            let end = if n - at > ROW {
                at + ROW
            } else {
                n
            };
            let mut line: Vec<u8> = Vec::new();
            push_hex(&mut line, at as u64, 4);
            push_text(&mut line, ": ");
            push_row(&mut line, vstd::slice::slice_subrange(self.data.as_slice(), at, end));
            assert(line@ =~= row_line(self.data@, k));
            push_line(&mut lines, line);
            proof {
                k = k + 1;
                assert(contents(lines@) =~= head + rows(self.data@, k));
            }
            at = end;
        }
        assert(contents(lines@) =~= data_lines(self@));
        lines
    }

    /// Writes the title of the session.
    pub fn title(&self) -> (r: Vec<u8>)
        ensures
            r@ == title_text(self.software_id),
    {
        let mut out = text_bytes(" Unknown Miele device — Software ID ");
        push_decimal(&mut out, self.software_id as u64);
        push_text(&mut out, " / 0x");
        push_hex(&mut out, self.software_id as u64, 4);
        push_text(&mut out, " ");
        assert(out@ =~= title_text(self.software_id));
        out
    }
}

/// A raw session asks for nothing but the software ID, read access with the key 0,
/// and reads at address 0.
pub proof fn lemma_raw_session_only_reads(key: char)
    ensures
        key_request(key) matches Some(request) ==> request.is_raw() && request.raw_key() == 0
            && (request matches Request::RawReadMemory16 { address, .. } ==> address == 0) && (
        request matches Request::RawReadEeprom16 { address, .. } ==> address == 0),
{
}

} // verus!
