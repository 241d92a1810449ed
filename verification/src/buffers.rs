//! Fixed buffers: log lines, diagnostic responses and bridge chunks.

use vstd::prelude::*;
use vstd::string::*;

verus! {

/// The capacity of a log line.
pub const LINE_CAPACITY: usize = 256;

/// The capacity of a diagnostic response.
pub const DIAG_RESPONSE_CAPACITY: usize = 512;

/// The capacity of a bridge chunk.
pub const BRIDGE_CHUNK_SIZE: usize = 32;

/// `s` with as much of `t` behind it as the capacity admits.
pub open spec fn appended(s: Seq<u8>, t: Seq<u8>, capacity: int) -> Seq<u8> {
    if s.len() + t.len() <= capacity {
        s + t
    } else if s.len() >= capacity {
        s
    } else {
        s + t.subrange(0, capacity - s.len())
    }
}

/// Text may be written in pieces: what a buffer holds in the end is what it
/// would hold had the whole text been written at once.
pub proof fn lemma_written_in_pieces(s: Seq<u8>, t: Seq<u8>, u: Seq<u8>, capacity: int)
    requires
        s.len() <= capacity,
    ensures
        appended(appended(s, t, capacity), u, capacity) == appended(s, t + u, capacity),
        appended(s, t, capacity).len() <= capacity,
{
    assert(appended(appended(s, t, capacity), u, capacity) =~= appended(s, t + u, capacity));
}

/// One line of the network log.
#[derive(Clone, Copy)]
pub struct LogLine {
    bytes: [u8; 256],
    len: usize,
}

impl View for LogLine {
    type V = Seq<u8>;

    closed spec fn view(&self) -> Seq<u8> {
        self.bytes@.subrange(0, self.len as int)
    }
}

impl LogLine {
    #[verifier::type_invariant]
    spec fn within(self) -> bool {
        self.len <= LINE_CAPACITY
    }

    /// An empty line.
    pub fn new() -> (r: LogLine)
        ensures
            r@ == Seq::<u8>::empty(),
    {
        let r = LogLine { bytes: [0; 256], len: 0 };
        assert(r@ =~= Seq::<u8>::empty());
        r
    }

    /// The bytes of the line.
    pub fn as_bytes(&self) -> (r: &[u8])
        ensures
            r@ == self@,
            r@.len() <= LINE_CAPACITY,
    {
        proof {
            use_type_invariant(self);
        }
        vstd::slice::slice_subrange(&self.bytes, 0, self.len)
    }

    /// Appends as much of the text as there is room for.
    pub fn write_str(&mut self, value: &str)
        ensures
            final(self)@ == appended(old(self)@, value.spec_bytes(), LINE_CAPACITY as int),
    {
        proof {
            use_type_invariant(&*self);
        }
        let data = value.as_bytes();
        let mut bytes = self.bytes;
        let len = append_to(&mut bytes, self.len, data);
        *self = LogLine { bytes, len };
    }
}

/// Copies as much of `data` behind the first `len` bytes as there is room for.
fn append_to(bytes: &mut [u8], len: usize, data: &[u8]) -> (r: usize)
    requires
        len <= old(bytes)@.len(),
    ensures
        final(bytes)@.len() == old(bytes)@.len(),
        r <= final(bytes)@.len(),
        final(bytes)@.subrange(0, r as int) == appended(
            old(bytes)@.subrange(0, len as int),
            data@,
            old(bytes)@.len() as int,
        ),
{
    let total = bytes.len();
    let room = total - len;
    let count = if room < data.len() {
        room
    } else {
        data.len()
    };
    for i in 0..count
        invariant
            total == old(bytes)@.len(),
            len + count <= total,
            count <= data@.len(),
            bytes@.len() == old(bytes)@.len(),
            forall|j: int| 0 <= j < len ==> bytes@[j] == old(bytes)@[j],
            forall|j: int| 0 <= j < i ==> bytes@[len + j] == data@[j],
    {
        bytes[len + i] = data[i];
    }
    assert(bytes@.subrange(0, len + count) =~= appended(
        old(bytes)@.subrange(0, len as int),
        data@,
        old(bytes)@.len() as int,
    ));
    len + count
}

/// The response to a diagnostic command.
#[derive(Clone, Copy)]
pub struct DiagnosticResponse {
    bytes: [u8; 512],
    len: usize,
}

impl View for DiagnosticResponse {
    type V = Seq<u8>;

    closed spec fn view(&self) -> Seq<u8> {
        self.bytes@.subrange(0, self.len as int)
    }
}

impl DiagnosticResponse {
    #[verifier::type_invariant]
    spec fn within(self) -> bool {
        self.len <= DIAG_RESPONSE_CAPACITY
    }

    /// An empty response.
    pub fn new() -> (r: DiagnosticResponse)
        ensures
            r@ == Seq::<u8>::empty(),
    {
        let r = DiagnosticResponse { bytes: [0; 512], len: 0 };
        assert(r@ =~= Seq::<u8>::empty());
        r
    }

    /// The bytes of the response.
    pub fn as_bytes(&self) -> (r: &[u8])
        ensures
            r@ == self@,
            r@.len() <= DIAG_RESPONSE_CAPACITY,
    {
        proof {
            use_type_invariant(self);
        }
        vstd::slice::slice_subrange(&self.bytes, 0, self.len)
    }

    /// Appends as much of the bytes as there is room for.
    pub fn write_bytes(&mut self, data: &[u8])
        ensures
            final(self)@ == appended(old(self)@, data@, DIAG_RESPONSE_CAPACITY as int),
    {
        proof {
            use_type_invariant(&*self);
        }
        let mut bytes = self.bytes;
        let len = append_to(&mut bytes, self.len, data);
        *self = DiagnosticResponse { bytes, len };
    }

    /// Appends as much of the text as there is room for.
    pub fn write_str(&mut self, value: &str)
        ensures
            final(self)@ == appended(
                old(self)@,
                value.spec_bytes(),
                DIAG_RESPONSE_CAPACITY as int,
            ),
    {
        self.write_bytes(value.as_bytes())
    }
}

/// The response that holds `text`, cut at its capacity.
pub open spec fn response(text: Seq<u8>) -> Seq<u8> {
    appended(Seq::empty(), text, DIAG_RESPONSE_CAPACITY as int)
}

/// Makes the response that holds `text`.
pub fn respond(text: &[u8]) -> (r: DiagnosticResponse)
    ensures
        r@ == response(text@),
{
    let mut r = DiagnosticResponse::new();
    r.write_bytes(text);
    r
}

/// A piece of the optical byte stream.
#[derive(Clone, Copy)]
pub struct BridgeChunk {
    bytes: [u8; 32],
    len: usize,
}

impl View for BridgeChunk {
    type V = Seq<u8>;

    closed spec fn view(&self) -> Seq<u8> {
        self.bytes@.subrange(0, self.len as int)
    }
}

impl BridgeChunk {
    #[verifier::type_invariant]
    spec fn within(self) -> bool {
        self.len <= BRIDGE_CHUNK_SIZE
    }

    /// An empty chunk.
    pub fn new() -> (r: BridgeChunk)
        ensures
            r@ == Seq::<u8>::empty(),
    {
        let r = BridgeChunk { bytes: [0; 32], len: 0 };
        assert(r@ =~= Seq::<u8>::empty());
        r
    }

    /// The chunk that holds `data`, if it fits.
    pub fn from_slice(data: &[u8]) -> (r: Option<BridgeChunk>)
        ensures
            r is Some <==> data@.len() <= BRIDGE_CHUNK_SIZE,
            r matches Some(chunk) ==> chunk@ == data@,
    {
        if data.len() > BRIDGE_CHUNK_SIZE {
            return None;
        }
        let mut bytes: [u8; 32] = [0; 32];
        let len = append_to(&mut bytes, 0, data);
        let chunk = BridgeChunk { bytes, len };
        assert(chunk@ =~= data@);
        Some(chunk)
    }

    /// The bytes of the chunk.
    pub fn as_bytes(&self) -> (r: &[u8])
        ensures
            r@ == self@,
            r@.len() <= BRIDGE_CHUNK_SIZE,
    {
        proof {
            use_type_invariant(self);
        }
        vstd::slice::slice_subrange(&self.bytes, 0, self.len)
    }
}

} // verus!
