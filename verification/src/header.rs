//! The first line of a network request, and the shared token.

use crate::text::{copy_of, is_text, is_utf8};
use vstd::prelude::*;
use vstd::string::*;
use vstd::utf8::*;

verus! {

/// The longest update header, with its line feed.
pub const OTA_HEADER_CAPACITY: usize = 256;

/// The longest diagnostic or bridge request, with its line feed.
pub const REQUEST_CAPACITY: usize = 192;

/// A service may run: its token is set and is not the default.
pub open spec fn token_usable(token: Seq<u8>) -> bool {
    token != "change-me".spec_bytes() && token.len() > 0
}

/// Tells whether a service may run with this token.
pub fn service_enabled(token: &[u8]) -> (r: bool)
    ensures
        r == token_usable(token@),
{
    !(is_text(token, "change-me") || token.len() == 0)
}

/// Why a header is no request.
#[derive(Clone, Copy, Debug, PartialEq, Eq, Structural)]
pub enum HeaderError {
    /// The line is not complete or too long.
    Malformed,
    /// The line is not UTF-8.
    Encoding,
}

/// The bytes of a header from a stream: up to and with the first line feed, or
/// all of them, or as many as there is room for.
pub open spec fn header_of(stream: Seq<u8>, capacity: int) -> Seq<u8>
    decreases capacity,
{
    if stream.len() == 0 || capacity <= 0 {
        Seq::empty()
    } else if stream[0] == 10 {
        seq![10u8]
    } else {
        seq![stream[0]] + header_of(stream.drop_first(), capacity - 1)
    }
}

/// A header being read.
pub struct HeaderReader {
    bytes: Vec<u8>,
    capacity: usize,
}

impl HeaderReader {
    /// The bytes read so far.
    pub closed spec fn read(self) -> Seq<u8> {
        self.bytes@
    }

    /// The number of bytes that there is room for.
    pub closed spec fn room(self) -> int {
        self.capacity as int
    }

    /// There is room for another byte, and none that was read ends the line.
    pub open spec fn wants_more(self) -> bool {
        self.read().len() < self.room() && (self.read().len() == 0 || self.read().last() != 10)
    }

    /// Begins to read a header of so many bytes at most.
    pub fn new(capacity: usize) -> (r: HeaderReader)
        ensures
            r.read() == Seq::<u8>::empty(),
            r.room() == capacity,
    {
        HeaderReader { bytes: Vec::new(), capacity }
    }

    /// Tells whether another byte is to be read.
    pub fn is_open(&self) -> (r: bool)
        ensures
            r == self.wants_more(),
    {
        let len = self.bytes.len();
        len < self.capacity && (len == 0 || self.bytes[len - 1] != 10)
    }

    /// Takes a byte.
    pub fn push(&mut self, b: u8)
        requires
            old(self).wants_more(),
        ensures
            final(self).read() == old(self).read().push(b),
            final(self).room() == old(self).room(),
    {
        self.bytes.push(b);
    }

    /// The line without its line feed, or why there is none.
    pub fn finish(&self) -> (r: Result<Vec<u8>, HeaderError>)
        ensures
            r matches Ok(line) ==> header_line(self.read()) == Ok::<Seq<u8>, HeaderError>(line@),
            r matches Err(e) ==> header_line(self.read()) == Err::<Seq<u8>, HeaderError>(e),
    {
        let len = self.bytes.len();
        if len == 0 || self.bytes[len - 1] != 10 {
            return Err(HeaderError::Malformed);
        }
        let line = vstd::slice::slice_subrange(self.bytes.as_slice(), 0, len - 1);
        if !is_utf8(line) {
            return Err(HeaderError::Encoding);
        }
        Ok(copy_of(line))
    }
}

/// The line that a header holds, or why it holds none.
pub open spec fn header_line(header: Seq<u8>) -> Result<Seq<u8>, HeaderError> {
    if header.len() == 0 || header.last() != 10 {
        Err(HeaderError::Malformed)
    } else if !valid_utf8(header.drop_last()) {
        Err(HeaderError::Encoding)
    } else {
        Ok(header.drop_last())
    }
}

/// Reads the header of a stream that is at hand as a whole.
pub fn read_header(stream: &[u8], capacity: usize) -> (r: Result<Vec<u8>, HeaderError>)
    ensures
        r matches Ok(line) ==> header_line(header_of(stream@, capacity as int)) == Ok::<
            Seq<u8>,
            HeaderError,
        >(line@),
        r matches Err(e) ==> header_line(header_of(stream@, capacity as int)) == Err::<
            Seq<u8>,
            HeaderError,
        >(e),
{
    let mut reader = HeaderReader::new(capacity);
    let mut i: usize = 0;
    while i < stream.len() && reader.is_open()
        invariant
            i <= stream@.len(),
            reader.read() == stream@.subrange(0, i as int),
            reader.room() == capacity,
            i <= capacity,
            forall|j: int| 0 <= j < i - 1 ==> stream@[j] != 10,
        decreases stream@.len() - i,
    {
        proof {
            if i > 0 {
                assert(reader.read().last() == stream@[i - 1]);
            }
        }
        reader.push(stream[i]);
        assert(stream@.subrange(0, i + 1) =~= stream@.subrange(0, i as int).push(stream@[i as int]));
        i = i + 1;
    }
    proof {
        if i > 0 {
            assert(reader.read().last() == stream@[i - 1]);
        }
        lemma_header(stream@, capacity as int, i as int);
    }
    reader.finish()
}

proof fn lemma_header(s: Seq<u8>, capacity: int, n: int)
    requires
        0 <= n <= s.len(),
        n <= capacity,
        forall|j: int| 0 <= j < n - 1 ==> s[j] != 10,
        n == s.len() || n == capacity || (n > 0 && s[n - 1] == 10),
    ensures
        header_of(s, capacity) == s.subrange(0, n),
    decreases n,
{
    if n > 0 {
        if s[0] == 10 {
            assert(n == 1);
            assert(s.subrange(0, 1) =~= seq![10u8]);
        } else {
            let t = s.drop_first();
            assert forall|j: int| 0 <= j < n - 2 implies t[j] != 10 by {
                assert(t[j] == s[j + 1]);
            }
            if n > 1 {
                assert(t[n - 2] == s[n - 1]);
            }
            lemma_header(t, capacity - 1, n - 1);
            assert(seq![s[0]] + t.subrange(0, n - 1) =~= s.subrange(0, n));
        }
    } else {
        assert(s.subrange(0, 0) =~= Seq::<u8>::empty());
    }
}

} // verus!
