//! How the tool reaches an adapter: a serial port, or a bridge on the network.

use crate::text::{copy_of, has_prefix, has_white, holds_white, is_utf8, push_bytes, push_text};
use crate::text::{starts_with, text_bytes, trim_end, trimmed_end, without_prefix};
use vstd::prelude::*;
use vstd::string::*;
use vstd::utf8::*;

verus! {

/// The longest answer to the authentication.
pub const AUTH_LINE_MAX: usize = 256;

/// Where the adapter is.
#[derive(Debug)]
pub enum Endpoint {
    /// A serial port.
    Serial,
    /// A bridge at this network address.
    Bridge(Vec<u8>),
}

/// Why an adapter cannot be reached.
#[derive(Debug)]
pub enum TransportError {
    /// The endpoint names no network address.
    EmptyAddress,
    /// No token is at hand.
    MissingToken,
    /// The token holds white space.
    TokenWhitespace,
    /// The bridge closed the connection during the authentication.
    Closed,
    /// The answer to the authentication is too long.
    TooLong,
    /// The answer to the authentication is not UTF-8.
    Encoding,
    /// The bridge rejected the connection with this answer.
    Rejected(Vec<u8>),
}

/// The network address that an endpoint names: what stands behind `tcp://`.
pub open spec fn network_address(s: Seq<u8>) -> Option<Seq<u8>> {
    without_prefix(s, "tcp://".spec_bytes())
}

/// Reads an endpoint.
pub fn endpoint(s: &[u8]) -> (r: Result<Endpoint, TransportError>)
    ensures
        match network_address(s@) {
            None => r matches Ok(Endpoint::Serial),
            Some(address) => if address.len() == 0 {
                r matches Err(TransportError::EmptyAddress)
            } else {
                r matches Ok(Endpoint::Bridge(named)) && named@ == address
            },
        },
        s@ == "tcp://".spec_bytes() <==> r matches Err(TransportError::EmptyAddress),
{
    proof {
        reveal_strlit("tcp://");
        is_ascii_spec_bytes("tcp://");
    }
    if !starts_with(s, "tcp://".as_bytes()) {
        proof {
            let p = "tcp://".spec_bytes();
            assert(p.subrange(0, p.len() as int) =~= p);
        }
        return Ok(Endpoint::Serial);
    }
    if s.len() == 6 {
        assert(s@ =~= "tcp://".spec_bytes()) by {
            assert(s@.subrange(0, 6) =~= s@);
        }
        return Err(TransportError::EmptyAddress);
    }
    let address = vstd::slice::slice_subrange(s, 6, s.len());
    assert(address@ =~= s@.skip(6));
    Ok(Endpoint::Bridge(copy_of(address)))
}

/// The token to use: that of the command line where it is not empty, otherwise
/// that of the environment.
pub open spec fn chosen_token(cli: Option<Seq<u8>>, env: Option<Seq<u8>>) -> Option<Seq<u8>> {
    if cli is Some && cli.unwrap().len() > 0 {
        cli
    } else {
        env
    }
}

/// The view of an optional byte string.
pub open spec fn optional(s: Option<&[u8]>) -> Option<Seq<u8>> {
    match s {
        Some(s) => Some(s@),
        None => None,
    }
}

/// Chooses the token. White space would end it early on the other side.
pub fn bridge_token(cli: Option<&[u8]>, env: Option<&[u8]>) -> (r: Result<Vec<u8>, TransportError>)
    ensures
        match chosen_token(optional(cli), optional(env)) {
            None => r matches Err(TransportError::MissingToken),
            Some(token) => if has_white(token) {
                r matches Err(TransportError::TokenWhitespace)
            } else {
                r matches Ok(chosen) && chosen@ == token
            },
        },
{
    let mut token = env;
    if let Some(given) = cli {
        if given.len() > 0 {
            token = cli;
        }
    }
    match token {
        None => Err(TransportError::MissingToken),
        Some(token) => {
            if holds_white(token) {
                return Err(TransportError::TokenWhitespace);
            }
            Ok(copy_of(token))
        },
    }
}

/// The line that authenticates with a token.
pub open spec fn auth_text(token: Seq<u8>) -> Seq<u8> {
    "FMDUBRIDGE1 ".spec_bytes() + token + "\n".spec_bytes()
}

/// Writes the line that authenticates.
pub fn auth_line(token: &[u8]) -> (r: Vec<u8>)
    ensures
        r@ == auth_text(token@),
{
    let mut out = text_bytes("FMDUBRIDGE1 ");
    push_bytes(&mut out, token);
    push_text(&mut out, "\n");
    out
}

/// What an answer comes to, with all its bytes up to and with the line feed.
pub open spec fn answer_accepted(answer: Seq<u8>) -> bool {
    answer.len() > 0 && answer.last() == 10 && valid_utf8(answer) && has_prefix(
        trimmed_end(answer),
        "OK ".spec_bytes(),
    )
}

/// The answer to the authentication, being read.
#[derive(Debug)]
pub struct AuthAnswer {
    bytes: Vec<u8>,
}

impl View for AuthAnswer {
    type V = Seq<u8>;

    closed spec fn view(&self) -> Seq<u8> {
        self.bytes@
    }
}

impl AuthAnswer {
    /// The answer goes on: there is room, and its line is not complete.
    pub open spec fn goes_on(self) -> bool {
        self@.len() < AUTH_LINE_MAX && (self@.len() == 0 || self@.last() != 10)
    }

    pub fn new() -> (r: AuthAnswer)
        ensures
            r@ == Seq::<u8>::empty(),
    {
        AuthAnswer { bytes: Vec::new() }
    }

    /// Tells whether another byte is to be read.
    pub fn is_open(&self) -> (r: bool)
        ensures
            r == self.goes_on(),
    {
        let n = self.bytes.len();
        n < AUTH_LINE_MAX && (n == 0 || self.bytes[n - 1] != 10)
    }

    /// Takes a byte; none where the bridge closed the connection.
    pub fn push(&mut self, b: Option<u8>) -> (r: Result<(), TransportError>)
        requires
            old(self).goes_on(),
        ensures
            match b {
                Some(b) => r is Ok && final(self)@ == old(self)@.push(b),
                None => r matches Err(TransportError::Closed) && final(self)@ == old(self)@,
            },
    {
        match b {
            Some(b) => {
                self.bytes.push(b);
                Ok(())
            },
            None => Err(TransportError::Closed),
        }
    }

    /// Judges the answer.
    pub fn finish(&self) -> (r: Result<(), TransportError>)
        ensures
            r is Ok <==> answer_accepted(self@),
            r matches Err(TransportError::TooLong) <==> self@.len() == 0 || self@.last() != 10,
            r matches Err(TransportError::Encoding) <==> self@.len() > 0 && self@.last() == 10
                && !valid_utf8(self@),
            r matches Err(TransportError::Rejected(text)) ==> text@ == trimmed_end(self@),
            r matches Err(e) ==> e is TooLong || e is Encoding || e is Rejected,
    {
        let n = self.bytes.len();
        if n == 0 || self.bytes[n - 1] != 10 {
            return Err(TransportError::TooLong);
        }
        if !is_utf8(self.bytes.as_slice()) {
            return Err(TransportError::Encoding);
        }
        let text = trim_end(self.bytes.as_slice());
        if !starts_with(text, "OK ".as_bytes()) {
            return Err(TransportError::Rejected(copy_of(text)));
        }
        Ok(())
    }
}

} // verus!
