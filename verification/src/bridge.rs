//! The remote optical bridge: a network client that owns the optical port.

use crate::buffers::{BridgeChunk, BRIDGE_CHUNK_SIZE};
use crate::header::{header_line, HeaderError, HeaderReader};
use crate::text::{contents, fields, is_text, same_bytes, split_fields};
use vstd::prelude::*;
use vstd::string::*;
use vstd::utf8::*;

verus! {

/// What the server asks of the task that owns the port.
#[derive(Clone, Copy)]
pub enum BridgeCommand {
    Connect,
    Data(BridgeChunk),
    Disconnect,
}

/// What the task that owns the port tells the server.
#[derive(Clone, Copy)]
pub enum BridgeEvent {
    Connected,
    Disconnected,
    Data(BridgeChunk),
}

/// Why a client is turned away.
#[derive(Clone, Copy, Debug, PartialEq, Eq, Structural)]
pub enum BridgeRefusal {
    /// Another client or a running scan owns the port.
    Busy,
    Malformed,
    Encoding,
    Token,
    /// A scan began while the request was read.
    ScanBusy,
}

impl BridgeRefusal {
    /// The answer to a client that is turned away.
    pub open spec fn text(self) -> &'static str {
        match self {
            BridgeRefusal::Busy => "ERR bridge busy\n",
            BridgeRefusal::Malformed => "ERR malformed request\n",
            BridgeRefusal::Encoding => "ERR request encoding\n",
            BridgeRefusal::Token => "ERR invalid token\n",
            BridgeRefusal::ScanBusy => "ERR scan busy\n",
        }
    }

    /// The answer to a client that is turned away.
    pub fn answer(self) -> (r: &'static str)
        ensures
            r == self.text(),
    {
        match self {
            BridgeRefusal::Busy => "ERR bridge busy\n",
            BridgeRefusal::Malformed => "ERR malformed request\n",
            BridgeRefusal::Encoding => "ERR request encoding\n",
            BridgeRefusal::Token => "ERR invalid token\n",
            BridgeRefusal::ScanBusy => "ERR scan busy\n",
        }
    }
}

/// The answer to a client that is let in.
pub open spec fn greeting_text() -> &'static str {
    "OK FreeMDU optical bridge\n"
}

/// Whether a client that has just connected is let in.
pub open spec fn welcomed(bridge_active: bool, scan_running: bool) -> Result<(), BridgeRefusal> {
    if bridge_active || scan_running {
        Err(BridgeRefusal::Busy)
    } else {
        Ok(())
    }
}

/// Lets a client that has just connected in, or turns it away.
pub fn welcome(bridge_active: bool, scan_running: bool) -> (r: Result<(), BridgeRefusal>)
    ensures
        r == welcomed(bridge_active, scan_running),
{
    if bridge_active || scan_running {
        Err(BridgeRefusal::Busy)
    } else {
        Ok(())
    }
}

/// The line is the word `FMDUBRIDGE1` and the token, and nothing else.
pub open spec fn authenticated(line: Seq<u8>, token: Seq<u8>) -> bool {
    let f = fields(line);
    f.len() == 2 && f[0] == "FMDUBRIDGE1".spec_bytes() && f[1] == token
}

/// What the request of a client comes to.
pub open spec fn bridge_header(header: Seq<u8>, token: Seq<u8>, scan_running: bool) -> Result<
    (),
    BridgeRefusal,
> {
    match header_line(header) {
        Err(HeaderError::Malformed) => Err(BridgeRefusal::Malformed),
        Err(HeaderError::Encoding) => Err(BridgeRefusal::Encoding),
        Ok(line) => if !authenticated(line, token) {
            Err(BridgeRefusal::Token)
        } else if scan_running {
            Err(BridgeRefusal::ScanBusy)
        } else {
            Ok(())
        },
    }
}

/// Judges the request of a client.
pub fn bridge_request(header: &HeaderReader, token: &[u8], scan_running: bool) -> (r: Result<
    (),
    BridgeRefusal,
>)
    ensures
        r == bridge_header(header.read(), token@, scan_running),
{
    let line = match header.finish() {
        Ok(line) => line,
        Err(HeaderError::Malformed) => return Err(BridgeRefusal::Malformed),
        Err(HeaderError::Encoding) => return Err(BridgeRefusal::Encoding),
    };
    let f = split_fields(line.as_slice());
    let ghost all = contents(f@);
    assert(all == fields(line@));
    if f.len() != 2 {
        return Err(BridgeRefusal::Token);
    }
    assert(all[0] == f@[0]@ && all[1] == f@[1]@);
    if !is_text(f[0].as_slice(), "FMDUBRIDGE1") || !same_bytes(f[1].as_slice(), token) {
        return Err(BridgeRefusal::Token);
    }
    if scan_running {
        return Err(BridgeRefusal::ScanBusy);
    }
    Ok(())
}

/// The greeting to send once the port is owned, or none where it was not given.
pub open spec fn greeting(event: BridgeEvent) -> Option<&'static str> {
    if event is Connected {
        Some(greeting_text())
    } else {
        None
    }
}

/// The greeting to send once the port is owned, or none where it was not given.
pub fn greet(event: &BridgeEvent) -> (r: Option<&'static str>)
    ensures
        r == greeting(*event),
{
    match event {
        BridgeEvent::Connected => Some("OK FreeMDU optical bridge\n"),
        _ => None,
    }
}

// ---------------------------------------------------------------------------
// The server's side
// ---------------------------------------------------------------------------
/// What the server sees of a session.
pub enum ServerInput<'a> {
    /// The client sent these bytes; none where it closed the connection.
    Host(&'a [u8]),
    /// Reading from the client failed.
    HostFailed,
    /// The port's task tells something.
    Port(BridgeEvent),
}

/// What the server does then.
pub enum ServerOutput {
    /// Hand this to the port's task.
    Forward(BridgeCommand),
    /// Send this to the client; where that fails the session ends.
    Send(BridgeChunk),
    /// Nothing.
    Idle,
    /// End the session: disconnect the port and drop the connection.
    End,
}

/// What the server does, as a relation of its input and its output: bytes of the
/// client go to the port and bytes of the port to the client, unchanged.
pub open spec fn serves(input: ServerInput, output: ServerOutput) -> bool {
    match input {
        ServerInput::Host(data) => if 0 < data@.len() <= BRIDGE_CHUNK_SIZE {
            output matches ServerOutput::Forward(BridgeCommand::Data(chunk)) && chunk@ == data@
        } else {
            output is End
        },
        ServerInput::HostFailed => output is End,
        ServerInput::Port(BridgeEvent::Data(chunk)) => output == ServerOutput::Send(chunk),
        ServerInput::Port(BridgeEvent::Connected) => output is Idle,
        ServerInput::Port(BridgeEvent::Disconnected) => output is End,
    }
}

/// Decides what the server does.
pub fn serve(input: ServerInput) -> (r: ServerOutput)
    ensures
        serves(input, r),
{
    match input {
        ServerInput::Host(data) => {
            if data.len() == 0 {
                return ServerOutput::End;
            }
            match BridgeChunk::from_slice(data) {
                Some(chunk) => ServerOutput::Forward(BridgeCommand::Data(chunk)),
                None => ServerOutput::End,
            }
        },
        ServerInput::HostFailed => ServerOutput::End,
        ServerInput::Port(event) => match event {
            BridgeEvent::Data(chunk) => ServerOutput::Send(chunk),
            BridgeEvent::Connected => ServerOutput::Idle,
            BridgeEvent::Disconnected => ServerOutput::End,
        },
    }
}

// ---------------------------------------------------------------------------
// The port's side
// ---------------------------------------------------------------------------
/// What the port's task sees of a session.
pub enum PortInput<'a> {
    /// The server asks for something.
    Command(BridgeCommand),
    /// These bytes were received.
    Received(&'a [u8]),
    /// Receiving failed.
    ReceiveFailed,
}

/// What the port's task does then.
pub enum PortOutput {
    /// Transmit this; where that fails the session ends.
    Transmit(BridgeChunk),
    /// Tell the server of these bytes.
    Tell(BridgeEvent),
    /// Nothing.
    Idle,
    /// End the session.
    End,
}

/// What the port's task does, as a relation of its input and its output.
pub open spec fn relays(input: PortInput, output: PortOutput) -> bool {
    match input {
        PortInput::Command(BridgeCommand::Data(chunk)) => output == PortOutput::Transmit(chunk),
        PortInput::Command(BridgeCommand::Disconnect) => output is End,
        PortInput::Command(BridgeCommand::Connect) => output is Idle,
        PortInput::Received(data) => if 0 < data@.len() <= BRIDGE_CHUNK_SIZE {
            output matches PortOutput::Tell(BridgeEvent::Data(chunk)) && chunk@ == data@
        } else {
            output is Idle
        },
        PortInput::ReceiveFailed => output is End,
    }
}

/// Decides what the port's task does.
pub fn relay(input: PortInput) -> (r: PortOutput)
    ensures
        relays(input, r),
{
    match input {
        PortInput::Command(command) => match command {
            BridgeCommand::Data(chunk) => PortOutput::Transmit(chunk),
            BridgeCommand::Disconnect => PortOutput::End,
            // Only one client can own the port at a time.
            BridgeCommand::Connect => PortOutput::Idle,
        },
        PortInput::Received(data) => {
            if data.len() == 0 {
                return PortOutput::Idle;
            }
            match BridgeChunk::from_slice(data) {
                Some(chunk) => PortOutput::Tell(BridgeEvent::Data(chunk)),
                None => PortOutput::Idle,
            }
        },
        PortInput::ReceiveFailed => PortOutput::End,
    }
}

/// What the client sends is what the port transmits.
pub proof fn lemma_bridge_is_transparent_to_the_port(
    data: &[u8],
    there: ServerOutput,
    command: BridgeCommand,
    here: PortOutput,
)
    requires
        0 < data@.len() <= BRIDGE_CHUNK_SIZE,
        serves(ServerInput::Host(data), there),
        there == ServerOutput::Forward(command),
        relays(PortInput::Command(command), here),
    ensures
        here matches PortOutput::Transmit(chunk) && chunk@ == data@,
{
}

/// What the port receives is what the client is sent.
pub proof fn lemma_bridge_is_transparent_to_the_client(
    data: &[u8],
    there: PortOutput,
    event: BridgeEvent,
    here: ServerOutput,
)
    requires
        0 < data@.len() <= BRIDGE_CHUNK_SIZE,
        relays(PortInput::Received(data), there),
        there == PortOutput::Tell(event),
        serves(ServerInput::Port(event), here),
    ensures
        here matches ServerOutput::Send(chunk) && chunk@ == data@,
{
}

} // verus!
