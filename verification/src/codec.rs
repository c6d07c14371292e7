//! Framing of the echo protocol: each message is a two-byte network-order
//! length followed by that many bytes.
use vstd::prelude::*;

use crate::encoding::{be_value, lemma_two_bytes_fit_u16, lemma_u16_be_roundtrip, u16_be, u16_from_be_bytes, u16_to_be_bytes};

verus! {

/// Protocol name of the echo exchange.
pub const PROTOCOL_ID: &'static str = "/echo/1.0.0";

/// An echo request: the bytes to send back.
#[derive(Debug, Clone)]
pub struct EchoRequest(pub Vec<u8>);

/// An echo response: the bytes sent back.
#[derive(Debug, Clone)]
pub struct EchoResponse(pub Vec<u8>);

/// Errors of framing.
#[derive(Debug, Clone, Copy, PartialEq, Eq, Structural)]
pub enum FrameError {
    /// The message has more than `u16::MAX` bytes ("message too long").
    MessageTooLong,
    /// Fewer bytes are available than the frame announces.
    Truncated,
}

/// The frame of a message: its length in two network-order bytes, then the
/// message.
pub open spec fn frame_of(data: Seq<u8>) -> Seq<u8> {
    u16_be(data.len() as u16) + data
}

/// The message length that a frame's two-byte prefix announces.
pub fn frame_body_len(hi: u8, lo: u8) -> (r: usize)
    ensures
        r == be_value(seq![hi, lo]),
        r <= u16::MAX,
{
    let n = u16_from_be_bytes(hi, lo);
    n as usize
}

/// The frame of `data`; `MessageTooLong` when `data` has more than
/// `u16::MAX` bytes.
pub fn encode_frame(data: &[u8]) -> (r: Result<Vec<u8>, FrameError>)
    ensures
        data@.len() > u16::MAX ==> r == Err::<Vec<u8>, FrameError>(FrameError::MessageTooLong),
        data@.len() <= u16::MAX ==> (r matches Ok(f) && f@ == frame_of(data@)),
{
    let len = data.len();
    if len > 65535 {
        return Err(FrameError::MessageTooLong);
    }
    let prefix = u16_to_be_bytes(len as u16);
    let mut out: Vec<u8> = Vec::new();
    out.push(prefix[0]);
    out.push(prefix[1]);
    let mut i: usize = 0;
    proof {
        lemma_u16_be_roundtrip(len as u16);
    }
    while i < len
        invariant
            0 <= i <= len,
            len == data@.len(),
            out@ == prefix@ + data@.take(i as int),
        decreases len - i,
    {
        out.push(data[i]);
        i = i + 1;
        assert(out@ =~= prefix@ + data@.take(i as int));
    }
    assert(data@.take(len as int) =~= data@);
    Ok(out)
}

/// The message of the frame at the front of `bytes`; `Truncated` when fewer
/// bytes are available than the prefix and the announced length.
pub fn decode_frame(bytes: &[u8]) -> (r: Result<Vec<u8>, FrameError>)
    ensures
        bytes@.len() < 2 ==> r == Err::<Vec<u8>, FrameError>(FrameError::Truncated),
        bytes@.len() >= 2 ==> {
            let n = be_value(bytes@.take(2));
            &&& bytes@.len() < 2 + n ==> r == Err::<Vec<u8>, FrameError>(FrameError::Truncated)
            &&& bytes@.len() >= 2 + n ==> (r matches Ok(m) && m@ == bytes@.subrange(2, (2 + n) as int))
        },
{
    if bytes.len() < 2 {
        return Err(FrameError::Truncated);
    }
    let n = frame_body_len(bytes[0], bytes[1]);
    proof {
        assert(bytes@.take(2) =~= seq![bytes@[0], bytes@[1]]);
    }
    if bytes.len() - 2 < n {
        return Err(FrameError::Truncated);
    }
    let mut out: Vec<u8> = Vec::new();
    let mut i: usize = 0;
    while i < n
        invariant
            0 <= i <= n,
            2 + n <= bytes@.len(),
            bytes@.len() <= usize::MAX,
            out@ == bytes@.subrange(2, 2 + i),
        decreases n - i,
    {
        out.push(bytes[2 + i]);
        i = i + 1;
        assert(out@ =~= bytes@.subrange(2, 2 + i));
    }
    Ok(out)
}

/// The text that the echo server sends back for a text it received.
pub fn echo_reply_text(text: &str) -> (r: String)
    ensures
        r@ == "ответ от сервера: "@ + text@,
{
    let mut r = "ответ от сервера: ".to_string();
    r.append(text);
    r
}

/// What the echo client is told: its connection to the server opened or
/// closed, or a line was typed.
#[derive(Debug)]
pub enum ClientEvent {
    Connected { peer_id: Vec<u8> },
    ConnectionClosed,
    Line(String),
}

/// What the echo client does about an event.
#[derive(Debug)]
pub enum ClientAction {
    /// Announce the connection and ask for a message.
    Greet,
    /// Stop: the connection closed.
    Stop,
    /// Send this text to the server.
    Send { peer_id: Vec<u8>, text: String },
    /// Say that no server is connected; nothing is sent.
    NotConnected,
}

/// The echo client's state: the server it is connected to, if any.
pub struct EchoClient {
    server: Option<Vec<u8>>,
}

impl EchoClient {
    /// The connected server's peer id, if any.
    pub closed spec fn server(&self) -> Option<Seq<u8>> {
        match self.server {
            Some(p) => Some(p@),
            None => None,
        }
    }

    /// A client not yet connected.
    pub fn new() -> (r: Self)
        ensures
            r.server() is None,
    {
        EchoClient { server: None }
    }

    /// One step: a connection makes its peer the server and is announced; a
    /// closed connection stops the client; a typed line is sent to the server
    /// when one is connected, and otherwise refused.
    pub fn step(&mut self, event: ClientEvent) -> (r: ClientAction)
        ensures
            match event {
                ClientEvent::Connected { peer_id } => r is Greet && final(self).server() == Some(peer_id@),
                ClientEvent::ConnectionClosed => r is Stop && final(self).server() == old(self).server(),
                ClientEvent::Line(t) => {
                    &&& final(self).server() == old(self).server()
                    &&& old(self).server() is None ==> r is NotConnected
                    &&& old(self).server() matches Some(p) ==> (r matches ClientAction::Send {
                        peer_id,
                        text,
                    } && peer_id@ == p && text@ == t@)
                },
            },
    {
        match event {
            ClientEvent::Connected { peer_id } => {
                self.server = Some(peer_id);
                ClientAction::Greet
            },
            ClientEvent::ConnectionClosed => ClientAction::Stop,
            ClientEvent::Line(text) => match &self.server {
                Some(p) => ClientAction::Send { peer_id: crate::routes::copy_bytes(p.as_slice()), text },
                None => ClientAction::NotConnected,
            },
        }
    }
}

impl EchoRequest {
    /// The frame that carries this request.
    pub fn to_frame(&self) -> (r: Result<Vec<u8>, FrameError>)
        ensures
            self.0@.len() > u16::MAX ==> r == Err::<Vec<u8>, FrameError>(FrameError::MessageTooLong),
            self.0@.len() <= u16::MAX ==> (r matches Ok(f) && f@ == frame_of(self.0@)),
    {
        encode_frame(self.0.as_slice())
    }
}

impl EchoResponse {
    /// The frame that carries this response.
    pub fn to_frame(&self) -> (r: Result<Vec<u8>, FrameError>)
        ensures
            self.0@.len() > u16::MAX ==> r == Err::<Vec<u8>, FrameError>(FrameError::MessageTooLong),
            self.0@.len() <= u16::MAX ==> (r matches Ok(f) && f@ == frame_of(self.0@)),
    {
        encode_frame(self.0.as_slice())
    }
}

/// Decoding the frame of a message of at most `u16::MAX` bytes gives the
/// message back.
pub proof fn law_frame_roundtrip(data: Seq<u8>)
    requires
        data.len() <= u16::MAX,
    ensures
        frame_of(data).len() >= 2,
        be_value(frame_of(data).take(2)) == data.len(),
        frame_of(data).subrange(2, 2 + data.len() as int) =~= data,
{
    lemma_u16_be_roundtrip(data.len() as u16);
    assert(frame_of(data).take(2) =~= u16_be(data.len() as u16));
}

/// A well-formed frame is the frame of the message it carries.
pub proof fn law_frame_of_decoded(bytes: Seq<u8>)
    requires
        bytes.len() >= 2,
        bytes.len() == 2 + be_value(bytes.take(2)),
    ensures
        frame_of(bytes.subrange(2, bytes.len() as int)) =~= bytes,
{
    lemma_two_bytes_fit_u16(bytes.take(2));
    assert(bytes.take(2) + bytes.subrange(2, bytes.len() as int) =~= bytes);
}

} // verus!
