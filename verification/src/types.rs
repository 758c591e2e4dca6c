//! Message kinds, frames and the errors of the framing protocol.
use crate::buffers::bytes_view;
use vstd::prelude::*;

verus! {

/// Version byte that leads every frame on the wire.
pub const PROTOCOL_VERSION: u8 = 1;

/// Largest payload a frame may carry: 16 MiB.
pub const MAX_FRAME_PAYLOAD: u32 = 16 * 1024 * 1024;

/// The kinds of frame the tunnel exchanges. Each has a one-byte code on the
/// wire, from 0x01 (`Register`) to 0x08 (`Heartbeat`).
#[derive(Debug, Clone, Copy, PartialEq, Eq, Structural)]
pub enum MessageType {
    Register,
    Registered,
    HttpRequest,
    HttpResponse,
    TcpData,
    Error,
    CloseStream,
    Heartbeat,
}

/// The wire code of a message kind.
pub open spec fn message_code(t: MessageType) -> u8 {
    match t {
        MessageType::Register => 1,
        MessageType::Registered => 2,
        MessageType::HttpRequest => 3,
        MessageType::HttpResponse => 4,
        MessageType::TcpData => 5,
        MessageType::Error => 6,
        MessageType::CloseStream => 7,
        MessageType::Heartbeat => 8,
    }
}

/// The message kind a wire code stands for, if any.
pub open spec fn message_from_code(v: u8) -> Option<MessageType> {
    if v == 1 {
        Some(MessageType::Register)
    } else if v == 2 {
        Some(MessageType::Registered)
    } else if v == 3 {
        Some(MessageType::HttpRequest)
    } else if v == 4 {
        Some(MessageType::HttpResponse)
    } else if v == 5 {
        Some(MessageType::TcpData)
    } else if v == 6 {
        Some(MessageType::Error)
    } else if v == 7 {
        Some(MessageType::CloseStream)
    } else if v == 8 {
        Some(MessageType::Heartbeat)
    } else {
        None
    }
}

impl MessageType {
    /// The one-byte wire code of this kind.
    pub fn to_u8(self) -> (code: u8)
        ensures
            code == message_code(self),
            1 <= code <= 8,
    {
        match self {
            MessageType::Register => 1,
            MessageType::Registered => 2,
            MessageType::HttpRequest => 3,
            MessageType::HttpResponse => 4,
            MessageType::TcpData => 5,
            MessageType::Error => 6,
            MessageType::CloseStream => 7,
            MessageType::Heartbeat => 8,
        }
    }

    /// Reads a wire code; `None` for any byte outside 0x01..=0x08.
    pub fn from_u8(v: u8) -> (t: Option<MessageType>)
        ensures
            t == message_from_code(v),
    {
        match v {
            1 => Some(MessageType::Register),
            2 => Some(MessageType::Registered),
            3 => Some(MessageType::HttpRequest),
            4 => Some(MessageType::HttpResponse),
            5 => Some(MessageType::TcpData),
            6 => Some(MessageType::Error),
            7 => Some(MessageType::CloseStream),
            8 => Some(MessageType::Heartbeat),
            _ => None,
        }
    }
}

/// Every kind reads back from its own code.
pub proof fn lemma_message_code_roundtrip(t: MessageType)
    ensures
        message_from_code(message_code(t)) == Some(t),
{
}

/// A code that reads as a kind is that kind's code, and exactly the codes
/// 0x01..=0x08 read as a kind.
pub proof fn lemma_message_code_inverse(v: u8)
    ensures
        message_from_code(v) is Some <==> 1 <= v <= 8,
        message_from_code(v) matches Some(t) ==> message_code(t) == v,
{
}

#[verifier::external_type_specification]
#[verifier::external_body]
pub struct ExIoError(std::io::Error);

#[verifier::external_type_specification]
#[verifier::external_body]
pub struct ExJsonError(serde_json::Error);

/// What can go wrong while framing, reading or interpreting frames.
#[derive(Debug)]
pub enum ProtocolError {
    /// A frame's type byte is none of the known codes.
    UnknownMessageType(u8),
    /// A frame starts with another protocol version than this one.
    VersionMismatch { expected: u8, got: u8 },
    /// A payload is longer than `MAX_FRAME_PAYLOAD`.
    PayloadTooLarge(u32),
    /// The byte stream failed or ended inside a frame.
    Io(std::io::Error),
    /// A payload is not the JSON document its frame kind calls for.
    Json(serde_json::Error),
}

/// How a byte reads as a message kind: the kind, or the error for an
/// unknown code.
pub open spec fn spec_message_type_try_from(v: u8) -> Result<MessageType, ProtocolError> {
    match message_from_code(v) {
        Some(t) => Ok(t),
        None => Err(ProtocolError::UnknownMessageType(v)),
    }
}

impl TryFrom<u8> for MessageType {
    type Error = ProtocolError;

    fn try_from(v: u8) -> (r: Result<MessageType, ProtocolError>) {
        match MessageType::from_u8(v) {
            Some(t) => Ok(t),
            None => Err(ProtocolError::UnknownMessageType(v)),
        }
    }
}

impl vstd::std_specs::convert::TryFromSpecImpl<u8> for MessageType {
    open spec fn obeys_try_from_spec() -> bool {
        true
    }

    open spec fn try_from_spec(v: u8) -> Result<MessageType, ProtocolError> {
        spec_message_type_try_from(v)
    }
}

/// One unit of the tunnel protocol: a kind, the stream it belongs to, and
/// the bytes it carries.
#[derive(Debug, Clone)]
pub struct Frame {
    pub stream_id: u32,
    pub msg_type: MessageType,
    pub payload: bytes::Bytes,
}

/// What a client sends to register: the subdomain it wants, the local port
/// it forwards to, and its token.
#[derive(Debug, Clone)]
pub struct RegisterPayload {
    pub subdomain: String,
    pub local_port: u16,
    pub token: String,
}

/// The server's confirmation of a registration.
#[derive(Debug, Clone)]
pub struct RegisteredPayload {
    pub assigned_url: String,
    pub tunnel_id: String,
}

/// The message of an `Error` frame.
#[derive(Debug, Clone)]
pub struct ErrorPayload {
    pub message: String,
}

/// The payload announcing that a stream is closed, with an optional reason.
#[derive(Debug, Clone)]
pub struct ClosePayload {
    pub stream_id: u32,
    pub reason: Option<String>,
}

/// A frame as a mathematical value.
pub ghost struct FrameView {
    pub stream_id: u32,
    pub msg_type: MessageType,
    pub payload: Seq<u8>,
}

impl View for Frame {
    type V = FrameView;

    open spec fn view(&self) -> FrameView {
        FrameView { stream_id: self.stream_id, msg_type: self.msg_type, payload: bytes_view(self.payload) }
    }
}

} // verus!
