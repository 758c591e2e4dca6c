//! The decisions both ends of a tunnel take on the frames they read; the
//! reading and writing themselves are left to the caller.
use crate::buffers::bytes_view;
use crate::http::assigned_url;
use crate::names::{is_uuid_v4_text, new_tunnel_id};
use crate::types::{ErrorPayload, Frame, MessageType, ProtocolError, RegisteredPayload};
use vstd::prelude::*;

verus! {

/// What the client does after trying to read a frame from the server.
pub enum ClientStep {
    /// A visitor request: replay it against the local server.
    Forward(Frame),
    /// The server confirmed the registration; the payload names the URL.
    ShowUrl(bytes::Bytes),
    /// The server reported an error; the payload holds its message.
    ShowError(bytes::Bytes),
    /// A heartbeat or a closed stream: nothing to do.
    Continue,
    /// A kind the server has no business sending: warn and go on.
    Warn(MessageType),
    /// The server closed the connection: stop.
    Disconnected,
    /// The frame could not be read: report and stop.
    Failed(ProtocolError),
}

/// How the client reacts to one read.
pub fn client_step(read: Result<Option<Frame>, ProtocolError>) -> (s: ClientStep)
    ensures
        match read {
            Ok(Some(f)) => match f.msg_type {
                MessageType::HttpRequest => s == ClientStep::Forward(f),
                MessageType::Registered => s matches ClientStep::ShowUrl(p) && bytes_view(p)
                    == bytes_view(f.payload),
                MessageType::Error => s matches ClientStep::ShowError(p) && bytes_view(p)
                    == bytes_view(f.payload),
                MessageType::Heartbeat | MessageType::CloseStream => s is Continue,
                _ => s == ClientStep::Warn(f.msg_type),
            },
            Ok(None) => s is Disconnected,
            Err(e) => s == ClientStep::Failed(e),
        },
{
    match read {
        Ok(Some(f)) => match f.msg_type {
            MessageType::HttpRequest => ClientStep::Forward(f),
            MessageType::Registered => ClientStep::ShowUrl(f.payload),
            MessageType::Error => ClientStep::ShowError(f.payload),
            MessageType::Heartbeat | MessageType::CloseStream => ClientStep::Continue,
            _ => ClientStep::Warn(f.msg_type),
        },
        Ok(None) => ClientStep::Disconnected,
        Err(e) => ClientStep::Failed(e),
    }
}

/// Why the server turns a tunnel client away.
#[derive(Debug, PartialEq, Eq, Structural)]
pub enum SessionError {
    /// The connection ended before the client registered.
    DisconnectedBeforeRegister,
    /// The client's first frame is of this kind, not `Register`.
    ExpectedRegister(MessageType),
    /// The client presented a wrong token.
    InvalidToken,
}

/// The server's check of a client's first frame: there must be one, and it
/// must be a `Register`.
pub fn expect_register(first: Option<Frame>) -> (r: Result<Frame, SessionError>)
    ensures
        match first {
            None => r == Err::<Frame, SessionError>(SessionError::DisconnectedBeforeRegister),
            Some(f) => if f.msg_type == MessageType::Register {
                r == Ok::<Frame, SessionError>(f)
            } else {
                r == Err::<Frame, SessionError>(SessionError::ExpectedRegister(f.msg_type))
            },
        },
{
    match first {
        None => Err(SessionError::DisconnectedBeforeRegister),
        Some(f) => {
            if f.msg_type == MessageType::Register {
                Ok(f)
            } else {
                Err(SessionError::ExpectedRegister(f.msg_type))
            }
        },
    }
}

impl ErrorPayload {
    /// What the server tells a client that presented a wrong token.
    pub fn invalid_token() -> (p: ErrorPayload)
        ensures
            p.message@ == "invalid token"@,
    {
        ErrorPayload { message: "invalid token".to_owned() }
    }
}

impl RegisteredPayload {
    /// The server's confirmation for a tunnel on `subdomain` of `domain`:
    /// its public URL and a fresh tunnel id.
    pub fn for_tunnel(subdomain: &str, domain: &str) -> (p: RegisteredPayload)
        ensures
            p.assigned_url@ == "https://"@ + subdomain@ + "."@ + domain@,
            is_uuid_v4_text(p.tunnel_id@),
    {
        RegisteredPayload { assigned_url: assigned_url(subdomain, domain), tunnel_id: new_tunnel_id() }
    }
}

impl Frame {
    /// A frame of the registration exchange (`Register`, `Registered`,
    /// `Error`), which travels on stream 0.
    pub fn control(msg_type: MessageType, payload: bytes::Bytes) -> (f: Frame)
        ensures
            f.stream_id == 0,
            f.msg_type == msg_type,
            f.payload == payload,
    {
        Frame { stream_id: 0, msg_type, payload }
    }

    /// A frame answering the visitor request of stream `stream_id`.
    pub fn http_response(stream_id: u32, payload: bytes::Bytes) -> (f: Frame)
        ensures
            f.stream_id == stream_id,
            f.msg_type == MessageType::HttpResponse,
            f.payload == payload,
    {
        Frame { stream_id, msg_type: MessageType::HttpResponse, payload }
    }

    /// A frame carrying a visitor request on stream `stream_id`.
    pub fn http_request(stream_id: u32, payload: bytes::Bytes) -> (f: Frame)
        ensures
            f.stream_id == stream_id,
            f.msg_type == MessageType::HttpRequest,
            f.payload == payload,
    {
        Frame { stream_id, msg_type: MessageType::HttpRequest, payload }
    }
}

} // verus!
