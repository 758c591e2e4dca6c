use bytes::Bytes;
use tunnel::names::{new_tunnel_id, random_subdomain, subdomain_with_id};
use tunnel::session::{client_step, expect_register, ClientStep, SessionError};
use tunnel::types::{ErrorPayload, Frame, MessageType, ProtocolError, RegisteredPayload};

fn frame(msg_type: MessageType) -> Frame {
    Frame { stream_id: 5, msg_type, payload: Bytes::from_static(b"{}") }
}

#[test]
fn client_reacts_to_each_kind() {
    assert!(matches!(client_step(Ok(Some(frame(MessageType::HttpRequest)))), ClientStep::Forward(f) if f.stream_id == 5));
    assert!(matches!(client_step(Ok(Some(frame(MessageType::Registered)))), ClientStep::ShowUrl(p) if &p[..] == b"{}"));
    assert!(matches!(client_step(Ok(Some(frame(MessageType::Error)))), ClientStep::ShowError(_)));
    assert!(matches!(client_step(Ok(Some(frame(MessageType::Heartbeat)))), ClientStep::Continue));
    assert!(matches!(client_step(Ok(Some(frame(MessageType::CloseStream)))), ClientStep::Continue));
    assert!(matches!(client_step(Ok(Some(frame(MessageType::TcpData)))), ClientStep::Warn(MessageType::TcpData)));
    assert!(matches!(client_step(Ok(None)), ClientStep::Disconnected));
    assert!(matches!(
        client_step(Err(ProtocolError::UnknownMessageType(0))),
        ClientStep::Failed(ProtocolError::UnknownMessageType(0))
    ));
}

#[test]
fn first_frame_must_register() {
    assert_eq!(expect_register(None).err(), Some(SessionError::DisconnectedBeforeRegister));
    assert_eq!(
        expect_register(Some(frame(MessageType::Heartbeat))).err(),
        Some(SessionError::ExpectedRegister(MessageType::Heartbeat))
    );
    let f = expect_register(Some(frame(MessageType::Register))).unwrap();
    assert_eq!(f.msg_type, MessageType::Register);
}

#[test]
fn control_frames_use_stream_zero() {
    let f = Frame::control(MessageType::Error, Bytes::from_static(b"x"));
    assert_eq!(f.stream_id, 0);
    assert_eq!(f.msg_type, MessageType::Error);
    let f = Frame::http_response(9, Bytes::new());
    assert_eq!(f.stream_id, 9);
    assert_eq!(f.msg_type, MessageType::HttpResponse);
    let f = Frame::http_request(3, Bytes::new());
    assert_eq!(f.msg_type, MessageType::HttpRequest);
}

#[test]
fn subdomains() {
    assert_eq!(subdomain_with_id("dev-", "0123456789abcdef"), "dev-01234567");
    assert_eq!(subdomain_with_id("tcp-", "abc"), "tcp-abc");
    let s = random_subdomain("dev-");
    assert_eq!(s.len(), 12);
    assert!(s.starts_with("dev-"));
    assert!(s[4..].chars().all(|c| c.is_ascii_hexdigit() && !c.is_ascii_uppercase()));
    assert_ne!(random_subdomain("tcp-"), random_subdomain("tcp-"));
    let id = new_tunnel_id();
    assert_eq!(id.len(), 36);
    assert_eq!(id.as_bytes()[8], b'-');
}

#[test]
fn registration_payloads() {
    assert_eq!(ErrorPayload::invalid_token().message, "invalid token");
    let r = RegisteredPayload::for_tunnel("dev-1", "example.org");
    assert_eq!(r.assigned_url, "https://dev-1.example.org");
    assert_eq!(r.tunnel_id.len(), 36);
}

fn is_uuid_v4(s: &str) -> bool {
    let b = s.as_bytes();
    b.len() == 36
        && b.iter().enumerate().all(|(i, c)| match i {
            8 | 13 | 18 | 23 => *c == b'-',
            14 => *c == b'4',
            19 => matches!(c, b'8' | b'9' | b'a' | b'b'),
            _ => c.is_ascii_digit() || (b'a'..=b'f').contains(c),
        })
}

#[test]
fn tunnel_ids_are_uuid_v4_text() {
    let a = new_tunnel_id();
    let b = new_tunnel_id();
    assert!(is_uuid_v4(&a), "{a}");
    assert!(is_uuid_v4(&b), "{b}");
    assert_ne!(a, b);
    let r = RegisteredPayload::for_tunnel("dev-1", "example.org");
    assert!(is_uuid_v4(&r.tunnel_id), "{}", r.tunnel_id);
}
