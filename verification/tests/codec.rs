use bytes::Bytes;
use tunnel::codec::{Codec, FrameHeader};
use tunnel::types::{Frame, MessageType, ProtocolError, MAX_FRAME_PAYLOAD, PROTOCOL_VERSION};

fn frame(stream_id: u32, msg_type: MessageType, payload: &[u8]) -> Frame {
    Frame { stream_id, msg_type, payload: Bytes::copy_from_slice(payload) }
}

#[test]
fn encode_writes_header_then_payload() {
    let f = frame(0x0102_0304, MessageType::HttpRequest, b"hi");
    let buf = Codec::encode(&f).unwrap();
    assert_eq!(&buf[..], &[1, 1, 2, 3, 4, 3, 0, 0, 0, 2, b'h', b'i'][..]);
}

#[test]
fn encode_empty_payload() {
    let f = frame(0, MessageType::Heartbeat, b"");
    let buf = Codec::encode(&f).unwrap();
    assert_eq!(&buf[..], &[PROTOCOL_VERSION, 0, 0, 0, 0, 8, 0, 0, 0, 0][..]);
}

#[test]
fn encode_refuses_oversized_payload() {
    let payload = vec![0u8; MAX_FRAME_PAYLOAD as usize + 1];
    let f = Frame { stream_id: 1, msg_type: MessageType::TcpData, payload: Bytes::from(payload) };
    match Codec::encode(&f) {
        Err(ProtocolError::PayloadTooLarge(n)) => assert_eq!(n, MAX_FRAME_PAYLOAD + 1),
        other => panic!("unexpected {:?}", other),
    }
}

#[test]
fn encode_accepts_payload_at_limit() {
    let payload = vec![7u8; MAX_FRAME_PAYLOAD as usize];
    let f = Frame { stream_id: 9, msg_type: MessageType::TcpData, payload: Bytes::from(payload) };
    let buf = Codec::encode(&f).unwrap();
    assert_eq!(buf.len(), MAX_FRAME_PAYLOAD as usize + 10);
    assert_eq!(&buf[6..10], &[1, 0, 0, 0][..]);
}

#[test]
fn decode_reads_back_encoded_frame() {
    let f = frame(42, MessageType::HttpResponse, b"{\"status\":200}");
    let mut bytes = Codec::encode(&f).unwrap().to_vec();
    bytes.extend_from_slice(b"trailing");
    let (g, n) = Codec::decode(&bytes).unwrap().unwrap();
    assert_eq!(n, 10 + 14);
    assert_eq!(g.stream_id, 42);
    assert_eq!(g.msg_type, MessageType::HttpResponse);
    assert_eq!(&g.payload[..], b"{\"status\":200}");
}

#[test]
fn decode_every_message_type() {
    let kinds = [
        MessageType::Register,
        MessageType::Registered,
        MessageType::HttpRequest,
        MessageType::HttpResponse,
        MessageType::TcpData,
        MessageType::Error,
        MessageType::CloseStream,
        MessageType::Heartbeat,
    ];
    for (i, k) in kinds.iter().enumerate() {
        let bytes = Codec::encode(&frame(i as u32, *k, b"x")).unwrap();
        assert_eq!(bytes[5], i as u8 + 1);
        let (g, _) = Codec::decode(&bytes).unwrap().unwrap();
        assert_eq!(g.msg_type, *k);
        assert_eq!(g.stream_id, i as u32);
    }
}

#[test]
fn decode_short_stream_is_end() {
    assert!(Codec::decode(&[]).unwrap().is_none());
    assert!(Codec::decode(&[1, 0, 0, 0, 1, 3, 0, 0, 0]).unwrap().is_none());
}

#[test]
fn decode_rejects_other_version() {
    match Codec::decode(&[2, 0, 0, 0, 1, 3, 0, 0, 0, 0]) {
        Err(ProtocolError::VersionMismatch { expected, got }) => {
            assert_eq!(expected, 1);
            assert_eq!(got, 2);
        }
        other => panic!("unexpected {:?}", other),
    }
}

#[test]
fn decode_rejects_unknown_type() {
    match Codec::decode(&[1, 0, 0, 0, 1, 9, 0, 0, 0, 0]) {
        Err(ProtocolError::UnknownMessageType(9)) => {}
        other => panic!("unexpected {:?}", other),
    }
    match Codec::decode(&[1, 0, 0, 0, 1, 0, 0, 0, 0, 0]) {
        Err(ProtocolError::UnknownMessageType(0)) => {}
        other => panic!("unexpected {:?}", other),
    }
}

#[test]
fn decode_rejects_oversized_length() {
    match Codec::decode(&[1, 0, 0, 0, 1, 4, 1, 0, 0, 1]) {
        Err(ProtocolError::PayloadTooLarge(n)) => assert_eq!(n, 0x0100_0001),
        other => panic!("unexpected {:?}", other),
    }
}

#[test]
fn decode_truncated_payload_is_io_error() {
    match Codec::decode(&[1, 0, 0, 0, 1, 4, 0, 0, 0, 5, b'a', b'b']) {
        Err(ProtocolError::Io(e)) => assert_eq!(e.kind(), std::io::ErrorKind::UnexpectedEof),
        other => panic!("unexpected {:?}", other),
    }
}

#[test]
fn decode_header_fields() {
    let h = Codec::decode_header(&[1, 0xff, 0, 0, 1, 7, 0, 0, 1, 0]).unwrap();
    assert_eq!(h, FrameHeader { stream_id: 0xff00_0001, msg_type: MessageType::CloseStream, payload_len: 256 });
}

#[test]
fn frames_in_a_row_read_back_in_order() {
    let frames = vec![
        frame(0, MessageType::Register, b"{}"),
        frame(1, MessageType::HttpRequest, b"abc"),
        frame(1, MessageType::HttpResponse, b""),
    ];
    let mut stream = Vec::new();
    for f in &frames {
        stream.extend_from_slice(&Codec::encode(f).unwrap());
    }
    let mut rest: &[u8] = &stream;
    let mut got = Vec::new();
    while let Some((f, n)) = Codec::decode(rest).unwrap() {
        got.push(f);
        rest = &rest[n..];
    }
    assert!(rest.is_empty());
    assert_eq!(got.len(), 3);
    for (a, b) in got.iter().zip(frames.iter()) {
        assert_eq!(a.stream_id, b.stream_id);
        assert_eq!(a.msg_type, b.msg_type);
        assert_eq!(a.payload, b.payload);
    }
}

#[test]
fn message_type_codes_round_trip() {
    for v in 0u8..=255 {
        match MessageType::try_from(v) {
            Ok(t) => {
                assert!((1..=8).contains(&v));
                assert_eq!(t.to_u8(), v);
                assert_eq!(MessageType::from_u8(v), Some(t));
            }
            Err(ProtocolError::UnknownMessageType(w)) => {
                assert_eq!(w, v);
                assert!(!(1..=8).contains(&v));
                assert_eq!(MessageType::from_u8(v), None);
            }
            Err(e) => panic!("unexpected {:?}", e),
        }
    }
}
