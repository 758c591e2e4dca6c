//! The frame format: `[version u8][stream_id u32 BE][type u8][payload_len u32 BE][payload]`.
use crate::buffers::{
    be_bytes, bytes_as_slice, bytes_copy_from_slice, bytes_mut_extend_from_slice, bytes_mut_put_u32,
    bytes_mut_put_u8, bytes_mut_view, bytes_mut_with_capacity, bytes_view,
};
use crate::types::{
    lemma_message_code_inverse, lemma_message_code_roundtrip,
    message_code, message_from_code, Frame, FrameView, MessageType, ProtocolError,
    MAX_FRAME_PAYLOAD, PROTOCOL_VERSION,
};
use vstd::prelude::*;
use vstd::slice::slice_subrange;

verus! {

/// Length of the fixed frame header.
pub const HEADER_LEN: usize = 10;

/// The fields a frame header announces.
#[derive(Debug, Clone, Copy, PartialEq, Eq, Structural)]
pub struct FrameHeader {
    pub stream_id: u32,
    pub msg_type: MessageType,
    pub payload_len: u32,
}

/// Encoder and decoder of frames.
pub struct Codec;

/// The number that four bytes spell, most significant first.
pub open spec fn be_value(b0: u8, b1: u8, b2: u8, b3: u8) -> u32 {
    (b0 * 0x100_0000 + b1 * 0x1_0000 + b2 * 0x100 + b3) as u32
}

/// The big-endian `u32` stored in `s` at `i..i + 4`.
pub open spec fn u32_at(s: Seq<u8>, i: int) -> u32 {
    be_value(s[i], s[i + 1], s[i + 2], s[i + 3])
}

/// The bytes of a frame on the wire. The length field holds the payload
/// length cut to 32 bits, as the encoder writes it.
pub open spec fn spec_encode(f: FrameView) -> Seq<u8> {
    seq![PROTOCOL_VERSION] + be_bytes(f.stream_id) + seq![message_code(f.msg_type)]
        + be_bytes(f.payload.len() as u32) + f.payload
}

/// What the ten header bytes `h` announce, or why they are refused: the
/// version is checked first, then the type byte, then the length.
pub open spec fn spec_decode_header(h: Seq<u8>) -> Result<FrameHeader, ProtocolError> {
    if h[0] != PROTOCOL_VERSION {
        Err(ProtocolError::VersionMismatch { expected: PROTOCOL_VERSION, got: h[0] })
    } else {
        match message_from_code(h[5]) {
            None => Err(ProtocolError::UnknownMessageType(h[5])),
            Some(t) => if u32_at(h, 6) > MAX_FRAME_PAYLOAD {
                Err(ProtocolError::PayloadTooLarge(u32_at(h, 6)))
            } else {
                Ok(FrameHeader { stream_id: u32_at(h, 1), msg_type: t, payload_len: u32_at(h, 6) })
            },
        }
    }
}

/// The outcome of reading one frame from a stream whose remaining bytes are
/// known.
pub ghost enum DecodeOutcome {
    /// The stream ends before a whole header.
    End,
    /// A frame, and the number of bytes it takes.
    Decoded(FrameView, int),
    /// The header is refused with this error.
    Rejected(ProtocolError),
    /// The header is fine, but the stream ends inside the payload.
    Truncated,
}

/// Reading one frame off the stream `s`.
pub open spec fn spec_decode(s: Seq<u8>) -> DecodeOutcome {
    if s.len() < HEADER_LEN {
        DecodeOutcome::End
    } else {
        match spec_decode_header(s.take(HEADER_LEN as int)) {
            Err(e) => DecodeOutcome::Rejected(e),
            Ok(h) => if s.len() < HEADER_LEN + h.payload_len {
                DecodeOutcome::Truncated
            } else {
                DecodeOutcome::Decoded(
                    FrameView {
                        stream_id: h.stream_id,
                        msg_type: h.msg_type,
                        payload: s.subrange(HEADER_LEN as int, HEADER_LEN + h.payload_len),
                    },
                    HEADER_LEN + h.payload_len,
                )
            },
        }
    }
}

/// Whether an executable decoding result is the outcome `o`.
pub open spec fn decode_result_is(
    r: Result<Option<(Frame, usize)>, ProtocolError>,
    o: DecodeOutcome,
) -> bool {
    match o {
        DecodeOutcome::End => r matches Ok(None),
        DecodeOutcome::Decoded(f, n) => r matches Ok(Some((fr, m))) && fr@ == f && m == n,
        DecodeOutcome::Rejected(e) => r == Err::<Option<(Frame, usize)>, ProtocolError>(e),
        DecodeOutcome::Truncated => r matches Err(ProtocolError::Io(_)),
    }
}

/// Four big-endian bytes read back as the number they were written from.
pub proof fn lemma_be_value_of_bytes(n: u32)
    ensures
        be_value(be_bytes(n)[0], be_bytes(n)[1], be_bytes(n)[2], be_bytes(n)[3]) == n,
{
    let b = be_bytes(n);
    assert(b[0] == n / 0x100_0000);
    assert(b[1] == (n / 0x1_0000) % 0x100);
    assert(b[2] == (n / 0x100) % 0x100);
    assert(b[3] == n % 0x100);
    assert(n / 0x100_0000 * 0x100_0000 + (n / 0x1_0000) % 0x100 * 0x1_0000 + (n / 0x100) % 0x100
        * 0x100 + n % 0x100 == n) by (nonlinear_arith);
}

/// A number written back as big-endian bytes gives the bytes it was read from.
pub proof fn lemma_be_bytes_of_value(b0: u8, b1: u8, b2: u8, b3: u8)
    ensures
        be_bytes(be_value(b0, b1, b2, b3)) == seq![b0, b1, b2, b3],
{
    let v: int = b0 * 0x100_0000 + b1 * 0x1_0000 + b2 * 0x100 + b3;
    assert(0 <= v < 0x1_0000_0000) by (nonlinear_arith)
        requires
            v == b0 * 0x100_0000 + b1 * 0x1_0000 + b2 * 0x100 + b3,
            0 <= b0 < 256,
            0 <= b1 < 256,
            0 <= b2 < 256,
            0 <= b3 < 256,
    ;
    assert(v / 0x100_0000 == b0 && (v / 0x1_0000) % 0x100 == b1 && (v / 0x100) % 0x100 == b2
        && v % 0x100 == b3) by (nonlinear_arith)
        requires
            v == b0 * 0x100_0000 + b1 * 0x1_0000 + b2 * 0x100 + b3,
            0 <= b0 < 256,
            0 <= b1 < 256,
            0 <= b2 < 256,
            0 <= b3 < 256,
    ;
    assert(be_bytes(be_value(b0, b1, b2, b3)) =~= seq![b0, b1, b2, b3]);
}

/// Reads a big-endian `u32` from `s` at `i`.
fn read_u32_be(s: &[u8], i: usize) -> (v: u32)
    requires
        i + 4 <= s@.len(),
    ensures
        v == u32_at(s@, i as int),
{
    let b0: u32 = s[i] as u32;
    let b1: u32 = s[i + 1] as u32;
    let b2: u32 = s[i + 2] as u32;
    let b3: u32 = s[i + 3] as u32;
    b0 * 0x100_0000 + b1 * 0x1_0000 + b2 * 0x100 + b3
}

/// `std::io::Error::from(ErrorKind::UnexpectedEof)`: the error a reader
/// reports when a stream ends before a buffer is filled. Its kind is
/// `UnexpectedEof`; no clause states it, the error being opaque here.
#[verifier::external_body]
fn unexpected_eof_error() -> std::io::Error {
    std::io::Error::from(std::io::ErrorKind::UnexpectedEof)
}

impl Codec {
    /// The frame on the wire, or `PayloadTooLarge` when the payload length,
    /// taken as a 32-bit number, exceeds `MAX_FRAME_PAYLOAD`. (A payload
    /// within ten bytes of `isize::MAX` would make the buffer allocation
    /// panic; `requires` leaves it out.)
    pub fn encode(frame: &Frame) -> (r: Result<bytes::BytesMut, ProtocolError>)
        requires
            (bytes_view(frame.payload).len() as u32) > MAX_FRAME_PAYLOAD || bytes_view(
                frame.payload,
            ).len() + HEADER_LEN <= isize::MAX,
        ensures
            (bytes_view(frame.payload).len() as u32) > MAX_FRAME_PAYLOAD ==> r == Err::<
                bytes::BytesMut,
                ProtocolError,
            >(ProtocolError::PayloadTooLarge(bytes_view(frame.payload).len() as u32)),
            (bytes_view(frame.payload).len() as u32) <= MAX_FRAME_PAYLOAD ==> (r matches Ok(b)
                && bytes_mut_view(b) == spec_encode(frame@)),
    {
        let payload = bytes_as_slice(&frame.payload);
        let payload_len: u32 = payload.len() as u32;
        if payload_len > MAX_FRAME_PAYLOAD {
            return Err(ProtocolError::PayloadTooLarge(payload_len));
        }
        let mut buf = bytes_mut_with_capacity(HEADER_LEN + payload.len());
        bytes_mut_put_u8(&mut buf, PROTOCOL_VERSION);
        bytes_mut_put_u32(&mut buf, frame.stream_id);
        bytes_mut_put_u8(&mut buf, frame.msg_type.to_u8());
        bytes_mut_put_u32(&mut buf, payload_len);
        bytes_mut_extend_from_slice(&mut buf, payload);
        Ok(buf)
    }

    /// Reads the ten header bytes of a frame: what they announce, or the
    /// error for a foreign version, an unknown type or an oversized payload.
    pub fn decode_header(header: &[u8; 10]) -> (r: Result<FrameHeader, ProtocolError>)
        ensures
            r == spec_decode_header(header@),
    {
        Self::decode_header_at(header.as_slice())
    }

    fn decode_header_at(s: &[u8]) -> (r: Result<FrameHeader, ProtocolError>)
        requires
            s@.len() >= HEADER_LEN,
        ensures
            r == spec_decode_header(s@.take(HEADER_LEN as int)),
    {
        let version: u8 = s[0];
        if version != PROTOCOL_VERSION {
            return Err(ProtocolError::VersionMismatch { expected: PROTOCOL_VERSION, got: version });
        }
        let stream_id: u32 = read_u32_be(s, 1);
        let msg_type = match MessageType::from_u8(s[5]) {
            Some(t) => t,
            None => {
                return Err(ProtocolError::UnknownMessageType(s[5]));
            },
        };
        let payload_len: u32 = read_u32_be(s, 6);
        if payload_len > MAX_FRAME_PAYLOAD {
            return Err(ProtocolError::PayloadTooLarge(payload_len));
        }
        Ok(FrameHeader { stream_id, msg_type, payload_len })
    }

    /// Reads one frame from a stream whose remaining bytes are `input`:
    /// `None` when the stream ends before a whole header, the frame and the
    /// number of bytes it took, the header's error, or an I/O error when the
    /// stream ends inside the payload.
    pub fn decode(input: &[u8]) -> (r: Result<Option<(Frame, usize)>, ProtocolError>)
        ensures
            decode_result_is(r, spec_decode(input@)),
    {
        if input.len() < HEADER_LEN {
            return Ok(None);
        }
        let header = Self::decode_header_at(input)?;
        let len: usize = header.payload_len as usize;
        if input.len() - HEADER_LEN < len {
            return Err(ProtocolError::Io(unexpected_eof_error()));
        }
        let payload = bytes_copy_from_slice(slice_subrange(input, HEADER_LEN, HEADER_LEN + len));
        let frame = Frame { stream_id: header.stream_id, msg_type: header.msg_type, payload };
        Ok(Some((frame, HEADER_LEN + len)))
    }
}

} // verus!

verus! {

/// A frame goes on the wire as ten header bytes and then its payload, byte
/// for byte: the version 1, the stream id most significant byte first, the
/// type's code, the payload length most significant byte first, and after
/// them exactly the payload.
pub proof fn lemma_encode_layout(f: FrameView)
    requires
        f.payload.len() <= MAX_FRAME_PAYLOAD,
    ensures
        spec_encode(f).len() == 10 + f.payload.len(),
        spec_encode(f)[0] == 1,
        spec_encode(f)[1] * 0x100_0000 + spec_encode(f)[2] * 0x1_0000 + spec_encode(f)[3] * 0x100
            + spec_encode(f)[4] == f.stream_id,
        spec_encode(f)[5] == message_code(f.msg_type),
        spec_encode(f)[6] * 0x100_0000 + spec_encode(f)[7] * 0x1_0000 + spec_encode(f)[8] * 0x100
            + spec_encode(f)[9] == f.payload.len(),
        spec_encode(f).skip(10) == f.payload,
        forall|i: int| 0 <= i < f.payload.len() ==> #[trigger] spec_encode(f)[10 + i] == f.payload[i],
{
    let e = spec_encode(f);
    let len: u32 = f.payload.len() as u32;
    lemma_be_value_of_bytes(f.stream_id);
    lemma_be_value_of_bytes(len);
    assert(e.skip(10) =~= f.payload);
    assert forall|i: int| 0 <= i < f.payload.len() implies #[trigger] e[10 + i] == f.payload[i] by {
        assert(e.skip(10)[i] == e[10 + i]);
    }
}

/// A frame read off a stream is the bytes as they stand: the stream starts
/// with version 1; the stream id is bytes 1 to 4 and the payload length
/// bytes 6 to 9, most significant first; byte 5 is the type's code; the
/// payload is the next that many bytes, verbatim; and the frame takes the
/// header and the payload, no more.
pub proof fn lemma_decode_layout(s: Seq<u8>)
    ensures
        spec_decode(s) matches DecodeOutcome::Decoded(f, n) ==> {
            &&& n == 10 + f.payload.len()
            &&& n <= s.len()
            &&& s[0] == 1
            &&& s[1] * 0x100_0000 + s[2] * 0x1_0000 + s[3] * 0x100 + s[4] == f.stream_id
            &&& s[5] == message_code(f.msg_type)
            &&& s[6] * 0x100_0000 + s[7] * 0x1_0000 + s[8] * 0x100 + s[9] == f.payload.len()
            &&& f.payload == s.subrange(10, n)
            &&& forall|i: int| 0 <= i < f.payload.len() ==> #[trigger] f.payload[i] == s[10 + i]
        },
{
    if let DecodeOutcome::Decoded(f, n) = spec_decode(s) {
        let h = s.take(HEADER_LEN as int);
        lemma_message_code_inverse(h[5]);
        let v1: int = s[1] * 0x100_0000 + s[2] * 0x1_0000 + s[3] * 0x100 + s[4];
        let v6: int = s[6] * 0x100_0000 + s[7] * 0x1_0000 + s[8] * 0x100 + s[9];
        assert(0 <= v1 < 0x1_0000_0000 && 0 <= v6 < 0x1_0000_0000) by (nonlinear_arith)
            requires
                v1 == s[1] * 0x100_0000 + s[2] * 0x1_0000 + s[3] * 0x100 + s[4],
                v6 == s[6] * 0x100_0000 + s[7] * 0x1_0000 + s[8] * 0x100 + s[9],
                0 <= s[1] < 256, 0 <= s[2] < 256, 0 <= s[3] < 256, 0 <= s[4] < 256,
                0 <= s[6] < 256, 0 <= s[7] < 256, 0 <= s[8] < 256, 0 <= s[9] < 256,
        ;
        assert(u32_at(h, 1) == v1);
        assert(u32_at(h, 6) == v6);
    }
}

/// A frame whose payload fits the limit reads back from its own encoding,
/// whatever follows it on the stream, and takes exactly its encoding's bytes.
pub proof fn lemma_decode_encode(f: FrameView, rest: Seq<u8>)
    requires
        f.payload.len() <= MAX_FRAME_PAYLOAD,
    ensures
        spec_decode(spec_encode(f) + rest) == DecodeOutcome::Decoded(f, spec_encode(f).len() as int),
        spec_encode(f).len() == HEADER_LEN + f.payload.len(),
{
    let e = spec_encode(f);
    let s = e + rest;
    let len: u32 = f.payload.len() as u32;
    assert(len as int == f.payload.len());
    let h = s.take(HEADER_LEN as int);
    lemma_be_value_of_bytes(f.stream_id);
    lemma_be_value_of_bytes(len);
    lemma_message_code_roundtrip(f.msg_type);
    assert(h[0] == PROTOCOL_VERSION);
    assert(h[5] == message_code(f.msg_type));
    assert(u32_at(h, 1) == f.stream_id);
    assert(u32_at(h, 6) == len);
    assert(s.subrange(HEADER_LEN as int, HEADER_LEN + len) =~= f.payload);
}

/// A decoded frame is written back as exactly the bytes it was read from,
/// and its payload fits the limit: no two byte strings decode to one frame.
pub proof fn lemma_encode_decode(s: Seq<u8>)
    ensures
        spec_decode(s) matches DecodeOutcome::Decoded(f, n) ==> {
            &&& f.payload.len() <= MAX_FRAME_PAYLOAD
            &&& n <= s.len()
            &&& spec_encode(f) == s.take(n)
        },
{
    if let DecodeOutcome::Decoded(f, n) = spec_decode(s) {
        let h = s.take(HEADER_LEN as int);
        lemma_be_bytes_of_value(h[1], h[2], h[3], h[4]);
        lemma_be_bytes_of_value(h[6], h[7], h[8], h[9]);
        lemma_message_code_inverse(h[5]);
        assert(f.payload.len() == u32_at(h, 6));
        assert(spec_encode(f) =~= s.take(n));
    }
}


} // verus!

verus! {

/// Frames written one after another on a stream.
pub open spec fn spec_encode_all(fs: Seq<FrameView>) -> Seq<u8>
    decreases fs.len(),
{
    if fs.len() == 0 {
        Seq::empty()
    } else {
        spec_encode(fs[0]) + spec_encode_all(fs.drop_first())
    }
}

/// The frames read off a stream one after another until reading stops.
pub open spec fn spec_decode_all(s: Seq<u8>) -> Seq<FrameView>
    decreases s.len(),
{
    match spec_decode(s) {
        DecodeOutcome::Decoded(f, n) => if 0 < n <= s.len() {
            seq![f] + spec_decode_all(s.skip(n))
        } else {
            Seq::empty()
        },
        _ => Seq::empty(),
    }
}

/// Frames written one after another on a stream are read back in the same
/// order, and reading stops cleanly at the end of the stream.
pub proof fn lemma_stream_roundtrip(fs: Seq<FrameView>)
    requires
        forall|i: int| 0 <= i < fs.len() ==> #[trigger] fs[i].payload.len() <= MAX_FRAME_PAYLOAD,
    ensures
        spec_decode_all(spec_encode_all(fs)) == fs,
        spec_decode(spec_encode_all(fs).skip(spec_encode_all(fs).len() as int)) == DecodeOutcome::End,
    decreases fs.len(),
{
    let s = spec_encode_all(fs);
    if fs.len() == 0 {
        assert(spec_decode_all(s) =~= fs);
    } else {
        let rest = spec_encode_all(fs.drop_first());
        let e = spec_encode(fs[0]);
        assert(fs[0].payload.len() <= MAX_FRAME_PAYLOAD);
        lemma_decode_encode(fs[0], rest);
        assert(forall|i: int| 0 <= i < fs.drop_first().len() ==> fs.drop_first()[i] == fs[i + 1]);
        lemma_stream_roundtrip(fs.drop_first());
        assert(s.skip(e.len() as int) =~= rest);
        assert(spec_decode_all(s) =~= seq![fs[0]] + fs.drop_first());
        assert(seq![fs[0]] + fs.drop_first() =~= fs);
    }
}

} // verus!
