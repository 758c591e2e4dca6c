//! The byte containers of the `bytes` crate that frames travel in, with the
//! contracts this library relies on. Nothing here is proved: each item below
//! states what the `bytes` source shows of the call it makes.
use vstd::prelude::*;

verus! {

#[verifier::external_type_specification]
#[verifier::external_body]
pub struct ExBytes(bytes::Bytes);

#[verifier::external_type_specification]
#[verifier::external_body]
pub struct ExBytesMut(bytes::BytesMut);

/// The bytes a `bytes::Bytes` holds, in order.
pub uninterp spec fn bytes_view(b: bytes::Bytes) -> Seq<u8>;

/// The bytes a `bytes::BytesMut` holds, in order (its spare capacity excluded).
pub uninterp spec fn bytes_mut_view(b: bytes::BytesMut) -> Seq<u8>;

/// `<bytes::Bytes as Clone>::clone`: another handle on the same contents.
pub assume_specification[ <bytes::Bytes as Clone>::clone ](b: &bytes::Bytes) -> (r: bytes::Bytes)
    ensures
        bytes_view(r) == bytes_view(*b),
;

/// `bytes::Bytes::deref`: the contents as a slice. A Rust slice never spans
/// more than `isize::MAX` bytes, which the second clause states.
#[verifier::external_body]
pub fn bytes_as_slice(b: &bytes::Bytes) -> (s: &[u8])
    ensures
        s@ == bytes_view(*b),
        s@.len() <= isize::MAX,
{
    std::ops::Deref::deref(b)
}

/// `bytes::Bytes::copy_from_slice`: a new `Bytes` holding a copy of `data`.
#[verifier::external_body]
pub fn bytes_copy_from_slice(data: &[u8]) -> (b: bytes::Bytes)
    ensures
        bytes_view(b) == data@,
{
    bytes::Bytes::copy_from_slice(data)
}

/// `bytes::BytesMut::with_capacity`: an empty buffer. It allocates through
/// `Vec::with_capacity`, which panics above `isize::MAX` bytes.
#[verifier::external_body]
pub fn bytes_mut_with_capacity(capacity: usize) -> (b: bytes::BytesMut)
    requires
        capacity <= isize::MAX,
    ensures
        bytes_mut_view(b) == Seq::<u8>::empty(),
{
    bytes::BytesMut::with_capacity(capacity)
}

/// `BufMut::put_u8` on a `BytesMut`: appends one byte (through
/// `extend_from_slice`, whose growth panics past `isize::MAX` bytes).
#[verifier::external_body]
pub fn bytes_mut_put_u8(b: &mut bytes::BytesMut, n: u8)
    requires
        bytes_mut_view(*old(b)).len() + 1 <= isize::MAX,
    ensures
        bytes_mut_view(*final(b)) == bytes_mut_view(*old(b)).push(n),
{
    bytes::BufMut::put_u8(b, n)
}

/// The four bytes of `n`, most significant first.
pub open spec fn be_bytes(n: u32) -> Seq<u8> {
    seq![
        (n / 0x100_0000) as u8,
        ((n / 0x1_0000) % 0x100) as u8,
        ((n / 0x100) % 0x100) as u8,
        (n % 0x100) as u8,
    ]
}

/// `BufMut::put_u32` on a `BytesMut`: appends `n` in big-endian byte order
/// (`put_slice(&n.to_be_bytes())`).
#[verifier::external_body]
pub fn bytes_mut_put_u32(b: &mut bytes::BytesMut, n: u32)
    requires
        bytes_mut_view(*old(b)).len() + 4 <= isize::MAX,
    ensures
        bytes_mut_view(*final(b)) == bytes_mut_view(*old(b)) + be_bytes(n),
{
    bytes::BufMut::put_u32(b, n)
}

/// `bytes::BytesMut::extend_from_slice`: appends a copy of `extend`.
#[verifier::external_body]
pub fn bytes_mut_extend_from_slice(b: &mut bytes::BytesMut, extend: &[u8])
    requires
        bytes_mut_view(*old(b)).len() + extend@.len() <= isize::MAX,
    ensures
        bytes_mut_view(*final(b)) == bytes_mut_view(*old(b)) + extend@,
{
    b.extend_from_slice(extend)
}

} // verus!
