//! Growable byte buffer used for all binary emission, backed by
//! `bytes::BytesMut`.
//!
//! The contents of a buffer are modelled by the uninterpreted function
//! [`buf_view`]; every trusted wrapper below states how the call it makes
//! changes that model.

use bytes::BufMut;
use vstd::prelude::*;

verus! {

/// Upper bound kept on every buffer so that the growth performed by
/// `bytes::BytesMut` stays far below `isize::MAX` and cannot panic.
pub const BUF_CAP: usize = 0x1000_0000;

#[verifier::external_type_specification]
#[verifier::external_body]
pub struct ExBytesMut(bytes::BytesMut);

/// The bytes held by a `bytes::BytesMut`, in order.
pub uninterp spec fn buf_view(b: bytes::BytesMut) -> Seq<u8>;

/// Big-endian byte encoding of a 16-bit integer.
pub open spec fn be16(x: u16) -> Seq<u8> {
    seq![(x >> 8) as u8, x as u8]
}

/// Big-endian byte encoding of a 32-bit integer.
pub open spec fn be32(x: u32) -> Seq<u8> {
    seq![(x >> 24) as u8, (x >> 16) as u8, (x >> 8) as u8, x as u8]
}

/// Relies on `bytes::BytesMut::new`: the new buffer is empty.
#[verifier::external_body]
pub(crate) fn buf_new() -> (b: bytes::BytesMut)
    ensures
        buf_view(b) == Seq::<u8>::empty(),
{
    bytes::BytesMut::new()
}

/// Relies on `bytes::BytesMut::len`: the number of bytes in the buffer.
#[verifier::external_body]
pub(crate) fn buf_len(b: &bytes::BytesMut) -> (n: usize)
    ensures
        n == buf_view(*b).len(),
{
    b.len()
}

/// Relies on `bytes::BufMut::put_u8` for `BytesMut`: appends one byte.
#[verifier::external_body]
pub(crate) fn put_u8(b: &mut bytes::BytesMut, x: u8)
    requires
        buf_view(*old(b)).len() + 1 <= BUF_CAP,
    ensures
        buf_view(*final(b)) == buf_view(*old(b)).push(x),
{
    b.put_u8(x)
}

/// Relies on `bytes::BufMut::put_u16` for `BytesMut`: appends two bytes in
/// big-endian order.
#[verifier::external_body]
pub(crate) fn put_u16(b: &mut bytes::BytesMut, x: u16)
    requires
        buf_view(*old(b)).len() + 2 <= BUF_CAP,
    ensures
        buf_view(*final(b)) == buf_view(*old(b)) + be16(x),
{
    b.put_u16(x)
}

/// Relies on `bytes::BufMut::put_u32` for `BytesMut`: appends four bytes in
/// big-endian order.
#[verifier::external_body]
pub(crate) fn put_u32(b: &mut bytes::BytesMut, x: u32)
    requires
        buf_view(*old(b)).len() + 4 <= BUF_CAP,
    ensures
        buf_view(*final(b)) == buf_view(*old(b)) + be32(x),
{
    b.put_u32(x)
}

/// Relies on `bytes::BufMut::put_slice` for `BytesMut`: appends the whole
/// slice.
#[verifier::external_body]
pub(crate) fn put_slice(b: &mut bytes::BytesMut, s: &[u8])
    requires
        buf_view(*old(b)).len() + s@.len() <= BUF_CAP,
    ensures
        buf_view(*final(b)) == buf_view(*old(b)) + s@,
{
    b.put_slice(s)
}

/// Relies on `bytes::BytesMut`'s deref to a byte slice together with
/// `slice::to_vec`: copies the buffer's bytes out in order.
#[verifier::external_body]
pub(crate) fn buf_to_vec(b: &bytes::BytesMut) -> (v: Vec<u8>)
    ensures
        v@ == buf_view(*b),
{
    b.to_vec()
}

} // verus!
