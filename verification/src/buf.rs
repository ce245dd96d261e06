//! Byte buffers of the `bytes` crate, as used by the codec stack.
//!
//! The codec layers read from and write into `bytes::BytesMut`. Verus
//! cannot look inside that type, so this module declares it, names its
//! contents as a sequence of bytes, and wraps each method the codecs
//! call in a small trusted function whose contract states what the
//! method does to the contents.

use vstd::prelude::*;
use bytes::{Buf, BufMut, BytesMut};

verus! {

#[verifier::external_type_specification]
#[verifier::external_body]
pub struct ExBytesMut(BytesMut);

/// The bytes a `BytesMut` buffer currently holds, front to back.
pub uninterp spec fn buf_data(b: BytesMut) -> Seq<u8>;

/// Relies on BytesMut::new: creates a buffer that holds no bytes.
#[verifier::external_body]
pub(crate) fn buf_new() -> (r: BytesMut)
    ensures
        buf_data(r) == Seq::<u8>::empty(),
{
    BytesMut::new()
}

/// Relies on BytesMut::len: the number of bytes the buffer holds.
#[verifier::external_body]
pub(crate) fn buf_len(b: &BytesMut) -> (r: usize)
    ensures
        r == buf_data(*b).len(),
{
    b.len()
}

/// Relies on the Deref impl of BytesMut to `[u8]`: reads the byte at
/// index `i` without consuming anything.
#[verifier::external_body]
pub(crate) fn buf_byte_at(b: &BytesMut, i: usize) -> (r: u8)
    requires
        i < buf_data(*b).len(),
    ensures
        r == buf_data(*b)[i as int],
{
    b[i]
}

/// Relies on BufMut::put_u8: appends one byte at the back.
#[verifier::external_body]
pub(crate) fn buf_put_u8(b: &mut BytesMut, v: u8)
    ensures
        buf_data(*final(b)) == buf_data(*old(b)).push(v),
{
    b.put_u8(v);
}

/// Relies on BufMut::put_u16: appends two bytes, big-endian.
#[verifier::external_body]
pub(crate) fn buf_put_u16(b: &mut BytesMut, v: u16)
    ensures
        buf_data(*final(b)) == buf_data(*old(b)) + crate::enc_u16(v),
{
    b.put_u16(v);
}

/// Relies on BytesMut::extend_from_slice: appends a copy of `s`.
#[verifier::external_body]
pub(crate) fn buf_put_slice(b: &mut BytesMut, s: &[u8])
    ensures
        buf_data(*final(b)) == buf_data(*old(b)) + s@,
{
    b.extend_from_slice(s);
}

/// Relies on BytesMut::extend_from_slice and the AsRef impl of
/// BytesMut: appends a copy of the bytes another buffer holds.
#[verifier::external_body]
pub(crate) fn buf_put_buf(b: &mut BytesMut, other: &BytesMut)
    ensures
        buf_data(*final(b)) == buf_data(*old(b)) + buf_data(*other),
{
    b.extend_from_slice(other.as_ref());
}

/// Relies on Buf::get_u8: removes and returns the first byte.
#[verifier::external_body]
pub(crate) fn buf_get_u8(b: &mut BytesMut) -> (r: u8)
    requires
        buf_data(*old(b)).len() >= 1,
    ensures
        r == buf_data(*old(b))[0],
        buf_data(*final(b)) == buf_data(*old(b)).skip(1),
{
    b.get_u8()
}

/// Relies on Buf::get_u16: removes the first two bytes and returns
/// them as a big-endian 16-bit value.
#[verifier::external_body]
pub(crate) fn buf_get_u16(b: &mut BytesMut) -> (r: u16)
    requires
        buf_data(*old(b)).len() >= 2,
    ensures
        r == crate::be16_at(buf_data(*old(b)), 0),
        buf_data(*final(b)) == buf_data(*old(b)).skip(2),
{
    b.get_u16()
}

/// Relies on BytesMut::split_to: removes the first `at` bytes and
/// returns them as a buffer of their own.
#[verifier::external_body]
pub(crate) fn buf_split_to(b: &mut BytesMut, at: usize) -> (r: BytesMut)
    requires
        at <= buf_data(*old(b)).len(),
    ensures
        buf_data(r) == buf_data(*old(b)).take(at as int),
        buf_data(*final(b)) == buf_data(*old(b)).skip(at as int),
{
    b.split_to(at)
}

} // verus!
