//! Trusted interface to the `bytes` crate's growable byte buffers.
//!
//! The reader and writer stage ciphertext and plaintext in
//! [`bytes::BytesMut`] buffers, and the writer's one-time IV arrives as a
//! [`bytes::Bytes`] value.  Both types are opaque to the verifier; their
//! contents are named by the two uninterpreted view functions below, and
//! each method the crate's logic calls is wrapped with a contract stating
//! what the method's source shows.

use vstd::prelude::*;

verus! {

#[verifier::external_type_specification]
#[verifier::external_body]
pub struct ExBytesMut(bytes::BytesMut);

#[verifier::external_type_specification]
#[verifier::external_body]
pub struct ExBytes(bytes::Bytes);

/// The bytes a `BytesMut` buffer currently holds, in order.
pub uninterp spec fn buf_view(b: bytes::BytesMut) -> Seq<u8>;

/// The bytes a `Bytes` value holds, in order.
pub uninterp spec fn bytes_view(b: bytes::Bytes) -> Seq<u8>;

/// Relies on bytes::BytesMut::with_capacity: a fresh buffer of length zero.
#[verifier::external_body]
pub(crate) fn buf_with_capacity(capacity: usize) -> (b: bytes::BytesMut)
    ensures
        buf_view(b) == Seq::<u8>::empty(),
{
    bytes::BytesMut::with_capacity(capacity)
}

/// Relies on bytes::BytesMut::len: the number of bytes held.
#[verifier::external_body]
pub(crate) fn buf_len(b: &bytes::BytesMut) -> (n: usize)
    ensures
        n == buf_view(*b).len(),
{
    b.len()
}

/// Relies on bytes::BytesMut::clear: the buffer's length becomes zero.
#[verifier::external_body]
pub(crate) fn buf_clear(b: &mut bytes::BytesMut)
    ensures
        buf_view(*final(b)) == Seq::<u8>::empty(),
{
    b.clear()
}

/// Relies on bytes::BytesMut::reserve: capacity grows, contents unchanged.
/// Reserving may panic on capacity overflow, so the current length plus the
/// reservation must fit in `usize`.
#[verifier::external_body]
pub(crate) fn buf_reserve(b: &mut bytes::BytesMut, additional: usize)
    requires
        buf_view(*old(b)).len() + additional <= usize::MAX,
    ensures
        buf_view(*final(b)) == buf_view(*old(b)),
{
    b.reserve(additional)
}

/// Relies on bytes::BytesMut::extend_from_slice: appends the slice.
#[verifier::external_body]
pub(crate) fn buf_extend_from_slice(b: &mut bytes::BytesMut, data: &[u8])
    requires
        buf_view(*old(b)).len() + data@.len() <= usize::MAX,
    ensures
        buf_view(*final(b)) == buf_view(*old(b)) + data@,
{
    b.extend_from_slice(data)
}

/// Relies on bytes::BytesMut::extend_from_slice and Bytes's deref to a byte
/// slice: appends the `Bytes` value's contents.
#[verifier::external_body]
pub(crate) fn buf_put_bytes(b: &mut bytes::BytesMut, data: &bytes::Bytes)
    requires
        buf_view(*old(b)).len() + bytes_view(*data).len() <= usize::MAX,
    ensures
        buf_view(*final(b)) == buf_view(*old(b)) + bytes_view(*data),
{
    b.extend_from_slice(data.as_ref())
}

/// Relies on bytes::Buf::advance for BytesMut: drops the first `cnt` bytes.
/// Advancing past the remaining length panics, so `cnt` is bounded.
#[verifier::external_body]
pub(crate) fn buf_advance(b: &mut bytes::BytesMut, cnt: usize)
    requires
        cnt <= buf_view(*old(b)).len(),
    ensures
        buf_view(*final(b)) == buf_view(*old(b)).skip(cnt as int),
{
    bytes::Buf::advance(b, cnt)
}

/// Relies on BytesMut's AsRef impl: a view of the whole buffer as a slice.
#[verifier::external_body]
pub(crate) fn buf_as_slice(b: &bytes::BytesMut) -> (s: &[u8])
    ensures
        s@ == buf_view(*b),
{
    b.as_ref()
}

/// Relies on bytes::Bytes::copy_from_slice: a `Bytes` value holding a
/// copy of the slice.
#[verifier::external_body]
pub(crate) fn bytes_copy_from_slice(data: &[u8]) -> (b: bytes::Bytes)
    ensures
        bytes_view(b) == data@,
{
    bytes::Bytes::copy_from_slice(data)
}

/// Relies on bytes::Bytes::len: the number of bytes held.
#[verifier::external_body]
pub(crate) fn bytes_len(b: &bytes::Bytes) -> (n: usize)
    ensures
        n == bytes_view(*b).len(),
{
    b.len()
}

} // verus!
