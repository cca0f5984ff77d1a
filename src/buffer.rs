//! The accumulation buffer, held in a `bytes::BytesMut`.

use bytes::BytesMut;
use vstd::prelude::*;

verus! {

#[verifier::external_type_specification]
#[verifier::external_body]
pub struct ExBytesMut(BytesMut);

/// The bytes that a `BytesMut` holds, in order.
pub uninterp spec fn bytes_of(b: BytesMut) -> Seq<u8>;

/// Relies on `BytesMut::with_capacity`: the new buffer holds no bytes.
#[verifier::external_body]
pub(crate) fn new_buffer(capacity: usize) -> (r: BytesMut)
    ensures
        bytes_of(r) == Seq::<u8>::empty(),
{
    BytesMut::with_capacity(capacity)
}

/// Relies on `BytesMut::len`: the number of bytes held.
#[verifier::external_body]
pub(crate) fn buffer_len(b: &BytesMut) -> (r: usize)
    ensures
        r == bytes_of(*b).len(),
{
    b.len()
}

/// Relies on `BytesMut::extend_from_slice`: the bytes are appended at the end.
/// It panics when the new length overflows `usize`, hence the `requires`.
#[verifier::external_body]
pub(crate) fn buffer_append(b: &mut BytesMut, data: &[u8])
    requires
        bytes_of(*old(b)).len() + data@.len() <= usize::MAX,
    ensures
        bytes_of(*final(b)) == bytes_of(*old(b)) + data@,
{
    b.extend_from_slice(data)
}

/// Relies on `BytesMut::clear`: afterwards the buffer holds no bytes.
#[verifier::external_body]
pub(crate) fn buffer_clear(b: &mut BytesMut)
    ensures
        bytes_of(*final(b)) == Seq::<u8>::empty(),
{
    b.clear()
}

/// Relies on `BytesMut`'s `AsRef<[u8]>`: the slice of the bytes held.
#[verifier::external_body]
pub(crate) fn buffer_bytes(b: &BytesMut) -> (r: &[u8])
    ensures
        r@ == bytes_of(*b),
{
    b.as_ref()
}

} // verus!
