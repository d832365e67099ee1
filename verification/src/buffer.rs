//! The byte buffer that encoders fill and decoders drain.
use tokio_util::bytes::Buf;
use tokio_util::bytes::BytesMut;
use vstd::prelude::*;

verus! {

/// `bytes::BytesMut`, a growable byte buffer whose front can be cut off.
#[verifier::external_type_specification]
#[verifier::external_body]
pub struct ExBytesMut(tokio_util::bytes::BytesMut);

/// The bytes that a buffer holds, front first.
pub uninterp spec fn buffer_bytes(buffer: BytesMut) -> Seq<u8>;

/// `bytes::BytesMut::extend_from_slice`: appends the bytes at the end. The buffer's length must
/// not grow beyond what a `usize` counts.
pub assume_specification[ tokio_util::bytes::BytesMut::extend_from_slice ](
    this: &mut BytesMut,
    extend: &[u8],
)
    requires
        buffer_bytes(*old(this)).len() + extend@.len() <= usize::MAX,
    ensures
        buffer_bytes(*final(this)) == buffer_bytes(*old(this)) + extend@,
;

/// `bytes::BytesMut::split_to`: cuts the first `at` bytes off and returns them.
pub assume_specification[ tokio_util::bytes::BytesMut::split_to ](
    this: &mut BytesMut,
    at: usize,
) -> (front: BytesMut)
    requires
        at <= buffer_bytes(*old(this)).len(),
    ensures
        buffer_bytes(front) == buffer_bytes(*old(this)).take(at as int),
        buffer_bytes(*final(this)) == buffer_bytes(*old(this)).skip(at as int),
;

/// `<bytes::BytesMut as bytes::Buf>::advance`: drops the first `count` bytes.
#[verifier::external_body]
pub(crate) fn advance(buffer: &mut BytesMut, count: usize)
    requires
        count <= buffer_bytes(*old(buffer)).len(),
    ensures
        buffer_bytes(*final(buffer)) == buffer_bytes(*old(buffer)).skip(count as int),
{
    buffer.advance(count)
}

/// `<bytes::BytesMut as Deref>::deref`: the bytes of the buffer as a slice.
#[verifier::external_body]
pub(crate) fn as_slice(buffer: &BytesMut) -> (bytes: &[u8])
    ensures
        bytes@ == buffer_bytes(*buffer),
{
    &buffer[..]
}

} // verus!
