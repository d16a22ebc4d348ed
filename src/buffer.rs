//! The read and write buffer of the codec: `bytes::BytesMut`, seen through
//! the bytes it holds.
use vstd::prelude::*;

use bytes::{Buf, BufMut, BytesMut};

verus! {

#[verifier::external_type_specification]
#[verifier::external_body]
pub struct ExBytesMut(BytesMut);

/// The bytes that a buffer holds, in order.
pub uninterp spec fn buffer_bytes(b: BytesMut) -> Seq<u8>;

/// Relies on `BytesMut::len`: the number of bytes held.
#[verifier::external_body]
pub(crate) fn buf_len(b: &BytesMut) -> (r: usize)
    ensures
        r == buffer_bytes(*b).len(),
{
    b.len()
}

/// Relies on `Buf::chunk` of `BytesMut`: all the bytes held, as one slice.
#[verifier::external_body]
pub(crate) fn buf_chunk(b: &BytesMut) -> (r: &[u8])
    ensures
        r@ == buffer_bytes(*b),
{
    b.chunk()
}

/// Relies on `Buf::advance` of `BytesMut`: drops the first `n` bytes; it
/// panics when fewer are held.
#[verifier::external_body]
pub(crate) fn buf_advance(b: &mut BytesMut, n: usize)
    requires
        n <= buffer_bytes(*old(b)).len(),
    ensures
        buffer_bytes(*final(b)) == buffer_bytes(*old(b)).skip(n as int),
{
    b.advance(n)
}

/// Relies on `BufMut::put_u8` of `BytesMut`: appends one byte; it panics
/// when the length would pass `isize::MAX`.
#[verifier::external_body]
pub(crate) fn buf_put_u8(b: &mut BytesMut, x: u8)
    requires
        buffer_bytes(*old(b)).len() < isize::MAX,
    ensures
        buffer_bytes(*final(b)) == buffer_bytes(*old(b)).push(x),
{
    b.put_u8(x)
}

} // verus!
