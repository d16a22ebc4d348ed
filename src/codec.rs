//! A framed codec: whole frames out of a growing byte buffer, and frames
//! into one.
use vstd::prelude::*;

use bytes::BytesMut;

use crate::buffer::{buf_advance, buf_chunk, buf_len, buf_put_u8, buffer_bytes};
use crate::frame::{frame_bytes, Frame, FrameView};
use crate::laws::{lemma_parse_incomplete_extends, lemma_serialize_of_parsed};
use crate::parser::{parse_spec, ParseError, ParseSizeNeeded};

verus! {

/// Length of the longest frame: a `Long` frame whose length byte is 255.
pub const MAX_FRAME_LEN: usize = 261;

/// What one decode attempt does, given the size hint and the buffer: the new
/// hint, the new buffer, and what it yields.
pub open spec fn decode_spec(needed: nat, buf: Seq<u8>) -> (nat, Seq<u8>, Result<Option<FrameView>, ParseError>) {
    if buf.len() < needed {
        (needed, buf, Ok(None))
    } else {
        match parse_spec(buf) {
            Ok((n, f)) => (0, buf.skip(n as int), Ok(Some(f))),
            Err(ParseError::Incomplete(ParseSizeNeeded::Size(k))) => (k as nat, buf, Ok(None)),
            Err(ParseError::Incomplete(ParseSizeNeeded::Unknown)) => (needed, buf, Ok(None)),
            Err(e) => (needed, buf, Err(e)),
        }
    }
}

/// The view of an executable decode result.
pub open spec fn decoded_view(r: Result<Option<Frame>, ParseError>) -> Result<Option<FrameView>, ParseError> {
    match r {
        Ok(Some(f)) => Ok(Some(f@)),
        Ok(None) => Ok(None),
        Err(e) => Err(e),
    }
}

/// Decodes M-Bus frames from a byte buffer and encodes them into one. It
/// remembers how long the buffer must grow before a decode can succeed.
pub struct MbusCodec {
    needed_bytes: usize,
}

impl MbusCodec {
    /// The buffer length below which a decode is not attempted.
    pub closed spec fn needed(self) -> nat {
        self.needed_bytes as nat
    }

    /// The hint never passes the longest frame.
    #[verifier::type_invariant]
    spec fn hint_bounded(self) -> bool {
        self.needed_bytes <= MAX_FRAME_LEN
    }

    /// The hint, bounded by the longest frame.
    pub fn needed_bytes(&self) -> (r: usize)
        ensures
            r == self.needed(),
            r <= MAX_FRAME_LEN,
    {
        proof {
            use_type_invariant(self);
        }
        self.needed_bytes
    }

    pub fn new() -> (r: Self)
        ensures
            r.needed() == 0,
    {
        MbusCodec { needed_bytes: 0 }
    }

    /// One decode attempt: a frame taken off the front of `src`, or none
    /// yet, or the reason the bytes there are no frame (the buffer is then
    /// left as it was).
    pub fn decode(&mut self, src: &mut BytesMut) -> (r: Result<Option<Frame>, ParseError>)
        ensures
            (final(self).needed(), buffer_bytes(*final(src)), decoded_view(r)) == decode_spec(
                old(self).needed(),
                buffer_bytes(*old(src)),
            ),
            r matches Err(e) ==> !(e is Incomplete),
    {
        if buf_len(src) < self.needed_bytes {
            return Ok(None);
        }
        let ghost buf = buffer_bytes(*src);
        let parsed = Frame::try_parse(buf_chunk(src));
        match parsed {
            Ok((bytes_read, frame)) => {
                proof {
                    lemma_serialize_of_parsed(buf);
                }
                buf_advance(src, bytes_read);
                self.needed_bytes = 0;
                Ok(Some(frame))
            },
            Err(ParseError::Incomplete(ParseSizeNeeded::Size(min))) => {
                proof {
                    lemma_parse_incomplete_extends(buf, Seq::empty());
                }
                self.needed_bytes = min;
                Ok(None)
            },
            Err(ParseError::Incomplete(_)) => Ok(None),
            Err(err) => Err(err),
        }
    }

    /// Appends the encoding of `item` to `dst`.
    pub fn encode(&mut self, item: Frame, dst: &mut BytesMut)
        requires
            item@.encodable(),
            buffer_bytes(*old(dst)).len() + frame_bytes(item@).len() <= isize::MAX,
        ensures
            *final(self) == *old(self),
            buffer_bytes(*final(dst)) == buffer_bytes(*old(dst)) + frame_bytes(item@),
    {
        let ghost start = buffer_bytes(*dst);
        let ghost bytes = frame_bytes(item@);
        let mut it = item.iter_bytes();
        loop
            invariant
                it.frame_view() == item@,
                item@.encodable(),
                bytes == frame_bytes(item@),
                start == buffer_bytes(*old(dst)),
                it.position() <= bytes.len(),
                start.len() + bytes.len() <= isize::MAX,
                buffer_bytes(*dst) == start + bytes.take(it.position() as int),
            decreases bytes.len() - it.position(),
        {
            match it.next() {
                Some(b) => {
                    buf_put_u8(dst, b);
                    assert(buffer_bytes(*dst) =~= start + bytes.take(it.position() as int));
                },
                None => {
                    assert(bytes.take(it.position() as int) =~= bytes);
                    return;
                },
            }
        }
    }
}

impl Default for MbusCodec {
    fn default() -> (r: Self)
        ensures
            r.needed() == 0,
    {
        MbusCodec::new()
    }
}

} // verus!
