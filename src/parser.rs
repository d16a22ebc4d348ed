//! Streaming parser: bytes to a frame, or why not yet or not at all.
use vstd::prelude::*;

use crate::checksum::{calculate_checksum, checksum};
use crate::frame::{Frame, FrameView, FRAME_END, LONG_START, SHORT_START, SINGLE_CHAR};

verus! {

/// How many bytes a parse needs before it can decide.
#[derive(Debug, PartialEq, Eq, Clone, Copy, Structural)]
pub enum ParseSizeNeeded {
    Unknown,
    /// A lower bound on the total length of the input.
    Size(usize),
}

/// Why the bytes do not form a frame.
#[derive(Debug, PartialEq, Eq, Clone, Copy, Structural)]
pub enum FrameParseError {
    /// The frame is complete but its checksum or end byte is wrong.
    MalformedChecksum,
    /// The two length bytes differ, or announce less than three bytes.
    InconsistentLengthValues,
    /// A byte that no frame has at its place.
    Unrecognized,
}

/// Outcome of a parse that produced no frame.
#[derive(Debug, PartialEq, Eq, Clone, Copy, Structural)]
pub enum ParseError {
    /// The input is a prefix of a possible frame.
    Incomplete(ParseSizeNeeded),
    /// No frame starts with the first byte.
    Error(FrameParseError),
    /// A frame starts with the first byte but is broken.
    Failure(FrameParseError),
}

impl ParseError {
    pub open spec fn is_incomplete(self) -> bool {
        self is Incomplete
    }
}

/// What parsing `b` yields: the number of bytes the frame occupies and the
/// frame, or the reason there is none.
pub open spec fn parse_spec(b: Seq<u8>) -> Result<(nat, FrameView), ParseError> {
    if b.len() == 0 {
        Err(ParseError::Incomplete(ParseSizeNeeded::Size(1)))
    } else if b[0] == SINGLE_CHAR {
        Ok((1, FrameView::Single))
    } else if b[0] == SHORT_START {
        if b.len() < 5 {
            Err(ParseError::Incomplete(ParseSizeNeeded::Size(5)))
        } else if b[3] != checksum(seq![b[1], b[2]]) || b[4] != FRAME_END {
            Err(ParseError::Failure(FrameParseError::MalformedChecksum))
        } else {
            Ok((5, FrameView::Short { control: b[1], address: b[2] }))
        }
    } else if b[0] == LONG_START {
        if b.len() < 4 {
            Err(ParseError::Incomplete(ParseSizeNeeded::Size(4)))
        } else if b[1] != b[2] || b[1] < 3 {
            Err(ParseError::Failure(FrameParseError::InconsistentLengthValues))
        } else if b[3] != LONG_START {
            Err(ParseError::Failure(FrameParseError::Unrecognized))
        } else {
            let l = b[1] as int;
            let total = l + 6;
            if b.len() < total {
                Err(ParseError::Incomplete(ParseSizeNeeded::Size(total as usize)))
            } else if b[total - 2] != checksum(b.subrange(4, 4 + l)) || b[total - 1] != FRAME_END {
                Err(ParseError::Failure(FrameParseError::MalformedChecksum))
            } else if l == 3 {
                Ok((total as nat, FrameView::Control { control: b[4], address: b[5], control_information: b[6] }))
            } else {
                Ok(
                    (
                        total as nat,
                        FrameView::Long {
                            control: b[4],
                            address: b[5],
                            control_information: b[6],
                            data: b.subrange(7, 4 + l),
                        },
                    ),
                )
            }
        }
    } else {
        Err(ParseError::Error(FrameParseError::Unrecognized))
    }
}

/// The view of an executable parse result.
pub open spec fn parsed_view(r: Result<(usize, Frame), ParseError>) -> Result<(nat, FrameView), ParseError> {
    match r {
        Ok((n, f)) => Ok((n as nat, f@)),
        Err(e) => Err(e),
    }
}

impl Frame {
    /// Parses the frame at the start of `bytes`; on success also says how
    /// many bytes it occupies.
    pub fn try_parse(bytes: &[u8]) -> (r: Result<(usize, Frame), ParseError>)
        ensures
            parsed_view(r) == parse_spec(bytes@),
    {
        let n = bytes.len();
        if n == 0 {
            return Err(ParseError::Incomplete(ParseSizeNeeded::Size(1)));
        }
        let start = bytes[0];
        if start == SINGLE_CHAR {
            Ok((1, Frame::Single))
        } else if start == SHORT_START {
            if n < 5 {
                return Err(ParseError::Incomplete(ParseSizeNeeded::Size(5)));
            }
            let pair = [bytes[1], bytes[2]];
            proof {
                assert(pair@ =~= seq![bytes@[1], bytes@[2]]);
            }
            if bytes[3] != calculate_checksum(&pair) || bytes[4] != FRAME_END {
                return Err(ParseError::Failure(FrameParseError::MalformedChecksum));
            }
            Ok((5, Frame::Short { control: bytes[1], address: bytes[2] }))
        } else if start == LONG_START {
            if n < 4 {
                return Err(ParseError::Incomplete(ParseSizeNeeded::Size(4)));
            }
            if bytes[1] != bytes[2] || bytes[1] < 3 {
                return Err(ParseError::Failure(FrameParseError::InconsistentLengthValues));
            }
            if bytes[3] != LONG_START {
                return Err(ParseError::Failure(FrameParseError::Unrecognized));
            }
            let l = bytes[1] as usize;
            let total = l + 6;
            if n < total {
                return Err(ParseError::Incomplete(ParseSizeNeeded::Size(total)));
            }
            let (head, _) = bytes.split_at(4 + l);
            let (_, body) = head.split_at(4);
            proof {
                assert(body@ =~= bytes@.subrange(4, 4 + l as int));
            }
            if bytes[total - 2] != calculate_checksum(body) || bytes[total - 1] != FRAME_END {
                return Err(ParseError::Failure(FrameParseError::MalformedChecksum));
            }
            if l == 3 {
                Ok((total, Frame::Control { control: bytes[4], address: bytes[5], control_information: bytes[6] }))
            } else {
                let (_, payload) = head.split_at(7);
                let data = vstd::slice::slice_to_vec(payload);
                proof {
                    assert(data@ =~= bytes@.subrange(7, 4 + l as int));
                }
                Ok(
                    (
                        total,
                        Frame::Long {
                            control: bytes[4],
                            address: bytes[5],
                            control_information: bytes[6],
                            data,
                        },
                    ),
                )
            }
        } else {
            Err(ParseError::Error(FrameParseError::Unrecognized))
        }
    }

    /// Parses the frame at the start of `bytes`, ignoring what follows it.
    pub fn from_bytes(bytes: &[u8]) -> (r: Result<Frame, ParseError>)
        ensures
            match parse_spec(bytes@) {
                Ok((_, f)) => r matches Ok(g) && g@ == f,
                Err(e) => r == Err::<Frame, ParseError>(e),
            },
    {
        let (_, frame) = Self::try_parse(bytes)?;
        Ok(frame)
    }
}

impl<'a> TryFrom<&'a [u8]> for Frame {
    type Error = ParseError;

    fn try_from(bytes: &'a [u8]) -> (r: Result<Frame, ParseError>) {
        Frame::from_bytes(bytes)
    }
}

impl<'a> vstd::std_specs::convert::TryFromSpecImpl<&'a [u8]> for Frame {
    /// A frame is pinned down by its view only up to the identity of its
    /// payload `Vec`, so no claim is made through the trait; `from_bytes`
    /// states what `try_from` returns.
    open spec fn obeys_try_from_spec() -> bool {
        false
    }

    open spec fn try_from_spec(bytes: &'a [u8]) -> Result<Frame, ParseError> {
        match parse_spec(bytes@) {
            Ok((_, f)) => Ok(choose|g: Frame| g@ == f),
            Err(e) => Err(e),
        }
    }
}

/// Parses the frame at the start of `i` and hands back the bytes after it.
pub fn parse_frame(i: &[u8]) -> (r: Result<(&[u8], Frame), ParseError>)
    ensures
        match parse_spec(i@) {
            Ok((n, f)) => r matches Ok((rest, g)) && g@ == f && rest@ == i@.skip(n as int),
            Err(e) => r == Err::<(&[u8], Frame), ParseError>(e),
        },
{
    let (n, frame) = Frame::try_parse(i)?;
    let (_, rest) = i.split_at(n);
    Ok((rest, frame))
}

} // verus!
