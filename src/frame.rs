//! The four M-Bus link-layer frame shapes and their byte encoding.
use vstd::prelude::*;

use crate::checksum::{calculate_checksum, checksum, lemma_checksum_append};

verus! {

/// The one byte of a `Single` (acknowledgement) frame.
pub const SINGLE_CHAR: u8 = 0xE5;

/// Start byte of a `Short` frame.
pub const SHORT_START: u8 = 0x10;

/// Start byte, repeated after the length bytes, of `Control` and `Long` frames.
pub const LONG_START: u8 = 0x68;

/// Last byte of every frame but `Single`.
pub const FRAME_END: u8 = 0x16;

/// Largest payload that a `Long` frame carries: its length byte holds
/// control, address and control information besides the payload.
pub const MAX_DATA_LEN: usize = 252;

/// A link-layer frame.
#[derive(Debug, PartialEq, Eq, Clone)]
pub enum Frame {
    /// The acknowledgement, one byte `E5`.
    Single,
    Short { control: u8, address: u8 },
    /// A `Long`-style frame without payload.
    Control { control: u8, address: u8, control_information: u8 },
    Long { control: u8, address: u8, control_information: u8, data: Vec<u8> },
}

/// A frame as a mathematical value: the payload of `Long` as a sequence.
pub enum FrameView {
    Single,
    Short { control: u8, address: u8 },
    Control { control: u8, address: u8, control_information: u8 },
    Long { control: u8, address: u8, control_information: u8, data: Seq<u8> },
}

impl View for Frame {
    type V = FrameView;

    open spec fn view(&self) -> FrameView {
        match self {
            Frame::Single => FrameView::Single,
            Frame::Short { control, address } => FrameView::Short {
                control: *control,
                address: *address,
            },
            Frame::Control { control, address, control_information } => FrameView::Control {
                control: *control,
                address: *address,
                control_information: *control_information,
            },
            Frame::Long { control, address, control_information, data } => FrameView::Long {
                control: *control,
                address: *address,
                control_information: *control_information,
                data: data@,
            },
        }
    }
}

impl FrameView {
    /// The frame has an encoding: a `Long` payload fits the length byte.
    pub open spec fn encodable(self) -> bool {
        match self {
            FrameView::Long { data, .. } => data.len() <= MAX_DATA_LEN,
            _ => true,
        }
    }

    /// The frame is structurally valid: besides being encodable, a `Long`
    /// frame carries at least one payload byte (with none it is a `Control`).
    pub open spec fn valid(self) -> bool {
        match self {
            FrameView::Long { data, .. } => 1 <= data.len() <= MAX_DATA_LEN,
            _ => true,
        }
    }
}

/// The bytes covered by the checksum of a `Control` or `Long` frame.
pub open spec fn long_body(control: u8, address: u8, ci: u8, data: Seq<u8>) -> Seq<u8> {
    seq![control, address, ci] + data
}

/// The wire encoding of a frame.
pub open spec fn frame_bytes(f: FrameView) -> Seq<u8> {
    match f {
        FrameView::Single => seq![SINGLE_CHAR],
        FrameView::Short { control, address } => seq![
            SHORT_START,
            control,
            address,
            checksum(seq![control, address]),
            FRAME_END,
        ],
        FrameView::Control { control, address, control_information } => seq![
            LONG_START,
            3u8,
            3u8,
            LONG_START,
            control,
            address,
            control_information,
            checksum(seq![control, address, control_information]),
            FRAME_END,
        ],
        FrameView::Long { control, address, control_information, data } => {
            let l = (data.len() + 3) as u8;
            let body = long_body(control, address, control_information, data);
            seq![LONG_START, l, l, LONG_START] + body + seq![checksum(body), FRAME_END]
        },
    }
}

/// The bytes of a frame, handed out one at a time.
pub struct FrameIterator<'a> {
    frame: &'a Frame,
    index: usize,
}

impl<'a> FrameIterator<'a> {
    /// The frame whose bytes are handed out.
    pub closed spec fn frame_view(self) -> FrameView {
        self.frame@
    }

    /// How many bytes have been handed out.
    pub closed spec fn position(self) -> nat {
        self.index as nat
    }

    pub fn new(frame: &'a Frame) -> (r: Self)
        ensures
            r.frame_view() == frame@,
            r.position() == 0,
    {
        FrameIterator { frame, index: 0 }
    }

    /// The next byte of the encoding, or `None` once all were handed out.
    pub fn next(&mut self) -> (r: Option<u8>)
        requires
            old(self).frame_view().encodable(),
        ensures
            final(self).frame_view() == old(self).frame_view(),
            old(self).position() < frame_bytes(old(self).frame_view()).len() ==> {
                &&& r == Some(frame_bytes(old(self).frame_view())[old(self).position() as int])
                &&& final(self).position() == old(self).position() + 1
            },
            old(self).position() >= frame_bytes(old(self).frame_view()).len() ==> {
                &&& r is None
                &&& final(self).position() == old(self).position()
            },
    {
        let b: u8 = match self.frame {
            Frame::Single => {
                if self.index == 0 {
                    SINGLE_CHAR
                } else {
                    return None;
                }
            },
            Frame::Short { control, address } => {
                if self.index == 0 {
                    SHORT_START
                } else if self.index == 1 {
                    *control
                } else if self.index == 2 {
                    *address
                } else if self.index == 3 {
                    let pair = [*control, *address];
                    proof {
                        assert(pair@ =~= seq![*control, *address]);
                    }
                    calculate_checksum(&pair)
                } else if self.index == 4 {
                    FRAME_END
                } else {
                    return None;
                }
            },
            Frame::Control { control, address, control_information } => {
                if self.index == 0 || self.index == 3 {
                    LONG_START
                } else if self.index == 1 || self.index == 2 {
                    3
                } else if self.index == 4 {
                    *control
                } else if self.index == 5 {
                    *address
                } else if self.index == 6 {
                    *control_information
                } else if self.index == 7 {
                    let head = [*control, *address, *control_information];
                    proof {
                        assert(head@ =~= seq![*control, *address, *control_information]);
                    }
                    calculate_checksum(&head)
                } else if self.index == 8 {
                    FRAME_END
                } else {
                    return None;
                }
            },
            Frame::Long { control, address, control_information, data } => {
                let n = data.len();
                let ghost body = long_body(*control, *address, *control_information, data@);
                let ghost bytes = frame_bytes(self.frame@);
                proof {
                    let l = (data@.len() + 3) as u8;
                    assert(bytes =~= seq![LONG_START, l, l, LONG_START] + body + seq![
                        checksum(body),
                        FRAME_END,
                    ]);
                }
                if self.index == 0 || self.index == 3 {
                    LONG_START
                } else if self.index == 1 || self.index == 2 {
                    (n + 3) as u8
                } else if self.index == 4 {
                    *control
                } else if self.index == 5 {
                    *address
                } else if self.index == 6 {
                    *control_information
                } else if self.index <= 6 + n {
                    data[self.index - 7]
                } else if self.index == 7 + n {
                    let head = [*control, *address, *control_information];
                    let c = calculate_checksum(&head).wrapping_add(calculate_checksum(data.as_slice()));
                    proof {
                        assert(head@ =~= seq![*control, *address, *control_information]);
                        lemma_checksum_append(head@, data@);
                    }
                    c
                } else if self.index == 8 + n {
                    FRAME_END
                } else {
                    return None;
                }
            },
        };
        self.index = self.index + 1;
        Some(b)
    }
}

impl Frame {
    /// A `Long` frame, when the payload has 1 to 252 bytes: with more the
    /// length byte overflows, and with none the frame is a `Control` frame.
    pub fn new_long(control: u8, address: u8, control_information: u8, data: Vec<u8>) -> (r: Option<Frame>)
        ensures
            r is Some <==> 1 <= data@.len() <= MAX_DATA_LEN,
            r matches Some(f) ==> f == (Frame::Long { control, address, control_information, data }),
            r matches Some(f) ==> f@.valid(),
    {
        if data.len() == 0 || data.len() > MAX_DATA_LEN {
            None
        } else {
            Some(Frame::Long { control, address, control_information, data })
        }
    }

    /// The bytes of this frame, one at a time.
    pub fn iter_bytes(&self) -> (r: FrameIterator<'_>)
        ensures
            r.frame_view() == self@,
            r.position() == 0,
    {
        FrameIterator::new(self)
    }

    /// The wire encoding of this frame.
    pub fn to_bytes(&self) -> (r: Vec<u8>)
        requires
            self@.encodable(),
        ensures
            r@ == frame_bytes(self@),
    {
        let mut it = self.iter_bytes();
        let mut out: Vec<u8> = Vec::new();
        loop
            invariant
                it.frame_view() == self@,
                self@.encodable(),
                it.position() <= frame_bytes(self@).len(),
                out@ == frame_bytes(self@).take(it.position() as int),
            decreases frame_bytes(self@).len() - it.position(),
        {
            match it.next() {
                Some(b) => {
                    out.push(b);
                    assert(out@ =~= frame_bytes(self@).take(it.position() as int));
                },
                None => {
                    assert(out@ =~= frame_bytes(self@));
                    return out;
                },
            }
        }
    }
}

} // verus!
