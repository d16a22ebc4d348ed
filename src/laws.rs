//! What holds between the parser and the encoding, for every frame and every
//! input.
use vstd::prelude::*;

use crate::checksum::{checksum, lemma_checksum_one_byte};
use crate::frame::{frame_bytes, long_body, FrameView, FRAME_END, LONG_START, SHORT_START, SINGLE_CHAR};
use crate::parser::{parse_spec, ParseError, ParseSizeNeeded};

verus! {

proof fn lemma_long_layout(control: u8, address: u8, ci: u8, data: Seq<u8>)
    requires
        data.len() <= 252,
    ensures
        ({
            let bs = frame_bytes(FrameView::Long { control, address, control_information: ci, data });
            let l = data.len() + 3 as int;
            let body = long_body(control, address, ci, data);
            &&& bs.len() == l + 6
            &&& bs[0] == LONG_START && bs[1] == l && bs[2] == l && bs[3] == LONG_START
            &&& bs[4] == control && bs[5] == address && bs[6] == ci
            &&& bs.subrange(4, 4 + l) == body
            &&& bs.subrange(7, 4 + l) == data
            &&& bs[l + 4] == checksum(body)
            &&& bs[l + 5] == FRAME_END
        }),
{
    let bs = frame_bytes(FrameView::Long { control, address, control_information: ci, data });
    let l = data.len() + 3 as int;
    let body = long_body(control, address, ci, data);
    assert(bs.subrange(4, 4 + l) =~= body);
    assert(bs.subrange(7, 4 + l) =~= data);
}

/// Parsing the encoding of a valid frame gives back that frame, and
/// consumes the whole encoding.
pub proof fn lemma_parse_of_serialized(f: FrameView)
    requires
        f.valid(),
    ensures
        parse_spec(frame_bytes(f)) == Ok::<(nat, FrameView), ParseError>((frame_bytes(f).len(), f)),
{
    let bs = frame_bytes(f);
    match f {
        FrameView::Single => {},
        FrameView::Short { control, address } => {
            assert(seq![bs[1], bs[2]] =~= seq![control, address]);
        },
        FrameView::Control { control, address, control_information } => {
            assert(bs.subrange(4, 7) =~= seq![control, address, control_information]);
        },
        FrameView::Long { control, address, control_information, data } => {
            lemma_long_layout(control, address, control_information, data);
            let g = FrameView::Long { control, address, control_information, data: bs.subrange(7, 4 + data.len() as int + 3) };
            assert(g == f);
        },
    }
}

/// A frame that was parsed encodes to exactly the bytes it was parsed from.
pub proof fn lemma_serialize_of_parsed(b: Seq<u8>)
    requires
        parse_spec(b) is Ok,
    ensures
        ({
            let (n, f) = parse_spec(b).unwrap();
            &&& f.valid()
            &&& 1 <= n <= b.len()
            &&& frame_bytes(f) == b.take(n as int)
        }),
{
    let (n, f) = parse_spec(b).unwrap();
    match f {
        FrameView::Single => {
            assert(frame_bytes(f) =~= b.take(1));
        },
        FrameView::Short { control, address } => {
            assert(frame_bytes(f) =~= b.take(5));
        },
        FrameView::Control { control, address, control_information } => {
            assert(b.subrange(4, 7) =~= seq![control, address, control_information]);
            assert(frame_bytes(f) =~= b.take(9));
        },
        FrameView::Long { control, address, control_information, data } => {
            let l = b[1] as int;
            lemma_long_layout(control, address, control_information, data);
            assert(b.subrange(4, 4 + l) =~= long_body(control, address, control_information, data));
            assert(frame_bytes(f) =~= b.take(n as int));
        },
    }
}

/// What the parser decides on `b` it decides the same way on any input
/// that agrees with `b` on the bytes it read: the frame's bytes on success,
/// the whole of `b` otherwise, as long as the input is not shorter than the
/// size that an incomplete parse asked for.
proof fn lemma_parse_same_prefix(b: Seq<u8>, c: Seq<u8>)
    requires
        match parse_spec(b) {
            Ok((n, _)) => n <= c.len() && c.take(n as int) == b.take(n as int),
            Err(ParseError::Incomplete(ParseSizeNeeded::Size(k))) => b.len() <= c.len() < k
                && c.take(b.len() as int) == b,
            Err(_) => b.len() <= c.len() && c.take(b.len() as int) == b,
        },
    ensures
        parse_spec(c) == parse_spec(b),
{
    let m: int = match parse_spec(b) {
        Ok((n, _)) => n as int,
        Err(_) => b.len() as int,
    };
    assert forall|j: int| 0 <= j < m implies c[j] == b[j] by {
        assert(c.take(m)[j] == b.take(m)[j]);
    }
    if b.len() > 0 && b[0] == LONG_START && b.len() >= 4 && b[1] == b[2] && b[1] >= 3 && b[3] == LONG_START {
        let l = b[1] as int;
        if b.len() >= l + 6 {
            assert(c.subrange(4, 4 + l) =~= b.subrange(4, 4 + l));
            assert(c.subrange(7, 4 + l) =~= b.subrange(7, 4 + l));
        }
    }
}

/// A frame parsed from `b` is parsed again, the same and of the same size,
/// from its own bytes followed by anything.
pub proof fn lemma_parse_prefix_safe(b: Seq<u8>, s: Seq<u8>)
    requires
        parse_spec(b) is Ok,
    ensures
        ({
            let n = parse_spec(b).unwrap().0;
            parse_spec(b.take(n as int) + s) == parse_spec(b)
        }),
{
    let n = parse_spec(b).unwrap().0;
    lemma_serialize_of_parsed(b);
    let c = b.take(n as int) + s;
    assert(c.take(n as int) =~= b.take(n as int));
    lemma_parse_same_prefix(b, c);
}

/// A decided parse (a frame or an error other than incompleteness) stays
/// decided, the same way, when more bytes follow.
pub proof fn lemma_parse_decided_extends(b: Seq<u8>, s: Seq<u8>)
    requires
        !(parse_spec(b) matches Err(ParseError::Incomplete(_))),
    ensures
        parse_spec(b + s) == parse_spec(b),
{
    if parse_spec(b) is Ok {
        lemma_serialize_of_parsed(b);
        let n = parse_spec(b).unwrap().0;
        assert((b + s).take(n as int) =~= b.take(n as int));
    } else {
        assert((b + s).take(b.len() as int) =~= b);
    }
    lemma_parse_same_prefix(b, b + s);
}

/// An incomplete parse names a size beyond the input, and stays the same
/// incomplete parse while the input grows below that size.
pub proof fn lemma_parse_incomplete_extends(b: Seq<u8>, s: Seq<u8>)
    requires
        parse_spec(b) matches Err(ParseError::Incomplete(_)),
    ensures
        parse_spec(b) matches Err(ParseError::Incomplete(ParseSizeNeeded::Size(k)))
            && b.len() < k && k <= 261
            && ((b + s).len() < k ==> parse_spec(b + s) == parse_spec(b)),
{
    if let Err(ParseError::Incomplete(ParseSizeNeeded::Size(k))) = parse_spec(b) {
        if (b + s).len() < k {
            assert((b + s).take(b.len() as int) =~= b);
            lemma_parse_same_prefix(b, b + s);
        }
    }
}

proof fn lemma_flip_changes(x: u8, bit: u8)
    requires
        bit < 8,
    ensures
        x ^ (1u8 << bit) != x,
{
    assert(x ^ (1u8 << bit) != x) by (bit_vector)
        requires
            bit < 8,
    ;
}

proof fn lemma_flip_start(x: u8, bit: u8)
    requires
        bit < 8,
        x == SINGLE_CHAR || x == SHORT_START || x == LONG_START,
    ensures
        x ^ (1u8 << bit) != SINGLE_CHAR,
        x ^ (1u8 << bit) != SHORT_START,
        x ^ (1u8 << bit) != LONG_START,
{
    assert(x ^ (1u8 << bit) != 0xE5u8 && x ^ (1u8 << bit) != 0x10u8 && x ^ (1u8 << bit) != 0x68u8)
        by (bit_vector)
        requires
            bit < 8,
            x == 0xE5u8 || x == 0x10u8 || x == 0x68u8,
    ;
}

/// Flipping one bit of one byte of an encoded frame never yields a frame:
/// the parser reports a checksum, length or unrecognized-byte error.
pub proof fn lemma_bit_flip_detected(f: FrameView, i: int, bit: u8)
    requires
        f.encodable(),
        0 <= i < frame_bytes(f).len(),
        bit < 8,
    ensures
        ({
            let bs = frame_bytes(f);
            let flipped = bs.update(i, bs[i] ^ (1u8 << bit));
            parse_spec(flipped) matches Err(e) && !(e is Incomplete)
        }),
{
    let bs = frame_bytes(f);
    let x = bs[i] ^ (1u8 << bit);
    let flipped = bs.update(i, x);
    lemma_flip_changes(bs[i], bit);
    if i == 0 {
        lemma_flip_start(bs[0], bit);
        return;
    }
    match f {
        FrameView::Single => {},
        FrameView::Short { control, address } => {
            if i == 1 || i == 2 {
                let pair = seq![control, address];
                assert(seq![flipped[1], flipped[2]] =~= pair.update(i - 1, x));
                lemma_checksum_one_byte(pair, i - 1, x);
            }
        },
        FrameView::Control { control, address, control_information } => {
            if 4 <= i < 7 {
                let body = seq![control, address, control_information];
                assert(flipped.subrange(4, 7) =~= body.update(i - 4, x));
                lemma_checksum_one_byte(body, i - 4, x);
            } else if i >= 7 {
                assert(flipped.subrange(4, 7) =~= seq![control, address, control_information]);
            }
        },
        FrameView::Long { control, address, control_information, data } => {
            lemma_long_layout(control, address, control_information, data);
            let l = data.len() + 3 as int;
            let body = long_body(control, address, control_information, data);
            if 4 <= i < 4 + l {
                assert(flipped.subrange(4, 4 + l) =~= body.update(i - 4, x));
                lemma_checksum_one_byte(body, i - 4, x);
            } else if i >= 4 + l {
                assert(flipped.subrange(4, 4 + l) =~= bs.subrange(4, 4 + l));
            }
        },
    }
}

} // verus!
