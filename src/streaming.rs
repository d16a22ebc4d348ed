//! Decoding a byte stream: the frames come out the same whether the bytes
//! arrive one at a time or all at once.
use vstd::prelude::*;

use crate::codec::decode_spec;
use crate::frame::FrameView;
use crate::laws::{lemma_parse_decided_extends, lemma_parse_incomplete_extends, lemma_serialize_of_parsed};
use crate::parser::{parse_spec, ParseError, ParseSizeNeeded};

verus! {

/// Decode attempts, repeated while each yields a frame: the frames yielded,
/// then the hint and buffer left, and the error that stopped it, if any.
pub open spec fn drain(needed: nat, buf: Seq<u8>) -> (Seq<FrameView>, nat, Seq<u8>, Option<ParseError>)
    decreases buf.len(),
{
    let (n2, b2, r) = decode_spec(needed, buf);
    match r {
        Ok(Some(f)) => if b2.len() < buf.len() {
            let d = drain(n2, b2);
            (seq![f] + d.0, d.1, d.2, d.3)
        } else {
            (seq![f], n2, b2, None)
        },
        Ok(None) => (Seq::empty(), n2, b2, None),
        Err(e) => (Seq::empty(), n2, b2, Some(e)),
    }
}

/// A fresh codec fed `bs` one byte at a time, draining after each byte, and
/// stopped by the first error: the frames yielded, the hint and buffer
/// left, and that error.
pub open spec fn feed_bytewise(bs: Seq<u8>) -> (Seq<FrameView>, nat, Seq<u8>, Option<ParseError>)
    decreases bs.len(),
{
    if bs.len() == 0 {
        (Seq::empty(), 0, Seq::empty(), None)
    } else {
        let p = feed_bytewise(bs.drop_last());
        if p.3 is Some {
            p
        } else {
            let d = drain(p.1, p.2.push(bs.last()));
            (p.0 + d.0, d.1, d.2, d.3)
        }
    }
}

/// The hint is none, or the one that the parser gave for this very buffer.
spec fn settled(h: nat, buf: Seq<u8>) -> bool {
    h == 0 || (parse_spec(buf) matches Err(ParseError::Incomplete(ParseSizeNeeded::Size(k)))
        && k as nat == h)
}

/// Where the hint holds a decode back, the parser would say incomplete.
spec fn admissible(h: nat, buf: Seq<u8>) -> bool {
    h == 0 || buf.len() >= h || (parse_spec(buf) matches Err(
        ParseError::Incomplete(ParseSizeNeeded::Size(k)),
    ) && k as nat == h)
}

proof fn lemma_decode_shrinks(needed: nat, buf: Seq<u8>)
    ensures
        decode_spec(needed, buf).2 matches Ok(Some(_)) ==> decode_spec(needed, buf).1.len() < buf.len(),
        !(parse_spec(buf) matches Err(ParseError::Incomplete(ParseSizeNeeded::Unknown))),
{
    if parse_spec(buf) is Ok {
        lemma_serialize_of_parsed(buf);
    }
    if parse_spec(buf) matches Err(ParseError::Incomplete(_)) {
        lemma_parse_incomplete_extends(buf, Seq::empty());
    }
}

proof fn lemma_settled_admits(h: nat, buf: Seq<u8>, s: Seq<u8>)
    requires
        settled(h, buf),
    ensures
        admissible(h, buf + s),
{
    if h != 0 {
        lemma_parse_incomplete_extends(buf, s);
    }
}

proof fn lemma_drain_settles(h: nat, c: Seq<u8>)
    requires
        admissible(h, c),
    ensures
        drain(h, c).3 is None ==> settled(drain(h, c).1, drain(h, c).2),
    decreases c.len(),
{
    lemma_decode_shrinks(h, c);
    if c.len() >= h {
        if parse_spec(c) is Ok {
            let n = parse_spec(c).unwrap().0;
            lemma_drain_settles(0, c.skip(n as int));
        } else if parse_spec(c) matches Err(ParseError::Incomplete(_)) {
            lemma_parse_incomplete_extends(c, Seq::empty());
        }
    }
}

proof fn lemma_drain_hints_agree(a: nat, b: nat, c: Seq<u8>)
    requires
        admissible(a, c),
        admissible(b, c),
    ensures
        drain(a, c).0 == drain(b, c).0,
        drain(a, c).2 == drain(b, c).2,
        drain(a, c).3 == drain(b, c).3,
{
    lemma_decode_shrinks(a, c);
    lemma_decode_shrinks(b, c);
    if parse_spec(c) matches Err(ParseError::Incomplete(_)) {
        lemma_parse_incomplete_extends(c, Seq::empty());
    }
}

proof fn lemma_drain_append(h: nat, buf: Seq<u8>, s: Seq<u8>)
    requires
        drain(h, buf).3 is None,
    ensures
        ({
            let d = drain(h, buf);
            let l = drain(h, buf + s);
            let r = drain(d.1, d.2 + s);
            &&& l.0 == d.0 + r.0
            &&& l.2 == r.2
            &&& l.3 == r.3
            &&& (r.3 is None ==> l.1 == r.1)
        }),
    decreases buf.len(),
{
    let d = drain(h, buf);
    lemma_decode_shrinks(h, buf);
    lemma_decode_shrinks(h, buf + s);
    if buf.len() < h {
        let r = drain(d.1, d.2 + s);
        assert(Seq::<FrameView>::empty() + r.0 =~= r.0);
    } else {
        match parse_spec(buf) {
            Ok((n, f)) => {
                lemma_serialize_of_parsed(buf);
                lemma_parse_decided_extends(buf, s);
                assert((buf + s).skip(n as int) =~= buf.skip(n as int) + s);
                lemma_drain_append(0, buf.skip(n as int), s);
                let d2 = drain(0, buf.skip(n as int));
                let l2 = drain(0, buf.skip(n as int) + s);
                let r = drain(d.1, d.2 + s);
                assert(seq![f] + l2.0 =~= (seq![f] + d2.0) + r.0);
            },
            Err(ParseError::Incomplete(ParseSizeNeeded::Size(k))) => {
                lemma_parse_incomplete_extends(buf, s);
                lemma_decode_shrinks(k as nat, buf + s);
                let r = drain(d.1, d.2 + s);
                assert(Seq::<FrameView>::empty() + r.0 =~= r.0);
            },
            _ => {},
        }
    }
}

proof fn lemma_drain_append_stopped(h: nat, buf: Seq<u8>, s: Seq<u8>)
    requires
        drain(h, buf).3 is Some,
    ensures
        drain(h, buf + s).0 == drain(h, buf).0,
        drain(h, buf + s).3 == drain(h, buf).3,
    decreases buf.len(),
{
    lemma_decode_shrinks(h, buf);
    lemma_decode_shrinks(h, buf + s);
    if buf.len() >= h {
        lemma_decode_shrinks(h, buf);
        if parse_spec(buf) is Ok {
            let n = parse_spec(buf).unwrap().0;
            lemma_serialize_of_parsed(buf);
            lemma_parse_decided_extends(buf, s);
            assert((buf + s).skip(n as int) =~= buf.skip(n as int) + s);
            lemma_drain_append_stopped(0, buf.skip(n as int), s);
        } else if !(parse_spec(buf) matches Err(ParseError::Incomplete(_))) {
            lemma_parse_decided_extends(buf, s);
        }
    }
}

proof fn lemma_feed_matches_drain(bs: Seq<u8>)
    ensures
        ({
            let f = feed_bytewise(bs);
            let d = drain(0, bs);
            &&& f.0 == d.0
            &&& f.3 == d.3
            &&& f.3 is None ==> f.2 == d.2 && settled(f.1, f.2) && settled(d.1, d.2)
        }),
    decreases bs.len(),
{
    if bs.len() == 0 {
        lemma_decode_shrinks(0, bs);
    } else {
        let p = bs.drop_last();
        let x = bs.last();
        lemma_feed_matches_drain(p);
        let f = feed_bytewise(p);
        let d = drain(0, p);
        assert(bs =~= p + seq![x]);
        if f.3 is Some {
            lemma_drain_append_stopped(0, p, seq![x]);
        } else {
            assert(f.2.push(x) =~= f.2 + seq![x]);
            lemma_drain_append(0, p, seq![x]);
            lemma_settled_admits(f.1, f.2, seq![x]);
            lemma_settled_admits(d.1, d.2, seq![x]);
            lemma_drain_hints_agree(f.1, d.1, f.2 + seq![x]);
            lemma_drain_settles(f.1, f.2 + seq![x]);
            lemma_drain_settles(d.1, d.2 + seq![x]);
        }
    }
}

/// Feeding bytes to the codec one at a time yields the same frames, and
/// stops at the same error if one comes, as feeding them all at once.
pub proof fn lemma_bytewise_same_as_whole(bs: Seq<u8>)
    ensures
        feed_bytewise(bs).0 == drain(0, bs).0,
        feed_bytewise(bs).3 == drain(0, bs).3,
{
    lemma_feed_matches_drain(bs);
}

} // verus!
