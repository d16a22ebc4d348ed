use bytes::BytesMut;
use mbus::{Frame, FrameParseError, MbusCodec, ParseError};

fn stream_bytes() -> Vec<u8> {
    let mut all = Vec::new();
    all.extend_from_slice(b"\xe5");
    all.extend_from_slice(b"\x10\x7b\x49\xc4\x16");
    all.extend_from_slice(b"\x68\x03\x03\x68\x53\xFE\xBD\x0E\x16");
    all.extend_from_slice(b"\x68\x06\x06\x68\x53\xFE\x51\x01\x7A\x08\x25\x16");
    all
}

fn drain(codec: &mut MbusCodec, buf: &mut BytesMut, out: &mut Vec<Frame>) -> Result<(), ParseError> {
    while let Some(f) = codec.decode(buf)? {
        out.push(f);
    }
    Ok(())
}

#[test]
fn decode_takes_one_frame_off_the_buffer() {
    let mut codec = MbusCodec::default();
    let mut buf = BytesMut::from(&b"\x10\x7b\x49\xc4\x16\xe5"[..]);
    assert_eq!(
        codec.decode(&mut buf).unwrap(),
        Some(Frame::Short { control: 0x7B, address: 0x49 })
    );
    assert_eq!(&buf[..], b"\xe5");
    assert_eq!(codec.decode(&mut buf).unwrap(), Some(Frame::Single));
    assert!(buf.is_empty());
    assert_eq!(codec.decode(&mut buf).unwrap(), None);
}

#[test]
fn decode_waits_for_the_announced_length() {
    let mut codec = MbusCodec::new();
    assert_eq!(codec.needed_bytes(), 0);
    let mut buf = BytesMut::from(&b"\x68\x06\x06\x68\x53"[..]);
    assert_eq!(codec.decode(&mut buf).unwrap(), None);
    assert_eq!(buf.len(), 5);
    assert_eq!(codec.needed_bytes(), 12);
    buf.extend_from_slice(b"\xFE\x51\x01\x7A\x08\x25");
    assert_eq!(codec.decode(&mut buf).unwrap(), None);
    buf.extend_from_slice(b"\x16");
    let frame = codec.decode(&mut buf).unwrap();
    assert_eq!(codec.needed_bytes(), 0);
    assert_eq!(
        frame,
        Some(Frame::Long {
            control: 0x53,
            address: 0xFE,
            control_information: 0x51,
            data: vec![0x01, 0x7A, 0x08],
        })
    );
    assert!(buf.is_empty());
}

#[test]
fn decode_error_leaves_the_buffer() {
    let mut codec = MbusCodec::new();
    let mut buf = BytesMut::from(&b"\x10\x7b\x49\xc5\x16"[..]);
    assert_eq!(
        codec.decode(&mut buf),
        Err(ParseError::Failure(FrameParseError::MalformedChecksum))
    );
    assert_eq!(&buf[..], b"\x10\x7b\x49\xc5\x16");
}

#[test]
fn encode_appends_the_encoding() {
    let mut codec = MbusCodec::new();
    let mut buf = BytesMut::from(&b"\xAA"[..]);
    codec.encode(Frame::Short { control: 0x7B, address: 0x49 }, &mut buf);
    codec.encode(Frame::Single, &mut buf);
    assert_eq!(&buf[..], b"\xAA\x10\x7b\x49\xc4\x16\xe5");
}

#[test]
fn bytewise_feeding_yields_the_same_frames() {
    let all = stream_bytes();

    let mut whole = Vec::new();
    let mut codec = MbusCodec::new();
    let mut buf = BytesMut::from(&all[..]);
    drain(&mut codec, &mut buf, &mut whole).unwrap();

    let mut piecewise = Vec::new();
    let mut codec = MbusCodec::new();
    let mut buf = BytesMut::new();
    for b in &all {
        buf.extend_from_slice(&[*b]);
        drain(&mut codec, &mut buf, &mut piecewise).unwrap();
    }

    assert_eq!(whole.len(), 4);
    assert_eq!(whole, piecewise);
}

#[test]
fn bytewise_feeding_stops_at_the_same_error() {
    let mut all = stream_bytes();
    all.extend_from_slice(b"\x10\x7b\x49\xc5\x16\xe5");

    let mut whole = Vec::new();
    let mut codec = MbusCodec::new();
    let mut buf = BytesMut::from(&all[..]);
    let whole_err = drain(&mut codec, &mut buf, &mut whole);

    let mut piecewise = Vec::new();
    let mut codec = MbusCodec::new();
    let mut buf = BytesMut::new();
    let mut piece_err = Ok(());
    for b in &all {
        buf.extend_from_slice(&[*b]);
        piece_err = drain(&mut codec, &mut buf, &mut piecewise);
        if piece_err.is_err() {
            break;
        }
    }

    assert_eq!(whole, piecewise);
    assert_eq!(whole_err, Err(ParseError::Failure(FrameParseError::MalformedChecksum)));
    assert_eq!(whole_err, piece_err);
}
