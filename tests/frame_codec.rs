use rdma_rpc::buffer::Buffer;
use rdma_rpc::frame::{
    encode_reply, encode_request, extract_path, extract_payload, locate_separator, FrameError,
    SEPARATOR,
};

#[test]
fn round_trip_path_and_payload() {
    let mut buf = Buffer::new(64);
    let n = encode_request(&mut buf, "/pkg.Svc/Method", b"abc").unwrap();
    assert_eq!(n, 19);
    assert_eq!(extract_path(buf.as_slice(), n), Ok("/pkg.Svc/Method"));
    assert_eq!(extract_payload(buf.as_slice(), n), Ok(&b"abc"[..]));
}

#[test]
fn round_trip_payload_with_spaces() {
    let mut buf = Buffer::new(64);
    let n = encode_request(&mut buf, "/p.S/M", b"a b  c").unwrap();
    assert_eq!(extract_path(buf.as_slice(), n), Ok("/p.S/M"));
    assert_eq!(extract_payload(buf.as_slice(), n), Ok(&b"a b  c"[..]));
}

#[test]
fn encoded_bytes_follow_the_layout() {
    let mut buf = Buffer::new(12);
    let n = encode_request(&mut buf, "/a/b", b"xy").unwrap();
    assert_eq!(n, 7);
    assert_eq!(buf.as_slice(), &b"/a/b xy\0\0\0\0\0"[..]);
    assert_eq!(buf.as_slice()[4], SEPARATOR);
}

#[test]
fn no_separator_is_malformed() {
    assert_eq!(locate_separator(b"abcdef", 6), Err(FrameError::MalformedFrame));
    assert_eq!(locate_separator(b"", 0), Err(FrameError::MalformedFrame));
    assert_eq!(extract_path(b"abcdef", 6), Err(FrameError::MalformedFrame));
    assert_eq!(extract_payload(b"abcdef", 6), Err(FrameError::MalformedFrame));
}

#[test]
fn separator_past_the_valid_length_is_not_seen() {
    assert_eq!(locate_separator(b"abc def", 3), Err(FrameError::MalformedFrame));
    assert_eq!(locate_separator(b"abc def", 4), Ok(3));
}

#[test]
fn length_past_the_buffer_is_malformed() {
    assert_eq!(locate_separator(b"a b", 4), Err(FrameError::MalformedFrame));
    assert_eq!(extract_payload(b"a b", 9), Err(FrameError::MalformedFrame));
}

#[test]
fn first_separator_wins() {
    assert_eq!(locate_separator(b"a b c", 5), Ok(1));
    assert_eq!(extract_payload(b"a b c", 5), Ok(&b"b c"[..]));
}

#[test]
fn frame_of_exact_capacity_fits() {
    let mut buf = Buffer::new(10);
    assert_eq!(encode_request(&mut buf, "/a/b", b"12345"), Ok(10));
    assert_eq!(extract_payload(buf.as_slice(), 10), Ok(&b"12345"[..]));
}

#[test]
fn frame_one_past_capacity_is_too_large() {
    let mut buf = Buffer::new(9);
    assert_eq!(encode_request(&mut buf, "/a/b", b"12345"), Err(FrameError::FrameTooLarge));
    assert_eq!(buf.as_slice(), &[0u8; 9][..]);
}

#[test]
fn path_longer_than_buffer_is_too_large() {
    let mut buf = Buffer::new(3);
    assert_eq!(encode_request(&mut buf, "/abcdef", b""), Err(FrameError::FrameTooLarge));
    let mut exact = Buffer::new(7);
    assert_eq!(encode_request(&mut exact, "/abcdef", b""), Err(FrameError::FrameTooLarge));
}

#[test]
fn zero_length_payload() {
    let mut buf = Buffer::new(32);
    let n = encode_request(&mut buf, "/a.B/C", b"").unwrap();
    assert_eq!(n, 7);
    assert_eq!(extract_path(buf.as_slice(), n), Ok("/a.B/C"));
    assert_eq!(extract_payload(buf.as_slice(), n), Ok(&b""[..]));
}

#[test]
fn decoding_twice_gives_the_same_views() {
    let mut buf = Buffer::new(32);
    let n = encode_request(&mut buf, "/a.B/C", b"payload").unwrap();
    let first = (extract_path(buf.as_slice(), n), extract_payload(buf.as_slice(), n));
    let second = (extract_path(buf.as_slice(), n), extract_payload(buf.as_slice(), n));
    assert_eq!(first, second);
    assert_eq!(first.0, Ok("/a.B/C"));
    assert_eq!(first.1, Ok(&b"payload"[..]));
}

#[test]
fn path_that_is_not_utf8_is_invalid_encoding() {
    let bytes = [0xffu8, 0xfe, b' ', b'x'];
    assert_eq!(extract_path(&bytes, 4), Err(FrameError::InvalidEncoding));
    assert_eq!(extract_payload(&bytes, 4), Ok(&b"x"[..]));
}

#[test]
fn multibyte_path_round_trips() {
    let mut buf = Buffer::new(32);
    let n = encode_request(&mut buf, "/d\u{e9}j\u{e0}/vu", b"1").unwrap();
    assert_eq!(n, 12);
    assert_eq!(extract_path(buf.as_slice(), n), Ok("/d\u{e9}j\u{e0}/vu"));
}

#[test]
fn reply_frame_is_the_payload_alone() {
    let mut buf = Buffer::new(8);
    assert_eq!(encode_reply(&mut buf, b"hi"), Ok(2));
    assert_eq!(&buf.as_slice()[..2], &b"hi"[..]);
    let mut small = Buffer::new(1);
    assert_eq!(encode_reply(&mut small, b"hi"), Err(FrameError::FrameTooLarge));
    assert_eq!(small.as_slice(), &[0u8][..]);
}
