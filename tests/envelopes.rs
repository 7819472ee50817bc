use rdma_rpc::buffer::Buffer;
use rdma_rpc::channel::{accept_reply, CallError};
use rdma_rpc::envelope::{RdmaRequest, RdmaResponse};
use rdma_rpc::frame::{encode_request, FrameError};

fn request(path: &str, payload: &[u8]) -> RdmaRequest {
    let mut buf = Buffer::new(512);
    let n = encode_request(&mut buf, path, payload).unwrap();
    RdmaRequest::new(buf, n, Buffer::new(512))
}

#[test]
fn request_path_service_and_body() {
    let req = request("/greet.Greeter/Hello", b"world");
    assert_eq!(req.path(), Ok("/greet.Greeter/Hello"));
    assert_eq!(req.service(), Ok("/greet.Greeter"));
    assert_eq!(req.body(), Ok(&b"world"[..]));
}

#[test]
fn service_without_slash_is_malformed() {
    let req = request("nopath", b"x");
    assert_eq!(req.service(), Err(FrameError::MalformedFrame));
    assert_eq!(req.path(), Ok("nopath"));
}

#[test]
fn service_stops_at_the_last_slash() {
    let req = request("/a/b/c", b"");
    assert_eq!(req.service(), Ok("/a/b"));
    let root = request("/m", b"");
    assert_eq!(root.service(), Ok(""));
}

#[test]
fn service_ignores_bad_bytes_after_the_last_slash() {
    let bytes = vec![b'/', b's', b'/', 0xff, b' ', b'z'];
    let req = RdmaRequest::new(Buffer::from_bytes(bytes), 6, Buffer::new(4));
    assert_eq!(req.service(), Ok("/s"));
    assert_eq!(req.path(), Err(FrameError::InvalidEncoding));
}

#[test]
fn service_that_is_not_utf8_is_invalid_encoding() {
    let bytes = vec![b'/', 0xff, b'/', b'm', b' '];
    let req = RdmaRequest::new(Buffer::from_bytes(bytes), 5, Buffer::new(4));
    assert_eq!(req.service(), Err(FrameError::InvalidEncoding));
}

#[test]
fn request_without_separator_is_malformed() {
    let req = RdmaRequest::new(Buffer::from_bytes(b"/a/b".to_vec()), 4, Buffer::new(4));
    assert_eq!(req.path(), Err(FrameError::MalformedFrame));
    assert_eq!(req.service(), Err(FrameError::MalformedFrame));
    assert_eq!(req.body(), Err(FrameError::MalformedFrame));
}

#[test]
fn request_length_past_buffer_is_malformed() {
    let req = RdmaRequest::new(Buffer::from_bytes(b"/a b".to_vec()), 5, Buffer::new(4));
    assert_eq!(req.body(), Err(FrameError::MalformedFrame));
}

#[test]
fn response_from_request_is_empty() {
    let req = request("/a/b", b"q");
    let resp = RdmaResponse::from_req(req);
    assert_eq!(resp.len, 0);
    assert_eq!(resp.resp_mr.capacity(), 512);
    assert_eq!(resp.payload(), Ok(&b""[..]));
}

#[test]
fn reply_larger_than_buffer_changes_nothing() {
    let req = RdmaRequest::new(Buffer::from_bytes(b"/a b".to_vec()), 4, Buffer::new(2));
    let mut resp = RdmaResponse::from_req(req);
    assert_eq!(resp.write_reply(b"abc"), Err(FrameError::FrameTooLarge));
    assert_eq!(resp.len, 0);
    assert_eq!(resp.resp_mr.as_slice(), &[0u8, 0][..]);
}

#[test]
fn response_length_past_buffer_is_malformed() {
    let resp = RdmaResponse { resp_mr: Buffer::new(2), len: 3 };
    assert_eq!(resp.payload(), Err(FrameError::MalformedFrame));
}

#[test]
fn greet_exchange_end_to_end() {
    // Caller side: the request frame.
    let mut out = Buffer::new(512);
    let n = encode_request(&mut out, "/greet.Greeter/Hello", b"world").unwrap();
    // Responder side: decode, then answer in the reserved buffer.
    let req = RdmaRequest::new(Buffer::from_bytes(out.into_bytes()), n, Buffer::new(512));
    assert_eq!(req.path(), Ok("/greet.Greeter/Hello"));
    assert_eq!(req.body(), Ok(&b"world"[..]));
    let mut resp = RdmaResponse::from_req(req);
    assert_eq!(resp.write_reply(b"hi world"), Ok(()));
    assert_eq!(resp.len, 8);
    // Caller side: the reply arrives with its length as immediate data.
    let imm = resp.len as u32;
    let reply = Buffer::from_bytes(resp.resp_mr.into_bytes());
    let got = accept_reply(reply, Some(imm)).unwrap();
    assert_eq!(got.len, 8);
    assert_eq!(got.payload(), Ok(&b"hi world"[..]));
}

#[test]
fn reply_without_length_is_a_transport_error() {
    assert!(matches!(accept_reply(Buffer::new(8), None), Err(CallError::Transport)));
}

#[test]
fn reply_length_past_capacity_is_an_encoding_error() {
    assert!(matches!(
        accept_reply(Buffer::new(512), Some(513)),
        Err(CallError::Encoding(FrameError::FrameTooLarge))
    ));
    let ok = accept_reply(Buffer::new(512), Some(512)).unwrap();
    assert_eq!(ok.len, 512);
}

#[test]
fn reply_written_through_buf() {
    let req = request("/greet.Greeter/Hello", b"world");
    let mut resp = RdmaResponse::from_req(req);
    let room = resp.buf();
    assert_eq!(room.len(), 512);
    room[..8].copy_from_slice(b"hi world");
    resp.len = 8;
    assert_eq!(resp.payload(), Ok(&b"hi world"[..]));
}
