//! Layout of one message inside a buffer.
//!
//! A request frame is `<path> 0x20 <payload>`: the path of the called method,
//! one separator byte, then the serialized message. A reply frame is the
//! payload alone. The number of valid bytes travels beside the buffer, never
//! inside it.
use vstd::prelude::*;
use vstd::utf8::*;
use vstd::string::*;

use crate::buffer::Buffer;

verus! {

/// The byte that ends the path of a request frame.
pub const SEPARATOR: u8 = 0x20;

/// Why a frame could not be written or read.
#[derive(Debug, Clone, Copy, PartialEq, Eq, Structural)]
pub enum FrameError {
    /// The valid bytes hold no separator, or the length reaches past the buffer.
    MalformedFrame,
    /// The path bytes are not UTF-8.
    InvalidEncoding,
    /// The frame does not fit in the buffer.
    FrameTooLarge,
}

/// `i` is the position of the first separator in `b`.
pub open spec fn is_first_separator(b: Seq<u8>, i: int) -> bool {
    &&& 0 <= i < b.len()
    &&& b[i] == SEPARATOR
    &&& forall|j: int| 0 <= j < i ==> b[j] != SEPARATOR
}

/// `b` holds a separator somewhere.
pub open spec fn has_separator(b: Seq<u8>) -> bool {
    exists|i: int| 0 <= i < b.len() && b[i] == SEPARATOR
}

/// Position of the first separator in `b` (meaningful where `has_separator(b)`).
pub open spec fn separator_index(b: Seq<u8>) -> int {
    choose|i: int| is_first_separator(b, i)
}

/// The path part of the request frame `b`.
pub open spec fn frame_path(b: Seq<u8>) -> Seq<u8> {
    b.subrange(0, separator_index(b))
}

/// The payload part of the request frame `b`.
pub open spec fn frame_payload(b: Seq<u8>) -> Seq<u8> {
    b.subrange(separator_index(b) + 1, b.len() as int)
}

/// The bytes of a request frame for `path` and `payload`.
pub open spec fn request_frame(path: Seq<u8>, payload: Seq<u8>) -> Seq<u8> {
    path + seq![SEPARATOR] + payload
}

/// The first `len` bytes of `buf`.
pub open spec fn valid_bytes(buf: Seq<u8>, len: int) -> Seq<u8> {
    buf.subrange(0, len)
}

/// The first separator exists exactly when some separator does, and is unique.
pub proof fn lemma_first_separator(b: Seq<u8>)
    ensures
        has_separator(b) <==> is_first_separator(b, separator_index(b)),
        forall|i: int| #[trigger] is_first_separator(b, i) ==> i == separator_index(b),
{
    if has_separator(b) {
        let k = choose|k: int| 0 <= k < b.len() && b[k] == SEPARATOR;
        lemma_separator_at_or_before(b, k);
    }
    assert forall|i: int| #[trigger] is_first_separator(b, i) implies i == separator_index(b) by {
        let s = separator_index(b);
        assert(is_first_separator(b, s));
        if i < s {
            assert(b[i] != SEPARATOR);
        } else if s < i {
            assert(b[s] != SEPARATOR);
        }
    }
}

/// A separator at `k` means that a first separator exists.
proof fn lemma_separator_at_or_before(b: Seq<u8>, k: int)
    requires
        0 <= k < b.len(),
        b[k] == SEPARATOR,
    ensures
        exists|i: int| is_first_separator(b, i),
    decreases k,
{
    if exists|j: int| 0 <= j < k && b[j] == SEPARATOR {
        let j = choose|j: int| 0 <= j < k && b[j] == SEPARATOR;
        lemma_separator_at_or_before(b, j);
    } else {
        assert(is_first_separator(b, k));
    }
}

/// Finds the first separator among the first `len` bytes of `buf`.
///
/// Fails with `MalformedFrame` when `len` exceeds the buffer or when those
/// bytes hold no separator.
pub fn locate_separator(buf: &[u8], len: usize) -> (r: Result<usize, FrameError>)
    ensures
        len > buf@.len() ==> r == Err::<usize, FrameError>(FrameError::MalformedFrame),
        len <= buf@.len() ==> (r is Ok <==> has_separator(valid_bytes(buf@, len as int))),
        r matches Ok(i) ==> i == separator_index(valid_bytes(buf@, len as int))
            && is_first_separator(valid_bytes(buf@, len as int), i as int),
        r matches Err(e) ==> e == FrameError::MalformedFrame,
{
    if len > buf.len() {
        return Err(FrameError::MalformedFrame);
    }
    let ghost valid = valid_bytes(buf@, len as int);
    let mut i: usize = 0;
    while i < len
        invariant
            len <= buf@.len(),
            valid == valid_bytes(buf@, len as int),
            0 <= i <= len,
            forall|j: int| 0 <= j < i ==> valid[j] != SEPARATOR,
        decreases len - i,
    {
        if buf[i] == SEPARATOR {
            proof {
                assert(is_first_separator(valid, i as int));
                lemma_first_separator(valid);
            }
            return Ok(i);
        }
        i = i + 1;
    }
    proof {
        lemma_first_separator(valid);
    }
    Err(FrameError::MalformedFrame)
}

/// Relies on `std::str::from_utf8`: it accepts exactly the valid UTF-8 byte
/// sequences, and the text it returns has the given bytes.
#[verifier::external_body]
pub(crate) fn utf8_text(b: &[u8]) -> (r: Option<&str>)
    ensures
        r is Some <==> valid_utf8(b@),
        r matches Some(s) ==> s.spec_bytes() == b@,
{
    std::str::from_utf8(b).ok()
}

/// The path of the request frame held in the first `len` bytes of `buf`.
///
/// Fails with `MalformedFrame` as `locate_separator` does, and with
/// `InvalidEncoding` when the path bytes are not UTF-8.
pub fn extract_path(buf: &[u8], len: usize) -> (r: Result<&str, FrameError>)
    ensures
        ({
            let v = valid_bytes(buf@, len as int);
            &&& (len > buf@.len() || !has_separator(v)) ==> r == Err::<&str, FrameError>(
                FrameError::MalformedFrame,
            )
            &&& (len <= buf@.len() && has_separator(v)) ==> (match r {
                Ok(s) => valid_utf8(frame_path(v)) && s.spec_bytes() == frame_path(v)
                    && s@ == decode_utf8(frame_path(v)),
                Err(e) => e == FrameError::InvalidEncoding && !valid_utf8(frame_path(v)),
            })
        }),
{
    let pos = locate_separator(buf, len)?;
    let ghost v = valid_bytes(buf@, len as int);
    let head = vstd::slice::slice_subrange(buf, 0, pos);
    assert(head@ == frame_path(v));
    match utf8_text(head) {
        Some(s) => {
            proof {
                decode_utf8_encode_utf8(s.spec_bytes());
                encode_utf8_decode_utf8(s@);
            }
            Ok(s)
        },
        None => Err(FrameError::InvalidEncoding),
    }
}

/// The payload of the request frame held in the first `len` bytes of `buf`;
/// empty when the separator is the last valid byte.
///
/// Fails with `MalformedFrame` as `locate_separator` does.
pub fn extract_payload(buf: &[u8], len: usize) -> (r: Result<&[u8], FrameError>)
    ensures
        ({
            let v = valid_bytes(buf@, len as int);
            &&& (len > buf@.len() || !has_separator(v)) ==> r == Err::<&[u8], FrameError>(
                FrameError::MalformedFrame,
            )
            &&& (len <= buf@.len() && has_separator(v)) ==> (r matches Ok(p) && p@
                == frame_payload(v))
        }),
{
    let pos = locate_separator(buf, len)?;
    let body = vstd::slice::slice_subrange(buf, pos + 1, len);
    Ok(body)
}

/// Length of the request frame for `path` and `payload`.
pub open spec fn request_frame_len(path: Seq<u8>, payload: Seq<u8>) -> int {
    (path.len() + 1 + payload.len()) as int
}

/// Writes the request frame for `path` and `payload` at the start of `buf`
/// and returns its length; the bytes after it are kept.
///
/// Fails with `FrameTooLarge`, writing nothing, when the frame is longer than
/// the buffer.
pub fn encode_request(buf: &mut Buffer, path: &str, payload: &[u8]) -> (r: Result<
    usize,
    FrameError,
>)
    ensures
        ({
            let total = request_frame_len(path.spec_bytes(), payload@);
            &&& total <= old(buf)@.len() ==> (r matches Ok(n) && n == total)
            &&& total > old(buf)@.len() ==> r == Err::<usize, FrameError>(
                FrameError::FrameTooLarge,
            ) && final(buf)@ == old(buf)@
            &&& r is Ok ==> final(buf)@ == request_frame(path.spec_bytes(), payload@)
                + old(buf)@.subrange(total, old(buf)@.len() as int)
        }),
{
    let head = path.as_bytes();
    let cap = buf.capacity();
    if head.len() > cap {
        return Err(FrameError::FrameTooLarge);
    }
    if cap - head.len() < 1 {
        return Err(FrameError::FrameTooLarge);
    }
    if cap - head.len() - 1 < payload.len() {
        return Err(FrameError::FrameTooLarge);
    }
    let ghost before = buf@;
    let at = head.len();
    buf.write_at(0, head);
    buf.set_byte(at, SEPARATOR);
    buf.write_at(at + 1, payload);
    let total = at + 1 + payload.len();
    assert(buf@ =~= request_frame(head@, payload@) + before.subrange(total as int, before.len() as int));
    Ok(total)
}

/// Writes the reply frame, the payload alone, at the start of `buf` and
/// returns its length; the bytes after it are kept.
///
/// Fails with `FrameTooLarge`, writing nothing, when the payload is longer
/// than the buffer.
pub fn encode_reply(buf: &mut Buffer, payload: &[u8]) -> (r: Result<usize, FrameError>)
    ensures
        payload@.len() <= old(buf)@.len() ==> (r matches Ok(n) && n == payload@.len())
            && final(buf)@ == payload@ + old(buf)@.subrange(
            payload@.len() as int,
            old(buf)@.len() as int,
        ),
        payload@.len() > old(buf)@.len() ==> r == Err::<usize, FrameError>(
            FrameError::FrameTooLarge,
        ) && final(buf)@ == old(buf)@,
{
    if payload.len() > buf.capacity() {
        return Err(FrameError::FrameTooLarge);
    }
    let ghost before = buf@;
    buf.write_at(0, payload);
    assert(buf@ =~= payload@ + before.subrange(payload@.len() as int, before.len() as int));
    Ok(payload.len())
}

/// Round trip: when a path holds no separator byte, the request frame written
/// for it and a payload (followed by any bytes) reads back, over the frame's
/// length, as that path and that payload.
pub proof fn lemma_round_trip(path: Seq<char>, payload: Seq<u8>, rest: Seq<u8>)
    requires
        !encode_utf8(path).contains(SEPARATOR),
    ensures
        ({
            let buf = request_frame(encode_utf8(path), payload) + rest;
            let len = request_frame_len(encode_utf8(path), payload);
            let v = valid_bytes(buf, len);
            &&& len <= buf.len()
            &&& has_separator(v)
            &&& frame_path(v) == encode_utf8(path)
            &&& valid_utf8(frame_path(v))
            &&& decode_utf8(frame_path(v)) == path
            &&& frame_payload(v) == payload
        }),
{
    let head = encode_utf8(path);
    let buf = request_frame(head, payload) + rest;
    let len = request_frame_len(head, payload);
    let v = valid_bytes(buf, len);
    assert(v =~= request_frame(head, payload));
    let p = head.len() as int;
    assert(v[p] == SEPARATOR);
    assert forall|j: int| 0 <= j < p implies v[j] != SEPARATOR by {
        assert(v[j] == head[j]);
        if head[j] == SEPARATOR {
            assert(head.contains(SEPARATOR));
        }
    }
    assert(is_first_separator(v, p));
    lemma_first_separator(v);
    assert(frame_path(v) =~= head);
    assert(frame_payload(v) =~= payload);
    encode_utf8_valid_utf8(path);
    encode_utf8_decode_utf8(path);
}

} // verus!
