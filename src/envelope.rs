//! One call as the responder holds it, and one reply.
use vstd::prelude::*;
use vstd::string::*;
use vstd::utf8::*;

use crate::buffer::Buffer;
use crate::frame::{
    extract_path, extract_payload, encode_reply, locate_separator, utf8_text, frame_path, has_separator, valid_bytes,
    FrameError,
};

verus! {

/// The byte that ends the service part of a path.
pub const SLASH: u8 = 0x2f;

/// `i` is the position of the last slash in `b`.
pub open spec fn is_last_slash(b: Seq<u8>, i: int) -> bool {
    &&& 0 <= i < b.len()
    &&& b[i] == SLASH
    &&& forall|j: int| i < j < b.len() ==> b[j] != SLASH
}

/// A received request frame, with a buffer set aside for its reply.
pub struct RdmaRequest {
    req_mr: Buffer,
    len: usize,
    resp_mr: Buffer,
}

impl RdmaRequest {
    /// The bytes of the buffer that holds the request frame.
    pub closed spec fn request_bytes(&self) -> Seq<u8> {
        self.req_mr@
    }

    /// How many bytes of the request buffer are valid.
    pub closed spec fn valid_len(&self) -> nat {
        self.len as nat
    }

    /// The bytes of the buffer set aside for the reply.
    pub closed spec fn reply_bytes(&self) -> Seq<u8> {
        self.resp_mr@
    }

    /// The valid bytes of the request frame.
    pub open spec fn frame(&self) -> Seq<u8> {
        valid_bytes(self.request_bytes(), self.valid_len() as int)
    }

    /// The valid length reaches past the request buffer.
    pub open spec fn overlong(&self) -> bool {
        self.valid_len() > self.request_bytes().len()
    }

    /// A request whose frame is the first `len` bytes of `req_mr`, to be
    /// answered in `resp_mr`.
    pub fn new(req_mr: Buffer, len: usize, resp_mr: Buffer) -> (r: Self)
        ensures
            r.request_bytes() == req_mr@,
            r.valid_len() == len,
            r.reply_bytes() == resp_mr@,
    {
        RdmaRequest { req_mr, len, resp_mr }
    }

    /// The path of the called method, such as `/package.Service/Method`.
    ///
    /// Fails with `MalformedFrame` when the frame holds no separator or the
    /// length reaches past the buffer, and with `InvalidEncoding` when the path
    /// is not UTF-8.
    pub fn path(&self) -> (r: Result<&str, FrameError>)
        ensures
            (self.overlong() || !has_separator(self.frame())) ==> r == Err::<&str, FrameError>(
                FrameError::MalformedFrame,
            ),
            (!self.overlong() && has_separator(self.frame())) ==> (match r {
                Ok(s) => valid_utf8(frame_path(self.frame())) && s.spec_bytes() == frame_path(
                    self.frame(),
                ),
                Err(e) => e == FrameError::InvalidEncoding && !valid_utf8(
                    frame_path(self.frame()),
                ),
            }),
    {
        extract_path(self.req_mr.as_slice(), self.len)
    }

    /// The service part of the path: all of it before its last slash
    /// (`/package.Service` for `/package.Service/Method`).
    ///
    /// Fails with `MalformedFrame` when the frame holds no separator, the
    /// length reaches past the buffer, or the path holds no slash; and with
    /// `InvalidEncoding` when the service part is not UTF-8.
    pub fn service(&self) -> (r: Result<&str, FrameError>)
        ensures
            (self.overlong() || !has_separator(self.frame()) || !frame_path(
                self.frame(),
            ).contains(SLASH)) ==> r == Err::<&str, FrameError>(FrameError::MalformedFrame),
            (!self.overlong() && has_separator(self.frame())) ==> (match r {
                Ok(s) => is_last_slash(frame_path(self.frame()), s.spec_bytes().len() as int)
                    && s.spec_bytes() == frame_path(self.frame()).subrange(
                    0,
                    s.spec_bytes().len() as int,
                ),
                Err(e) => (e == FrameError::MalformedFrame && !frame_path(self.frame()).contains(
                    SLASH,
                )) || (e == FrameError::InvalidEncoding && exists|i: int|
                    is_last_slash(frame_path(self.frame()), i) && !valid_utf8(
                        frame_path(self.frame()).subrange(0, i),
                    )),
            }),
    {
        let pos = locate_separator(self.req_mr.as_slice(), self.len)?;
        let ghost fp = frame_path(self.frame());
        let bytes = vstd::slice::slice_subrange(self.req_mr.as_slice(), 0, pos);
        assert(bytes@ == fp);
        let mut i: usize = bytes.len();
        while i > 0
            invariant
                bytes@ == fp,
                fp == frame_path(self.frame()),
                !self.overlong(),
                has_separator(self.frame()),
                0 <= i <= bytes@.len(),
                forall|j: int| i <= j < bytes@.len() ==> bytes@[j] != SLASH,
            decreases i,
        {
            if bytes[i - 1] == SLASH {
                let head = vstd::slice::slice_subrange(bytes, 0, i - 1);
                proof {
                    assert(head@ =~= fp.subrange(0, i - 1));
                    assert(fp.contains(SLASH));
                }
                return match utf8_text(head) {
                    Some(s) => Ok(s),
                    None => {
                        assert(is_last_slash(fp, i - 1) && !valid_utf8(fp.subrange(0, i - 1)));
                        Err(FrameError::InvalidEncoding)
                    },
                };
            }
            i = i - 1;
        }
        proof {
            if fp.contains(SLASH) {
                let k = choose|k: int| 0 <= k < fp.len() && fp[k] == SLASH;
                assert(bytes@[k] != SLASH);
            }
        }
        Err(FrameError::MalformedFrame)
    }

    /// The payload of the request frame; empty when nothing follows the
    /// separator.
    ///
    /// Fails with `MalformedFrame` when the frame holds no separator or the
    /// length reaches past the buffer.
    pub fn body(&self) -> (r: Result<&[u8], FrameError>)
        ensures
            (self.overlong() || !has_separator(self.frame())) ==> r == Err::<&[u8], FrameError>(
                FrameError::MalformedFrame,
            ),
            (!self.overlong() && has_separator(self.frame())) ==> (r matches Ok(p) && p@
                == crate::frame::frame_payload(self.frame())),
    {
        extract_payload(self.req_mr.as_slice(), self.len)
    }
}

/// A reply: a buffer and how many of its bytes are valid.
pub struct RdmaResponse {
    /// The buffer that holds the reply.
    pub resp_mr: Buffer,
    /// How many bytes of `resp_mr` are valid.
    pub len: usize,
}

impl RdmaResponse {
    /// An empty reply in the buffer that `req` set aside for it.
    pub fn from_req(req: RdmaRequest) -> (r: Self)
        ensures
            r.resp_mr@ == req.reply_bytes(),
            r.len == 0,
    {
        RdmaResponse { resp_mr: req.resp_mr, len: 0 }
    }

    /// Writes `payload` as the reply and makes it the valid part.
    ///
    /// Fails with `FrameTooLarge`, changing nothing, when the payload is
    /// longer than the buffer.
    pub fn write_reply(&mut self, payload: &[u8]) -> (r: Result<(), FrameError>)
        ensures
            payload@.len() <= old(self).resp_mr@.len() ==> r is Ok && final(self).len
                == payload@.len() && final(self).resp_mr@ == payload@ + old(
                self,
            ).resp_mr@.subrange(payload@.len() as int, old(self).resp_mr@.len() as int),
            payload@.len() > old(self).resp_mr@.len() ==> r == Err::<(), FrameError>(
                FrameError::FrameTooLarge,
            ) && final(self).resp_mr@ == old(self).resp_mr@ && final(self).len == old(self).len,
    {
        match encode_reply(&mut self.resp_mr, payload) {
            Ok(n) => {
                self.len = n;
                Ok(())
            },
            Err(e) => Err(e),
        }
    }

    /// All bytes of the reply buffer, to be written in place. The valid
    /// length is set apart, in `len`.
    pub fn buf(&mut self) -> (r: &mut [u8])
        ensures
            r@ == old(self).resp_mr@,
            final(self).resp_mr@ == final(r)@,
            final(self).len == old(self).len,
    {
        self.resp_mr.as_mut_slice()
    }

    /// The valid bytes of the reply.
    ///
    /// Fails with `MalformedFrame` when the length reaches past the buffer.
    pub fn payload(&self) -> (r: Result<&[u8], FrameError>)
        ensures
            self.len <= self.resp_mr@.len() ==> (r matches Ok(p) && p@ == valid_bytes(
                self.resp_mr@,
                self.len as int,
            )),
            self.len > self.resp_mr@.len() ==> r == Err::<&[u8], FrameError>(
                FrameError::MalformedFrame,
            ),
    {
        let bytes = self.resp_mr.as_slice();
        if self.len > bytes.len() {
            return Err(FrameError::MalformedFrame);
        }
        Ok(vstd::slice::slice_subrange(bytes, 0, self.len))
    }
}

} // verus!
