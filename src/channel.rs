//! The decisions of one call over an RDMA connection.
//!
//! The caller allocates a buffer, writes the request frame into it, sends it
//! with its length as immediate data, then waits for exactly one reply, whose
//! immediate data gives its valid length. The side that talks to the endpoint
//! performs each `CallAction` and reports what happened as a `CallEvent`;
//! `next_step` decides what comes next.
use vstd::prelude::*;

use crate::buffer::Buffer;
use crate::envelope::RdmaResponse;
use crate::frame::{encode_request, request_frame, request_frame_len, FrameError};
use vstd::string::*;

verus! {

/// Capacity of every buffer of a channel: the largest message it carries.
pub const MAX_MSG_LEN: usize = 10240;

/// Largest length that the immediate data of a transfer can carry.
pub const MAX_IMM: u32 = 0xffff_ffff;

/// Why a call failed.
#[derive(Debug, Clone, Copy, PartialEq, Eq, Structural)]
pub enum CallError {
    /// No buffer could be allocated.
    Alloc,
    /// The frame could not be written, or the reply's length is out of bounds.
    Encoding(FrameError),
    /// Sending or receiving failed, or the reply carried no length.
    Transport,
}

/// Where a call stands.
#[derive(Debug, Clone, Copy, PartialEq, Eq, Structural)]
pub enum CallState {
    /// Nothing done yet.
    Idle,
    /// Waiting for a buffer and the frame written into it.
    Encoding,
    /// The frame of `len` bytes is being sent.
    Sending { len: u32 },
    /// Waiting for the reply.
    AwaitingReply,
    /// The reply has arrived with `len` valid bytes.
    Decoded { len: usize },
    /// The call ended with an error.
    Failed(CallError),
}

/// What happened since the last action.
#[derive(Debug, Clone, Copy, PartialEq, Eq, Structural)]
pub enum CallEvent {
    /// The call is to begin.
    Start,
    /// A buffer was allocated and a frame of `len` bytes written into it.
    Encoded { len: usize },
    /// A buffer was allocated but the frame could not be written into it.
    EncodeFailed(FrameError),
    /// No buffer could be allocated.
    AllocFailed,
    /// The send finished; `ok` tells whether it succeeded.
    SendDone { ok: bool },
    /// A reply arrived in a buffer of `capacity` bytes, with immediate data `imm`.
    ReplyArrived { imm: Option<u32>, capacity: usize },
    /// Receiving failed.
    ReceiveFailed,
}

/// What the endpoint side is to do next.
#[derive(Debug, Clone, Copy, PartialEq, Eq, Structural)]
pub enum CallAction {
    /// Allocate a buffer and write the request frame into it.
    Allocate,
    /// Send the buffer with `len` as immediate data.
    Send { len: u32 },
    /// Wait for one reply.
    Receive,
    /// The call is over; its state holds the outcome.
    Finish,
}

/// The state and action that follow `s` on event `e`.
///
/// An event that does not belong to the state leaves the state as it is and
/// asks for nothing new (`Finish` once the call is over, else the action that
/// the state waits on).
pub open spec fn step_spec(s: CallState, e: CallEvent) -> (CallState, CallAction) {
    match (s, e) {
        (CallState::Idle, CallEvent::Start) => (CallState::Encoding, CallAction::Allocate),
        (CallState::Encoding, CallEvent::AllocFailed) => (
            CallState::Failed(CallError::Alloc),
            CallAction::Finish,
        ),
        (CallState::Encoding, CallEvent::Encoded { len }) => if len <= MAX_IMM {
            (CallState::Sending { len: len as u32 }, CallAction::Send { len: len as u32 })
        } else {
            (
                CallState::Failed(CallError::Encoding(FrameError::FrameTooLarge)),
                CallAction::Finish,
            )
        },
        (CallState::Encoding, CallEvent::EncodeFailed(fe)) => (
            CallState::Failed(CallError::Encoding(fe)),
            CallAction::Finish,
        ),
        (CallState::Sending { len }, CallEvent::SendDone { ok }) => if ok {
            (CallState::AwaitingReply, CallAction::Receive)
        } else {
            (CallState::Failed(CallError::Transport), CallAction::Finish)
        },
        (CallState::AwaitingReply, CallEvent::ReceiveFailed) => (
            CallState::Failed(CallError::Transport),
            CallAction::Finish,
        ),
        (CallState::AwaitingReply, CallEvent::ReplyArrived { imm, capacity }) => match imm {
            None => (CallState::Failed(CallError::Transport), CallAction::Finish),
            Some(n) => if n as int <= capacity as int {
                (CallState::Decoded { len: n as usize }, CallAction::Finish)
            } else {
                (
                    CallState::Failed(CallError::Encoding(FrameError::FrameTooLarge)),
                    CallAction::Finish,
                )
            },
        },
        _ => (s, waiting_action(s)),
    }
}

/// The action that state `s` waits on.
pub open spec fn waiting_action(s: CallState) -> CallAction {
    match s {
        CallState::Idle => CallAction::Finish,
        CallState::Encoding => CallAction::Allocate,
        CallState::Sending { len } => CallAction::Send { len },
        CallState::AwaitingReply => CallAction::Receive,
        _ => CallAction::Finish,
    }
}

/// The call is over.
pub open spec fn is_terminal(s: CallState) -> bool {
    s is Decoded || s is Failed
}

/// A call that has ended stays ended: no event changes its state, and nothing
/// more is asked of the endpoint. In particular a failed call is never retried.
pub proof fn lemma_terminal_is_final(s: CallState, e: CallEvent)
    requires
        is_terminal(s),
    ensures
        step_spec(s, e) == (s, CallAction::Finish),
{
}

/// A reply is accepted only with a length that fits the buffer it arrived in.
pub proof fn lemma_decoded_len_fits(imm: Option<u32>, capacity: usize)
    ensures
        step_spec(CallState::AwaitingReply, CallEvent::ReplyArrived { imm, capacity }).0 matches CallState::Decoded { len }
            ==> imm == Some(len as u32) && len <= capacity,
{
}

/// Decides what follows state `s` on event `e`.
pub fn next_step(s: CallState, e: CallEvent) -> (r: (CallState, CallAction))
    ensures
        r == step_spec(s, e),
{
    match (s, e) {
        (CallState::Idle, CallEvent::Start) => (CallState::Encoding, CallAction::Allocate),
        (CallState::Encoding, CallEvent::AllocFailed) => (
            CallState::Failed(CallError::Alloc),
            CallAction::Finish,
        ),
        (CallState::Encoding, CallEvent::Encoded { len }) => {
            if len as u64 <= MAX_IMM as u64 {
                (CallState::Sending { len: len as u32 }, CallAction::Send { len: len as u32 })
            } else {
                (
                    CallState::Failed(CallError::Encoding(FrameError::FrameTooLarge)),
                    CallAction::Finish,
                )
            }
        },
        (CallState::Encoding, CallEvent::EncodeFailed(fe)) => (
            CallState::Failed(CallError::Encoding(fe)),
            CallAction::Finish,
        ),
        (CallState::Sending { len }, CallEvent::SendDone { ok }) => {
            if ok {
                (CallState::AwaitingReply, CallAction::Receive)
            } else {
                (CallState::Failed(CallError::Transport), CallAction::Finish)
            }
        },
        (CallState::AwaitingReply, CallEvent::ReceiveFailed) => (
            CallState::Failed(CallError::Transport),
            CallAction::Finish,
        ),
        (CallState::AwaitingReply, CallEvent::ReplyArrived { imm, capacity }) => match imm {
            None => (CallState::Failed(CallError::Transport), CallAction::Finish),
            Some(n) => {
                if n as u64 <= capacity as u64 {
                    (CallState::Decoded { len: n as usize }, CallAction::Finish)
                } else {
                    (
                        CallState::Failed(CallError::Encoding(FrameError::FrameTooLarge)),
                        CallAction::Finish,
                    )
                }
            },
        },
        _ => {
            let a = match s {
                CallState::Idle => CallAction::Finish,
                CallState::Encoding => CallAction::Allocate,
                CallState::Sending { len } => CallAction::Send { len },
                CallState::AwaitingReply => CallAction::Receive,
                _ => CallAction::Finish,
            };
            (s, a)
        },
    }
}

/// Writes the request frame for `path` and `payload` into the freshly
/// allocated `buf` and reports the outcome as the event that follows.
pub fn encode_call(buf: &mut Buffer, path: &str, payload: &[u8]) -> (r: CallEvent)
    ensures
        ({
            let total = request_frame_len(path.spec_bytes(), payload@);
            &&& total <= old(buf)@.len() ==> r == (CallEvent::Encoded { len: total as usize })
                && final(buf)@ == request_frame(path.spec_bytes(), payload@) + old(
                buf,
            )@.subrange(total, old(buf)@.len() as int)
            &&& total > old(buf)@.len() ==> r == CallEvent::EncodeFailed(
                FrameError::FrameTooLarge,
            ) && final(buf)@ == old(buf)@
        }),
{
    match encode_request(buf, path, payload) {
        Ok(len) => CallEvent::Encoded { len },
        Err(e) => CallEvent::EncodeFailed(e),
    }
}

/// Turns a received reply buffer and its immediate data into a response.
///
/// Fails with `Transport` when the reply carried no length, and with
/// `Encoding(FrameTooLarge)` when the length exceeds the buffer.
pub fn accept_reply(buf: Buffer, imm: Option<u32>) -> (r: Result<RdmaResponse, CallError>)
    ensures
        imm is None ==> r == Err::<RdmaResponse, CallError>(CallError::Transport),
        imm is Some && imm->0 > buf@.len() ==> r == Err::<RdmaResponse, CallError>(
            CallError::Encoding(FrameError::FrameTooLarge),
        ),
        imm is Some && imm->0 <= buf@.len() ==> (r matches Ok(resp) && resp.resp_mr@ == buf@
            && resp.len == imm->0),
{
    match imm {
        None => Err(CallError::Transport),
        Some(n) => {
            if n as u64 > buf.capacity() as u64 {
                Err(CallError::Encoding(FrameError::FrameTooLarge))
            } else {
                Ok(RdmaResponse { resp_mr: buf, len: n as usize })
            }
        },
    }
}

} // verus!
