//! Remote procedure calls over RDMA memory regions.
//!
//! - `buffer`: fixed-capacity byte regions.
//! - `frame`: the layout of a request (`path`, one space, payload) and of a
//!   reply (payload alone) inside a buffer, and how to read them back.
//! - `envelope`: a received request with its reserved reply buffer, and a reply.
//! - `channel`: the decisions of one call, from allocation to accepted reply.
pub mod buffer;
pub mod channel;
pub mod envelope;
pub mod frame;
