//! The sizes of the collections of fixed capacity.
use vstd::prelude::*;

verus! {

pub const MAX_CLIENT_ID_LEN: usize = 64;

pub const MAX_TOPIC_LEN: usize = 128;

pub const MAX_SUB_TOPICS_PER_MSG: usize = 8;

pub const MAX_SUBSCRIBERS: usize = 8;

pub const MAX_INFLIGHT: usize = 8;

pub const MAX_PUBSUB_MESSAGES: usize = 16;

/// The length of the buffers of the event loop.
pub const RX_BUF_LEN: usize = 1024;

} // verus!
