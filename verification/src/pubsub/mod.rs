//! Publish/Subscribe queue directly targeted towards internal usage in an MQTT
//! client implementation.
pub mod buffer_provider;
pub mod channel;
pub mod framed;
pub mod laws;
pub mod layout;
pub mod queue;
pub mod vusize;
pub mod wakers;

pub use buffer_provider::{BufferProvider, SliceBufferProvider, StaticBufferProvider};
pub use channel::{
    FrameGrantR, FrameGrantW, FramePublisher, FrameSubscriber, PubSubChannel, Wake,
};
pub use queue::{Header, MessageQueue};

use vstd::prelude::*;

verus! {

/// Error type used by the `PubSub` interfaces
#[derive(Debug, PartialEq, Eq, Copy, Clone, Structural)]
pub enum Error {
    /// The buffer does not contain sufficient size for the requested action
    InsufficientSize,
    /// Unable to produce another grant, a grant of this type is already in
    /// progress
    GrantInProgress,
    /// The publisher has already been taken and cannot be created again.
    PublisherAlreadyTaken,
    /// The maximum number of subscribers has been reached.
    MaximumSubscribersReached,
}

} // verus!
