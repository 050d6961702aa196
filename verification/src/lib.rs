//! An MQTT client core: packet encoding and decoding, packet framing, the
//! publish/subscribe frame queue, topic filters and the protocol state machines.
pub mod clients;
pub mod collections;
pub mod config;
pub mod crate_config;
pub mod encoding;
pub mod error;
pub mod eventloop;
pub mod exp;
pub mod message;
pub mod options;
pub mod packet;
pub mod pubsub;
pub mod requests;
pub mod stack;
pub mod state;
pub mod time;
pub mod topic_filter;
pub mod transport;

pub use config::Config;
pub use encoding::{
    ConnAck, ConnAckReasonCode, Connect, DeferredPayload, Disconnect, DisconnectReasonCode,
    EncodingError, FixedHeader, LastWill, Pid, PingReq, PingResp, Properties, Property, Protocol,
    PubAck, PubAckReasonCode, PubComp, PubCompReasonCode, PubRec, PubRecReasonCode, PubRel,
    PubRelReasonCode, Publish, QoS, QosPid, RetainHandling, StateError, SubAck, SubAckReasonCode,
    Subscribe, SubscribeTopic, ToPayload, UnsubAck, UnsubAckReasonCode, Unsubscribe,
};
pub use error::Error;
pub use message::Message;
pub use pubsub::{
    BufferProvider, FrameGrantR, FrameGrantW, FramePublisher, FrameSubscriber, PubSubChannel,
    SliceBufferProvider,
};
pub use stack::MqttStack;
