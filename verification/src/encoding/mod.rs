pub mod decoder;
pub mod encoder;
pub mod error;
pub mod laws;
pub mod packet;
pub mod packets;
pub mod properties;
pub mod reason_code;
pub mod received_packet;
pub mod utils;
pub mod v3;
pub mod v4;
pub mod wire;

pub use error::{Error as EncodingError, StateError};
pub use packets::{
    ConnAck, Connect, DeferredPayload, Disconnect, LastWill, PingReq, PingResp, Protocol, PubAck,
    PubComp, PubRec, PubRel, Publish, RetainHandling, SubAck, Subscribe, SubscribeTopic,
    ToPayload, UnsubAck, Unsubscribe,
};
pub use properties::{Properties, Property};
pub use reason_code::{
    ConnAckReasonCode, DisconnectReasonCode, PubAckReasonCode, PubCompReasonCode, PubRecReasonCode,
    PubRelReasonCode, SubAckReasonCode, UnsubAckReasonCode,
};
pub use utils::{Pid, QoS, QosPid};
pub use wire::varint_len;

use vstd::prelude::*;

verus! {

/// A trait for representing the fixed header of an MQTT packet.
pub trait FixedHeader {
    /// The packet type, in the upper half of the first byte of the packet.
    spec fn type_bits(&self) -> u8;

    /// The flags, in the lower half of the first byte of the packet.
    spec fn flag_bits(&self) -> u8;

    /// Returns the flags associated with the fixed header.
    fn flags(&self) -> (flags: u8)
        ensures
            flags == self.flag_bits(),
    ;

    /// Returns the packet type as a byte.
    fn packet_type(&self) -> (typ: u8)
        ensures
            typ == self.type_bits(),
    ;
}

} // verus!
