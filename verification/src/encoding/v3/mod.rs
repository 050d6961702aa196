//! The packets and reason codes of MQTT 3.1.1, which carry no properties.
pub mod connack;
pub mod disconnect;
pub mod puback;
pub mod pubcomp;
pub mod pubrec;
pub mod reason_code;
pub mod unsuback;

pub use connack::ConnAck;
pub use disconnect::Disconnect;
pub use puback::PubAck;
pub use pubcomp::PubComp;
pub use pubrec::PubRec;
pub use reason_code::{ConnAckReasonCode, DisconnectReasonCode, SubAckReasonCode};
pub use unsuback::UnsubAck;
