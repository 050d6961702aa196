pub mod ack;
pub mod connack;
pub mod connect;
pub mod disconnect;
pub mod packet_type;
pub mod payload;
pub mod pingreq;
pub mod pingresp;
pub mod puback;
pub mod pubcomp;
pub mod publish;
pub mod pubrec;
pub mod pubrel;
pub mod suback;
pub mod subscribe;
pub mod unsuback;
pub mod unsubscribe;

pub use connack::ConnAck;
pub use connect::{Connect, LastWill, Protocol};
pub use disconnect::Disconnect;
pub use packet_type::PacketType;
pub use payload::{DeferredPayload, ToPayload};
pub use pingreq::PingReq;
pub use pingresp::PingResp;
pub use puback::PubAck;
pub use pubcomp::PubComp;
pub use publish::{PartialPublish, Publish, PublishBuilder};
pub use pubrec::PubRec;
pub use pubrel::PubRel;
pub use suback::SubAck;
pub use subscribe::{RetainHandling, Subscribe, SubscribeTopic};
pub use unsuback::UnsubAck;
pub use unsubscribe::Unsubscribe;
