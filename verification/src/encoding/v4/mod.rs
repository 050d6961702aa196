//! The parts of an MQTT 3.1.1 codec that works on a buffer and an offset into it.
pub mod connect;
pub mod decoder;
pub mod encoder;
pub mod utils;

pub use connect::{Connack, Connect, ConnectReturnCode, LastWill};
pub use decoder::{read_header, Header, PacketType};
pub use utils::Error;
