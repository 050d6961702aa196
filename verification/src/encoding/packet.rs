use vstd::prelude::*;

use super::error::Error;

verus! {

/// Packet type variant, without the associated data.
#[derive(Debug, Copy, Clone, PartialEq, Eq, Hash, Structural)]
pub enum PacketType {
    Connect,
    ConnAck,
    Publish,
    PubAck,
    PubRec,
    PubRel,
    PubComp,
    Subscribe,
    SubAck,
    Unsubscribe,
    UnsubAck,
    PingReq,
    PingResp,
    Disconnect,
    Auth,
}

impl PacketType {
    /// The first byte of a packet of this type: its number, and the flags that
    /// it demands.
    pub open spec fn byte(self) -> u8 {
        match self {
            PacketType::Connect => 0x10,
            PacketType::ConnAck => 0x20,
            PacketType::Publish => 0x30,
            PacketType::PubAck => 0x40,
            PacketType::PubRec => 0x50,
            PacketType::PubRel => 0x62,
            PacketType::PubComp => 0x70,
            PacketType::Subscribe => 0x82,
            PacketType::SubAck => 0x90,
            PacketType::Unsubscribe => 0xA2,
            PacketType::UnsubAck => 0xB0,
            PacketType::PingReq => 0xC0,
            PacketType::PingResp => 0xD0,
            PacketType::Disconnect => 0xE0,
            PacketType::Auth => 0xF0,
        }
    }

    /// Returns the first byte of a packet of this type.
    pub fn to_byte(self) -> (byte: u8)
        ensures
            byte == self.byte(),
    {
        match self {
            PacketType::Connect => 0x10,
            PacketType::ConnAck => 0x20,
            PacketType::Publish => 0x30,
            PacketType::PubAck => 0x40,
            PacketType::PubRec => 0x50,
            PacketType::PubRel => 0x62,
            PacketType::PubComp => 0x70,
            PacketType::Subscribe => 0x82,
            PacketType::SubAck => 0x90,
            PacketType::Unsubscribe => 0xA2,
            PacketType::UnsubAck => 0xB0,
            PacketType::PingReq => 0xC0,
            PacketType::PingResp => 0xD0,
            PacketType::Disconnect => 0xE0,
            PacketType::Auth => 0xF0,
        }
    }

    /// Tells the type of a packet from its first byte. The flags do not matter.
    pub fn try_from(orig: u8) -> (res: Result<Self, Error>)
        ensures
            match res {
                Ok(typ) => typ.byte() / 16 == orig / 16,
                Err(e) => orig / 16 == 0 && e == Error::InvalidHeader,
            },
    {
        match orig / 16 {
            0x1 => Ok(PacketType::Connect),
            0x2 => Ok(PacketType::ConnAck),
            0x3 => Ok(PacketType::Publish),
            0x4 => Ok(PacketType::PubAck),
            0x5 => Ok(PacketType::PubRec),
            0x6 => Ok(PacketType::PubRel),
            0x7 => Ok(PacketType::PubComp),
            0x8 => Ok(PacketType::Subscribe),
            0x9 => Ok(PacketType::SubAck),
            0xA => Ok(PacketType::Unsubscribe),
            0xB => Ok(PacketType::UnsubAck),
            0xC => Ok(PacketType::PingReq),
            0xD => Ok(PacketType::PingResp),
            0xE => Ok(PacketType::Disconnect),
            0xF => Ok(PacketType::Auth),
            _ => Err(Error::InvalidHeader),
        }
    }

    /// The first byte of a packet holds the number of its type in the upper half,
    /// and below it the flags that MQTT demands: bit 1 is set for PUBREL,
    /// SUBSCRIBE and UNSUBSCRIBE packets alone.
    pub proof fn law_first_bytes(typ: Self)
        ensures
            typ.byte() / 16 == match typ {
                PacketType::Connect => 1int,
                PacketType::ConnAck => 2,
                PacketType::Publish => 3,
                PacketType::PubAck => 4,
                PacketType::PubRec => 5,
                PacketType::PubRel => 6,
                PacketType::PubComp => 7,
                PacketType::Subscribe => 8,
                PacketType::SubAck => 9,
                PacketType::Unsubscribe => 10,
                PacketType::UnsubAck => 11,
                PacketType::PingReq => 12,
                PacketType::PingResp => 13,
                PacketType::Disconnect => 14,
                PacketType::Auth => 15,
            },
            typ.byte() % 16 == if typ == PacketType::PubRel || typ == PacketType::Subscribe || typ
                == PacketType::Unsubscribe {
                2int
            } else {
                0
            },
    {
    }

    /// The type of a packet can be told from its first byte.
    pub proof fn law_byte_tells_type(a: Self, b: Self)
        ensures
            a.byte() / 16 == b.byte() / 16 <==> a == b,
    {
    }
}

} // verus!
