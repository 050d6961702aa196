use vstd::prelude::*;

use crate::encoding::error::Error;

verus! {

/// The type of an MQTT packet.
#[derive(Debug, Clone, Copy, PartialEq, Eq, Structural)]
pub enum PacketType {
    Connect,
    ConnAck,
    Publish,
    PubAck,
    PubRec,
    PubRel,
    PubComp,
    Subscribe,
    SubAck,
    Unsubscribe,
    UnsubAck,
    PingReq,
    PingResp,
    Disconnect,
    Auth,
}

impl PacketType {
    /// The number of the packet type: the upper half of the first byte of a packet.
    pub open spec fn number(self) -> u8 {
        match self {
            PacketType::Connect => 1,
            PacketType::ConnAck => 2,
            PacketType::Publish => 3,
            PacketType::PubAck => 4,
            PacketType::PubRec => 5,
            PacketType::PubRel => 6,
            PacketType::PubComp => 7,
            PacketType::Subscribe => 8,
            PacketType::SubAck => 9,
            PacketType::Unsubscribe => 10,
            PacketType::UnsubAck => 11,
            PacketType::PingReq => 12,
            PacketType::PingResp => 13,
            PacketType::Disconnect => 14,
            PacketType::Auth => 15,
        }
    }

    /// The packet type with some number, if there is one.
    pub open spec fn of_number(number: u8) -> Option<PacketType> {
        match number {
            1 => Some(PacketType::Connect),
            2 => Some(PacketType::ConnAck),
            3 => Some(PacketType::Publish),
            4 => Some(PacketType::PubAck),
            5 => Some(PacketType::PubRec),
            6 => Some(PacketType::PubRel),
            7 => Some(PacketType::PubComp),
            8 => Some(PacketType::Subscribe),
            9 => Some(PacketType::SubAck),
            10 => Some(PacketType::Unsubscribe),
            11 => Some(PacketType::UnsubAck),
            12 => Some(PacketType::PingReq),
            13 => Some(PacketType::PingResp),
            14 => Some(PacketType::Disconnect),
            15 => Some(PacketType::Auth),
            _ => None,
        }
    }

    /// The first byte of a packet of the type, with no flags set.
    pub open spec fn byte(self) -> u8 {
        (self.number() * 16) as u8
    }

    /// The packet types have the numbers that MQTT gives them, in the upper half
    /// of the first byte of a packet.
    pub proof fn law_numbers(typ: PacketType)
        ensures
            PacketType::Connect.number() == 1,
            PacketType::ConnAck.number() == 2,
            PacketType::Publish.number() == 3,
            PacketType::PubAck.number() == 4,
            PacketType::PubRec.number() == 5,
            PacketType::PubRel.number() == 6,
            PacketType::PubComp.number() == 7,
            PacketType::Subscribe.number() == 8,
            PacketType::SubAck.number() == 9,
            PacketType::Unsubscribe.number() == 10,
            PacketType::UnsubAck.number() == 11,
            PacketType::PingReq.number() == 12,
            PacketType::PingResp.number() == 13,
            PacketType::Disconnect.number() == 14,
            PacketType::Auth.number() == 15,
            typ.byte() == typ.number() * 16,
    {
    }

    /// Every packet type but none else is the type with its number.
    pub proof fn law_number_round_trip(typ: PacketType, number: u8)
        ensures
            Self::of_number(typ.number()) == Some(typ),
            Self::of_number(number) matches Some(t) ==> t.number() == number,
            Self::of_number(number) is None <==> number == 0 || number > 15,
    {
    }
}

impl From<PacketType> for u8 {
    fn from(typ: PacketType) -> (byte: u8) {
        match typ {
            PacketType::Connect => 0x10,
            PacketType::ConnAck => 0x20,
            PacketType::Publish => 0x30,
            PacketType::PubAck => 0x40,
            PacketType::PubRec => 0x50,
            PacketType::PubRel => 0x60,
            PacketType::PubComp => 0x70,
            PacketType::Subscribe => 0x80,
            PacketType::SubAck => 0x90,
            PacketType::Unsubscribe => 0xA0,
            PacketType::UnsubAck => 0xB0,
            PacketType::PingReq => 0xC0,
            PacketType::PingResp => 0xD0,
            PacketType::Disconnect => 0xE0,
            PacketType::Auth => 0xF0,
        }
    }
}

impl vstd::std_specs::convert::FromSpecImpl<PacketType> for u8 {
    open spec fn obeys_from_spec() -> bool {
        true
    }

    open spec fn from_spec(typ: PacketType) -> u8 {
        typ.byte()
    }
}

impl TryFrom<u8> for PacketType {
    type Error = Error;

    fn try_from(byte: u8) -> (res: Result<Self, Error>) {
        match byte {
            0x10 => Ok(PacketType::Connect),
            0x20 => Ok(PacketType::ConnAck),
            0x30 => Ok(PacketType::Publish),
            0x40 => Ok(PacketType::PubAck),
            0x50 => Ok(PacketType::PubRec),
            0x60 => Ok(PacketType::PubRel),
            0x70 => Ok(PacketType::PubComp),
            0x80 => Ok(PacketType::Subscribe),
            0x90 => Ok(PacketType::SubAck),
            0xA0 => Ok(PacketType::Unsubscribe),
            0xB0 => Ok(PacketType::UnsubAck),
            0xC0 => Ok(PacketType::PingReq),
            0xD0 => Ok(PacketType::PingResp),
            0xE0 => Ok(PacketType::Disconnect),
            0xF0 => Ok(PacketType::Auth),
            _ => Err(Error::InvalidHeader),
        }
    }
}

impl vstd::std_specs::convert::TryFromSpecImpl<u8> for PacketType {
    open spec fn obeys_try_from_spec() -> bool {
        true
    }

    open spec fn try_from_spec(byte: u8) -> Result<Self, Error> {
        if byte % 16 == 0 {
            match PacketType::of_number(byte / 16) {
                Some(typ) => Ok(typ),
                None => Err(Error::InvalidHeader),
            }
        } else {
            Err(Error::InvalidHeader)
        }
    }
}

/// The type of a packet is told from the byte that stands for it, and a byte with
/// flags in it or without a type stands for none.
pub proof fn law_types_are_told_by_their_byte(
    typ: PacketType,
    byte: u8,
    number: u8,
    res: Result<PacketType, Error>,
)
    requires
        call_ensures(<u8 as From<PacketType>>::from, (typ,), byte),
        call_ensures(<PacketType as TryFrom<u8>>::try_from, (number,), res),
    ensures
        byte == 16 * typ.number(),
        number == byte ==> res == Ok::<PacketType, Error>(typ),
        res is Ok <==> number % 16 == 0 && number >= 16,
        res matches Err(e) ==> e == Error::InvalidHeader,
{
    PacketType::law_numbers(typ);
    PacketType::law_number_round_trip(typ, number / 16);
}

} // verus!
