use vstd::prelude::*;

use super::reason_code::DisconnectReasonCode;
use crate::encoding::decoder::FixedHeader as HeaderView;
use crate::encoding::decoder::{law_header_round_trip, reads_back, MqttDecode, MqttDecoder};
use crate::encoding::encoder::{bounded, frame, MqttEncode, MqttEncoder, MAX_MQTT_HEADER_LEN};
use crate::encoding::error::Error;
use crate::encoding::packets::PacketType;
use crate::encoding::FixedHeader;

verus! {

/// Closes the network connection between a client and a server.
#[derive(Debug, Clone, PartialEq)]
pub struct Disconnect {
    /// Why the connection is closed.
    pub reason_code: DisconnectReasonCode,
}

impl View for Disconnect {
    type V = DisconnectReasonCode;

    open spec fn view(&self) -> DisconnectReasonCode {
        self.reason_code
    }
}

impl Disconnect {
    /// Makes the packet. There is but one reason to close the connection.
    pub fn new() -> (packet: Self)
        ensures
            packet.reason_code == DisconnectReasonCode::Normal,
    {
        Disconnect { reason_code: DisconnectReasonCode::Normal }
    }

    /// Decoding what encoding the packet gave yields the packet again, whatever
    /// follows it.
    pub proof fn law_round_trip(packet: Self, rest: Seq<u8>)
        ensures
            reads_back::<Self>(
                PacketType::Disconnect,
                frame(PacketType::Disconnect.byte() | 0, Seq::empty()) + rest,
                packet@,
            ),
    {
        law_header_round_trip(PacketType::Disconnect, 0, Seq::empty(), rest);
    }
}

impl FixedHeader for Disconnect {
    open spec fn type_bits(&self) -> u8 {
        PacketType::Disconnect.byte()
    }

    open spec fn flag_bits(&self) -> u8 {
        0
    }

    fn flags(&self) -> (flags: u8) {
        0
    }

    fn packet_type(&self) -> (typ: u8) {
        u8::from(PacketType::Disconnect)
    }
}

impl MqttEncode for Disconnect {
    open spec fn encodable(&self) -> bool {
        true
    }

    open spec fn encodes_to(&self, capacity: nat, body: Result<Seq<u8>, Error>) -> bool {
        body == bounded(Seq::empty(), capacity)
    }

    open spec fn size_bound(&self) -> nat {
        MAX_MQTT_HEADER_LEN as nat
    }

    /// Encodes the `DISCONNECT` packet into the given encoder.
    fn to_buffer(&self, encoder: &mut MqttEncoder<'_>) -> (res: Result<(), Error>)
        ensures
            res is Ok ==> final(encoder).written() == frame(
                PacketType::Disconnect.byte() | 0,
                Seq::empty(),
            ),
    {
        encoder.finalize_fixed_header(self)
    }

    /// Returns the maximum size of the packet in bytes.
    fn max_packet_size(&self) -> (n: usize) {
        MAX_MQTT_HEADER_LEN
    }
}

impl<'a> MqttDecode<'a> for Disconnect {
    open spec fn parsed(header: HeaderView, rest: Seq<u8>, left: int) -> Result<
        DisconnectReasonCode,
        Error,
    > {
        if header.remaining_len >= 2 && rest.len() < 1 {
            Err(Error::InsufficientBytes)
        } else {
            Ok(DisconnectReasonCode::Normal)
        }
    }

    open spec fn within_limits(rest: Seq<u8>, left: int) -> bool {
        true
    }

    /// Decodes the `DISCONNECT` packet from the given decoder.
    fn from_decoder(decoder: &mut MqttDecoder<'a>) -> (res: Result<Self, Error>) {
        if decoder.fixed_header().remaining_len < 2 {
            Ok(Disconnect::new())
        } else {
            let code: u8 = decoder.read_u8()?;
            Ok(Disconnect { reason_code: DisconnectReasonCode::from(code) })
        }
    }
}

} // verus!
