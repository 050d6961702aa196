use vstd::prelude::*;

use super::PacketType;
use crate::encoding::decoder::FixedHeader as HeaderView;
use crate::encoding::decoder::{law_header_round_trip, reads_back, MqttDecode, MqttDecoder};
use crate::encoding::encoder::{bounded, frame, MqttEncode, MqttEncoder, MAX_MQTT_HEADER_LEN};
use crate::encoding::error::Error;
use crate::encoding::FixedHeader;

verus! {

/// Represents a `PINGRESP` packet.
///
/// This packet is the answer of the server to a `PINGREQ` packet.
#[derive(Debug, Clone, Copy, PartialEq)]
pub struct PingResp;

impl View for PingResp {
    type V = ();

    open spec fn view(&self) -> () {
        ()
    }
}

impl PingResp {
    /// Decoding what encoding the packet gave yields the packet again, whatever
    /// follows it.
    pub proof fn law_round_trip(packet: Self, rest: Seq<u8>)
        ensures
            reads_back::<Self>(
                PacketType::PingResp,
                frame(PacketType::PingResp.byte() | 0, Seq::empty()) + rest,
                packet@,
            ),
    {
        law_header_round_trip(PacketType::PingResp, 0, Seq::empty(), rest);
    }
}

impl FixedHeader for PingResp {
    open spec fn type_bits(&self) -> u8 {
        PacketType::PingResp.byte()
    }

    open spec fn flag_bits(&self) -> u8 {
        0
    }

    fn flags(&self) -> (flags: u8) {
        0
    }

    fn packet_type(&self) -> (typ: u8) {
        u8::from(PacketType::PingResp)
    }
}

impl MqttEncode for PingResp {
    open spec fn encodable(&self) -> bool {
        true
    }

    open spec fn encodes_to(&self, capacity: nat, body: Result<Seq<u8>, Error>) -> bool {
        body == bounded(Seq::empty(), capacity)
    }

    open spec fn size_bound(&self) -> nat {
        MAX_MQTT_HEADER_LEN as nat
    }

    /// Encodes the `PINGRESP` packet into the given encoder.
    fn to_buffer(&self, encoder: &mut MqttEncoder<'_>) -> (res: Result<(), Error>)
        ensures
            res is Ok ==> final(encoder).written() == frame(
                PacketType::PingResp.byte() | 0,
                Seq::empty(),
            ),
    {
        encoder.finalize_fixed_header(self)
    }

    /// Returns the maximum size of the packet in bytes.
    fn max_packet_size(&self) -> (n: usize) {
        MAX_MQTT_HEADER_LEN
    }
}

impl<'a> MqttDecode<'a> for PingResp {
    open spec fn parsed(header: HeaderView, rest: Seq<u8>, left: int) -> Result<(), Error> {
        Ok(())
    }

    open spec fn within_limits(rest: Seq<u8>, left: int) -> bool {
        true
    }

    /// Decodes the `PINGRESP` packet from the given decoder.
    fn from_decoder(_decoder: &mut MqttDecoder<'a>) -> (res: Result<Self, Error>) {
        Ok(PingResp)
    }
}

} // verus!
