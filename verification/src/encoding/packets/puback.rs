use vstd::prelude::*;

use super::ack::{ack_at, ack_body, ack_len, law_ack_round_trip, read_ack, write_ack, AckView};
use super::PacketType;
use crate::encoding::decoder::FixedHeader as HeaderView;
use crate::encoding::decoder::{law_header_round_trip, reads_back, MqttDecode, MqttDecoder};
use crate::encoding::encoder::{bounded, frame, MqttEncode, MqttEncoder, MAX_MQTT_HEADER_LEN};
use crate::encoding::error::Error;
use crate::encoding::properties::Properties;
use crate::encoding::reason_code::PubAckReasonCode;
use crate::encoding::utils::Pid;
use crate::encoding::wire::MAX_VARINT;
use crate::encoding::FixedHeader;

verus! {

/// A PubAck packet is sent by the receiver of a PUBLISH packet to acknowledge
/// that the PUBLISH packet has been received.
#[derive(Debug, Clone, PartialEq)]
pub struct PubAck<'a> {
    /// The packet identifier of the PUBLISH packet that is being acknowledged.
    pub pid: Pid,
    /// Why the packet was sent.
    pub reason_code: PubAckReasonCode,
    /// Further information about the acknowledgement.
    pub properties: Properties<'a>,
}

impl<'a> View for PubAck<'a> {
    type V = AckView<PubAckReasonCode>;

    open spec fn view(&self) -> AckView<PubAckReasonCode> {
        AckView {
            pid: self.pid@,
            reason_code: self.reason_code,
            properties: self.properties.block(),
        }
    }
}

impl<'a> PubAck<'a> {
    /// The packet without its fixed header.
    pub open spec fn body(&self) -> Seq<u8> {
        ack_body(self.pid@, self.reason_code.code(), self.properties.block())
    }

    /// Decoding what encoding the packet gave yields the packet again, whatever
    /// follows it.
    pub proof fn law_round_trip(packet: Self, rest: Seq<u8>)
        requires
            packet.encodable(),
            packet.body().len() <= MAX_VARINT,
            packet.pid@ != 0,
        ensures
            reads_back::<Self>(
                PacketType::PubAck,
                frame(PacketType::PubAck.byte() | 0, packet.body()) + rest,
                packet@,
            ),
    {
        law_header_round_trip(PacketType::PubAck, 0, packet.body(), rest);
        law_ack_round_trip(packet.pid@, packet.reason_code.code(), packet.properties.block(), rest);
        PubAckReasonCode::law_code_round_trip(packet.reason_code, 0);
    }
}

impl<'a> FixedHeader for PubAck<'a> {
    open spec fn type_bits(&self) -> u8 {
        PacketType::PubAck.byte()
    }

    open spec fn flag_bits(&self) -> u8 {
        0
    }

    fn flags(&self) -> (flags: u8) {
        0
    }

    fn packet_type(&self) -> (typ: u8) {
        u8::from(PacketType::PubAck)
    }
}

impl<'a> MqttEncode for PubAck<'a> {
    open spec fn encodable(&self) -> bool {
        self.properties.valid()
    }

    open spec fn encodes_to(&self, capacity: nat, body: Result<Seq<u8>, Error>) -> bool {
        body == bounded(self.body(), capacity)
    }

    open spec fn size_bound(&self) -> nat {
        MAX_MQTT_HEADER_LEN as nat + self.body().len()
    }

    /// Encodes the packet into the given encoder.
    fn to_buffer(&self, encoder: &mut MqttEncoder<'_>) -> (res: Result<(), Error>)
        ensures
            res is Ok ==> final(encoder).written() == frame(
                PacketType::PubAck.byte() | 0,
                self.body(),
            ),
    {
        write_ack(encoder, self.pid, u8::from(self.reason_code), &self.properties)?;
        assert(encoder.written() =~= self.body());
        encoder.finalize_fixed_header(self)
    }

    /// Returns the maximum size of the packet in bytes.
    fn max_packet_size(&self) -> (n: usize) {
        MAX_MQTT_HEADER_LEN + ack_len(u8::from(self.reason_code), &self.properties)
    }
}

impl<'a> MqttDecode<'a> for PubAck<'a> {
    open spec fn parsed(header: HeaderView, rest: Seq<u8>, left: int) -> Result<Self::V, Error> {
        match ack_at(header.remaining_len, rest) {
            Err(e) => Err(e),
            Ok((pid, code, properties)) => Ok(
                AckView { pid, reason_code: PubAckReasonCode::of_code(code), properties },
            ),
        }
    }

    open spec fn within_limits(rest: Seq<u8>, left: int) -> bool {
        true
    }

    /// Decodes the packet from the given decoder.
    fn from_decoder(decoder: &mut MqttDecoder<'a>) -> (res: Result<Self, Error>)
        ensures
            res matches Ok(packet) ==> packet.properties is DataBlock,
    {
        let (pid, code, properties): (Pid, u8, Properties<'a>) = read_ack(decoder)?;
        Ok(PubAck { pid, reason_code: PubAckReasonCode::from(code), properties })
    }
}

} // verus!
