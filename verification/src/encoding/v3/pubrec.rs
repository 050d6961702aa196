use vstd::prelude::*;

use crate::encoding::decoder::FixedHeader as HeaderView;
use crate::encoding::decoder::{law_header_round_trip, reads_back, MqttDecode, MqttDecoder};
use crate::encoding::encoder::{bounded, frame, MqttEncode, MqttEncoder, MAX_MQTT_HEADER_LEN};
use crate::encoding::error::Error;
use crate::encoding::packets::ack::{pid_at, read_pid};
use crate::encoding::packets::PacketType;
use crate::encoding::utils::Pid;
use crate::encoding::wire::{law_u16_round_trip, u16_bytes};
use crate::encoding::FixedHeader;

verus! {

/// Acknowledges a PUBLISH packet with QoS 2.
#[derive(Debug, Clone, PartialEq)]
pub struct PubRec {
    /// The packet identifier of the packet that is being answered.
    pub pid: Pid,
}

impl View for PubRec {
    type V = u16;

    open spec fn view(&self) -> u16 {
        self.pid@
    }
}

impl PubRec {
    /// The packet without its fixed header.
    pub open spec fn body(&self) -> Seq<u8> {
        u16_bytes(self.pid@)
    }

    /// Decoding what encoding the packet gave yields the packet again, whatever
    /// follows it.
    pub proof fn law_round_trip(packet: Self, rest: Seq<u8>)
        requires
            packet.pid@ != 0,
        ensures
            reads_back::<Self>(
                PacketType::PubRec,
                frame(PacketType::PubRec.byte() | 0, packet.body()) + rest,
                packet@,
            ),
    {
        let body = packet.body();
        law_header_round_trip(PacketType::PubRec, 0, body, rest);
        law_u16_round_trip(packet.pid@);
        assert((body + rest)[0] == body[0] && (body + rest)[1] == body[1]);
    }
}

impl FixedHeader for PubRec {
    open spec fn type_bits(&self) -> u8 {
        PacketType::PubRec.byte()
    }

    open spec fn flag_bits(&self) -> u8 {
        0
    }

    fn flags(&self) -> (flags: u8) {
        0
    }

    fn packet_type(&self) -> (typ: u8) {
        u8::from(PacketType::PubRec)
    }
}

impl MqttEncode for PubRec {
    open spec fn encodable(&self) -> bool {
        true
    }

    open spec fn encodes_to(&self, capacity: nat, body: Result<Seq<u8>, Error>) -> bool {
        body == bounded(self.body(), capacity)
    }

    open spec fn size_bound(&self) -> nat {
        MAX_MQTT_HEADER_LEN as nat + 2
    }

    /// Encodes the packet into the given encoder.
    fn to_buffer(&self, encoder: &mut MqttEncoder<'_>) -> (res: Result<(), Error>)
        ensures
            res is Ok ==> final(encoder).written() == frame(
                PacketType::PubRec.byte() | 0,
                self.body(),
            ),
    {
        encoder.write_u16(self.pid.get())?;
        assert(encoder.written() =~= self.body());
        encoder.finalize_fixed_header(self)
    }

    /// Returns the maximum size of the packet in bytes.
    fn max_packet_size(&self) -> (n: usize) {
        2 + MAX_MQTT_HEADER_LEN
    }
}

impl<'a> MqttDecode<'a> for PubRec {
    open spec fn parsed(header: HeaderView, rest: Seq<u8>, left: int) -> Result<u16, Error> {
        pid_at(rest)
    }

    open spec fn within_limits(rest: Seq<u8>, left: int) -> bool {
        true
    }

    /// Decodes the packet from the given decoder.
    fn from_decoder(decoder: &mut MqttDecoder<'a>) -> (res: Result<Self, Error>) {
        let pid: Pid = read_pid(decoder)?;
        Ok(PubRec { pid })
    }
}

} // verus!
