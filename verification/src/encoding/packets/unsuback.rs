use vstd::prelude::*;

use super::suback::{codes_at, codes_body, law_codes_round_trip, read_codes};
use super::PacketType;
use crate::collections::UnsubAckCodes;
use crate::crate_config::MAX_SUB_TOPICS_PER_MSG;
use crate::encoding::decoder::FixedHeader as HeaderView;
use crate::encoding::decoder::{law_header_round_trip, reads_back, MqttDecode, MqttDecoder};
use crate::encoding::encoder::{bounded, frame, MqttEncode, MqttEncoder, MAX_MQTT_HEADER_LEN};
use crate::encoding::error::Error;
use crate::encoding::properties::Properties;
use crate::encoding::reason_code::UnsubAckReasonCode;
use crate::encoding::utils::Pid;
use crate::encoding::wire::{properties_bytes, u16_bytes, varint_len, MAX_VARINT};
use crate::encoding::FixedHeader;

verus! {

/// UnsubAck packet - Unsubscribe Acknowledgement.
///
/// This packet is sent by the Server to the Client in response to an UNSUBSCRIBE packet.
#[derive(Debug, Clone, PartialEq)]
pub struct UnsubAck<'a> {
    /// The Packet Identifier as sent in the UNSUBSCRIBE packet.
    pub pid: Pid,
    /// The optional Properties of the Unsubscribe Acknowledgement packet.
    pub properties: Properties<'a>,
    /// The response status codes of the unsubscribe request.
    pub codes: UnsubAckCodes,
}

/// An UNSUBACK packet with its properties as they stand on the wire.
pub ghost struct UnsubAckView {
    pub pid: u16,
    pub properties: Seq<u8>,
    pub codes: Seq<UnsubAckReasonCode>,
}

impl<'a> View for UnsubAck<'a> {
    type V = UnsubAckView;

    open spec fn view(&self) -> UnsubAckView {
        UnsubAckView {
            pid: self.pid@,
            properties: self.properties.block(),
            codes: self.codes@,
        }
    }
}

/// The numbers of reason codes.
pub open spec fn code_numbers(codes: Seq<UnsubAckReasonCode>) -> Seq<u8> {
    Seq::new(codes.len(), |i: int| codes[i].code())
}

/// The reason codes that numbers stand for.
pub open spec fn codes_of_numbers(numbers: Seq<u8>) -> Seq<UnsubAckReasonCode> {
    Seq::new(numbers.len(), |i: int| UnsubAckReasonCode::of_code(numbers[i]))
}

impl<'a> UnsubAck<'a> {
    /// The packet without its fixed header.
    pub open spec fn body(&self) -> Seq<u8> {
        codes_body(self.pid@, self.properties.block(), code_numbers(self.codes@))
    }

    /// Decoding what encoding the packet gave yields the packet again, whatever
    /// follows it.
    pub proof fn law_round_trip(packet: Self, rest: Seq<u8>)
        requires
            packet.encodable(),
            packet.body().len() <= MAX_VARINT,
            packet.pid@ != 0,
        ensures
            reads_back::<Self>(
                PacketType::UnsubAck,
                frame(PacketType::UnsubAck.byte() | 0, packet.body()) + rest,
                packet@,
            ),
    {
        let numbers = code_numbers(packet.codes@);
        law_header_round_trip(PacketType::UnsubAck, 0, packet.body(), rest);
        law_codes_round_trip(packet.pid@, packet.properties.block(), numbers, rest);
        assert forall|i: int| 0 <= i < numbers.len() implies codes_of_numbers(numbers)[i]
            == packet.codes@[i] by {
            UnsubAckReasonCode::law_code_round_trip(packet.codes@[i], 0);
        }
        assert(codes_of_numbers(numbers) =~= packet.codes@);
    }
}

impl<'a> FixedHeader for UnsubAck<'a> {
    open spec fn type_bits(&self) -> u8 {
        PacketType::UnsubAck.byte()
    }

    open spec fn flag_bits(&self) -> u8 {
        0
    }

    fn flags(&self) -> (flags: u8) {
        0
    }

    fn packet_type(&self) -> (typ: u8) {
        u8::from(PacketType::UnsubAck)
    }
}

impl<'a> MqttEncode for UnsubAck<'a> {
    open spec fn encodable(&self) -> bool {
        self.properties.valid()
    }

    open spec fn encodes_to(&self, capacity: nat, body: Result<Seq<u8>, Error>) -> bool {
        body == bounded(self.body(), capacity)
    }

    open spec fn size_bound(&self) -> nat {
        MAX_MQTT_HEADER_LEN as nat + self.body().len()
    }

    /// Encodes the `UNSUBACK` packet into the given encoder.
    fn to_buffer(&self, encoder: &mut MqttEncoder<'_>) -> (res: Result<(), Error>)
        ensures
            res is Ok ==> final(encoder).written() == frame(
                PacketType::UnsubAck.byte() | 0,
                self.body(),
            ),
    {
        encoder.write_u16(self.pid.get())?;
        encoder.write_properties(&self.properties)?;
        let codes: &[UnsubAckReasonCode] = self.codes.as_slice();
        let ghost head = u16_bytes(self.pid@) + properties_bytes(self.properties.block());
        let ghost numbers = code_numbers(self.codes@);
        assert(encoder.written() =~= head + numbers.take(0));
        let mut i: usize = 0;
        while i < codes.len()
            invariant
                i <= codes@.len(),
                codes@ == self.codes@,
                numbers == code_numbers(self.codes@),
                head == u16_bytes(self.pid@) + properties_bytes(self.properties.block()),
                old(encoder).written() == Seq::<u8>::empty(),
                encoder.wf(),
                encoder.capacity() == old(encoder).capacity(),
                encoder.headless(),
                (*final(encoder.target()))@ == (*final(old(encoder).target()))@,
                encoder.written() == head + numbers.take(i as int),
                MAX_MQTT_HEADER_LEN + head.len() + i <= encoder.capacity() || head.len() + i == 0,
            decreases codes@.len() - i,
        {
            match encoder.write_u8(u8::from(codes[i])) {
                Ok(_) => {},
                Err(e) => {
                    return Err(e);
                },
            }
            i = i + 1;
            assert(encoder.written() =~= head + numbers.take(i as int));
        }
        assert(numbers.take(i as int) =~= numbers);
        encoder.finalize_fixed_header(self)
    }

    /// Returns the maximum size of the packet in bytes.
    fn max_packet_size(&self) -> (n: usize) {
        let mut length: usize = 2 + MAX_MQTT_HEADER_LEN;
        length = length + varint_len(self.properties.size());
        length = length + self.properties.size();
        length + self.codes.as_slice().len()
    }
}

impl<'a> MqttDecode<'a> for UnsubAck<'a> {
    open spec fn parsed(header: HeaderView, rest: Seq<u8>, left: int) -> Result<
        UnsubAckView,
        Error,
    > {
        match codes_at(rest, left) {
            Err(e) => Err(e),
            Ok((pid, properties, numbers)) => Ok(
                UnsubAckView { pid, properties, codes: codes_of_numbers(numbers) },
            ),
        }
    }

    open spec fn within_limits(rest: Seq<u8>, left: int) -> bool {
        codes_at(rest, left) matches Ok((_, _, numbers)) ==> numbers.len() <= MAX_SUB_TOPICS_PER_MSG
    }

    /// Decodes the `UNSUBACK` packet from the given decoder.
    fn from_decoder(decoder: &mut MqttDecoder<'a>) -> (res: Result<Self, Error>)
        ensures
            res matches Ok(packet) ==> packet.properties is DataBlock,
    {
        let (pid, properties, numbers): (Pid, Properties<'a>, &'a [u8]) = read_codes(decoder)?;
        let mut codes: UnsubAckCodes = UnsubAckCodes::new();
        let ghost all = codes_of_numbers(numbers@);
        let mut i: usize = 0;
        while i < numbers.len()
            invariant
                i <= numbers@.len(),
                numbers@.len() <= MAX_SUB_TOPICS_PER_MSG,
                all == codes_of_numbers(numbers@),
                codes@ == all.take(i as int),
            decreases numbers@.len() - i,
        {
            let pushed: Result<(), UnsubAckReasonCode> = codes.push(
                UnsubAckReasonCode::from(numbers[i]),
            );
            assert(pushed is Ok);
            i = i + 1;
            assert(codes@ =~= all.take(i as int));
        }
        assert(all.take(i as int) =~= all);
        Ok(UnsubAck { pid, properties, codes })
    }
}

} // verus!
