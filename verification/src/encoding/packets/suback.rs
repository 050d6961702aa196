use vstd::prelude::*;

use super::ack::{pid_at, read_pid};
use super::PacketType;
use crate::encoding::decoder::payload_at;
use crate::encoding::decoder::FixedHeader as HeaderView;
use crate::encoding::decoder::{law_header_round_trip, reads_back, MqttDecode, MqttDecoder};
use crate::encoding::encoder::{bounded, frame, MqttEncode, MqttEncoder, MAX_MQTT_HEADER_LEN};
use crate::encoding::error::Error;
use crate::encoding::properties::Properties;
use crate::encoding::utils::Pid;
use crate::encoding::wire::{
    law_properties_round_trip, law_u16_round_trip, properties_at, properties_bytes, u16_bytes,
    varint_len, MAX_VARINT,
};
use crate::encoding::FixedHeader;

verus! {

/// SubAck packet - Subscribe Acknowledgement.
///
/// This packet is sent by the Server to the Client in response to a SUBSCRIBE packet.
#[derive(Debug, Clone, PartialEq)]
pub struct SubAck<'a> {
    /// The packet identifier as sent in the SUBSCRIBE packet.
    pub pid: Pid,
    /// Further information about the acknowledgement.
    pub properties: Properties<'a>,
    /// The response status codes of the subscribe request, one for each topic filter.
    pub codes: &'a [u8],
}

/// A SUBACK packet with its properties as they stand on the wire.
pub ghost struct SubAckView {
    pub pid: u16,
    pub properties: Seq<u8>,
    pub codes: Seq<u8>,
}

impl<'a> View for SubAck<'a> {
    type V = SubAckView;

    open spec fn view(&self) -> SubAckView {
        SubAckView {
            pid: self.pid@,
            properties: self.properties.block(),
            codes: self.codes@,
        }
    }
}

/// The body of an answer to a request for several topic filters.
pub open spec fn codes_body(pid: u16, block: Seq<u8>, codes: Seq<u8>) -> Seq<u8> {
    u16_bytes(pid) + properties_bytes(block) + codes
}

/// What reading an answer to a request for several topic filters gives, if the
/// packet goes on with the first `left` bytes of `rest`: the packet identifier,
/// the property block and the codes.
pub open spec fn codes_at(rest: Seq<u8>, left: int) -> Result<(u16, Seq<u8>, Seq<u8>), Error> {
    match pid_at(rest) {
        Err(e) => Err(e),
        Ok(pid) => match properties_at(rest.skip(2)) {
            Err(e) => Err(e),
            Ok((block, n)) => match payload_at(rest.skip(2).skip(n as int), left - 2 - n) {
                Err(e) => Err(e),
                Ok(codes) => Ok((pid, block, codes)),
            },
        },
    }
}

/// Reading an answer to a request for several topic filters gives back what
/// writing it wrote.
pub proof fn law_codes_round_trip(pid: u16, block: Seq<u8>, codes: Seq<u8>, rest: Seq<u8>)
    requires
        pid != 0,
        block.len() <= MAX_VARINT,
    ensures
        codes_at(codes_body(pid, block, codes) + rest, codes_body(pid, block, codes).len() as int)
            == Ok::<(u16, Seq<u8>, Seq<u8>), Error>((pid, block, codes)),
{
    let s = codes_body(pid, block, codes) + rest;
    let n = properties_bytes(block).len();
    law_u16_round_trip(pid);
    assert(s[0] == u16_bytes(pid)[0]);
    assert(s[1] == u16_bytes(pid)[1]);
    assert(s.skip(2) =~= properties_bytes(block) + (codes + rest));
    law_properties_round_trip(block, codes + rest);
    assert(s.skip(2).skip(n as int) =~= codes + rest);
    assert((codes + rest).take(codes.len() as int) =~= codes);
}

/// Reads an answer to a request for several topic filters.
pub(crate) fn read_codes<'a>(decoder: &mut MqttDecoder<'a>) -> (res: Result<
    (Pid, Properties<'a>, &'a [u8]),
    Error,
>)
    ensures
        final(decoder).same_packet(*old(decoder)),
        final(decoder).pos() >= old(decoder).pos(),
        match (res, codes_at(old(decoder).rest(), old(decoder).left())) {
            (Ok((pid, properties, codes)), Ok((pid_view, block, codes_view))) => {
                &&& pid@ == pid_view
                &&& properties is DataBlock
                &&& properties.block() == block
                &&& codes@ == codes_view
            },
            (Err(e), Err(f)) => e == f,
            _ => false,
        },
{
    let pid: Pid = read_pid(decoder)?;
    let properties: Properties<'a> = decoder.read_properties()?;
    let codes: &'a [u8] = decoder.read_payload()?;
    Ok((pid, properties, codes))
}

impl<'a> SubAck<'a> {
    /// The packet without its fixed header.
    pub open spec fn body(&self) -> Seq<u8> {
        codes_body(self.pid@, self.properties.block(), self.codes@)
    }

    /// Decoding what encoding the packet gave yields the packet again, whatever
    /// follows it.
    pub proof fn law_round_trip(packet: Self, rest: Seq<u8>)
        requires
            packet.encodable(),
            packet.body().len() <= MAX_VARINT,
            packet.pid@ != 0,
        ensures
            reads_back::<Self>(
                PacketType::SubAck,
                frame(PacketType::SubAck.byte() | 0, packet.body()) + rest,
                packet@,
            ),
    {
        law_header_round_trip(PacketType::SubAck, 0, packet.body(), rest);
        law_codes_round_trip(packet.pid@, packet.properties.block(), packet.codes@, rest);
    }
}

impl<'a> FixedHeader for SubAck<'a> {
    open spec fn type_bits(&self) -> u8 {
        PacketType::SubAck.byte()
    }

    open spec fn flag_bits(&self) -> u8 {
        0
    }

    fn flags(&self) -> (flags: u8) {
        0
    }

    fn packet_type(&self) -> (typ: u8) {
        u8::from(PacketType::SubAck)
    }
}

impl<'a> MqttEncode for SubAck<'a> {
    open spec fn encodable(&self) -> bool {
        self.properties.valid()
    }

    open spec fn encodes_to(&self, capacity: nat, body: Result<Seq<u8>, Error>) -> bool {
        body == bounded(self.body(), capacity)
    }

    open spec fn size_bound(&self) -> nat {
        MAX_MQTT_HEADER_LEN as nat + self.body().len()
    }

    /// Encodes the `SUBACK` packet into the given encoder.
    fn to_buffer(&self, encoder: &mut MqttEncoder<'_>) -> (res: Result<(), Error>)
        ensures
            res is Ok ==> final(encoder).written() == frame(
                PacketType::SubAck.byte() | 0,
                self.body(),
            ),
    {
        encoder.write_u16(self.pid.get())?;
        encoder.write_properties(&self.properties)?;
        encoder.write_raw(self.codes)?;
        assert(encoder.written() =~= self.body());
        encoder.finalize_fixed_header(self)
    }

    /// Returns the maximum size of the packet in bytes.
    fn max_packet_size(&self) -> (n: usize) {
        let mut length: usize = 2 + MAX_MQTT_HEADER_LEN;
        length = length + varint_len(self.properties.size());
        length = length + self.properties.size();
        length + self.codes.len()
    }
}

impl<'a> MqttDecode<'a> for SubAck<'a> {
    open spec fn parsed(header: HeaderView, rest: Seq<u8>, left: int) -> Result<
        SubAckView,
        Error,
    > {
        match codes_at(rest, left) {
            Err(e) => Err(e),
            Ok((pid, properties, codes)) => Ok(SubAckView { pid, properties, codes }),
        }
    }

    open spec fn within_limits(rest: Seq<u8>, left: int) -> bool {
        true
    }

    /// Decodes the `SUBACK` packet from the given decoder.
    fn from_decoder(decoder: &mut MqttDecoder<'a>) -> (res: Result<Self, Error>)
        ensures
            res matches Ok(packet) ==> packet.properties is DataBlock,
    {
        let (pid, properties, codes): (Pid, Properties<'a>, &'a [u8]) = read_codes(decoder)?;
        Ok(SubAck { pid, properties, codes })
    }
}

} // verus!
