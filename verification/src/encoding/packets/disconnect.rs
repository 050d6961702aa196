use vstd::prelude::*;

use super::PacketType;
use crate::encoding::decoder::FixedHeader as HeaderView;
use crate::encoding::decoder::{law_header_round_trip, reads_back, MqttDecode, MqttDecoder};
use crate::encoding::encoder::{bounded, frame, MqttEncode, MqttEncoder, MAX_MQTT_HEADER_LEN};
use crate::encoding::error::Error;
use crate::encoding::properties::Properties;
use crate::encoding::reason_code::DisconnectReasonCode;
use crate::encoding::wire::{
    law_properties_round_trip, lemma_varint_size, properties_at, properties_bytes, varint_len,
    MAX_VARINT,
};
use crate::encoding::FixedHeader;

verus! {

/// Represents a `DISCONNECT` packet of MQTT.
///
/// This packet is used to close the network connection between a client and a server.
#[derive(Debug, Clone, PartialEq)]
pub struct Disconnect<'a> {
    /// A status code indicating the success status of the connection.
    pub reason_code: DisconnectReasonCode,
    /// A list of properties associated with the disconnect.
    pub properties: Properties<'a>,
}

/// A DISCONNECT packet with its properties as they stand on the wire.
pub ghost struct DisconnectView {
    pub reason_code: DisconnectReasonCode,
    pub properties: Seq<u8>,
}

impl<'a> View for Disconnect<'a> {
    type V = DisconnectView;

    open spec fn view(&self) -> DisconnectView {
        DisconnectView { reason_code: self.reason_code, properties: self.properties.block() }
    }
}

/// Builds a `Disconnect` packet field by field.
pub struct DisconnectBuilder<'a> {
    packet: Disconnect<'a>,
}

impl<'a> DisconnectBuilder<'a> {
    /// The packet as it has been built up to now.
    pub closed spec fn built(self) -> Disconnect<'a> {
        self.packet
    }

    pub fn reason_code(self, reason_code: DisconnectReasonCode) -> (builder: Self)
        ensures
            builder.built() == (Disconnect { reason_code, ..self.built() }),
    {
        DisconnectBuilder {
            packet: Disconnect { reason_code, properties: self.packet.properties },
        }
    }

    pub fn properties(self, properties: Properties<'a>) -> (builder: Self)
        ensures
            builder.built() == (Disconnect { properties, ..self.built() }),
    {
        DisconnectBuilder {
            packet: Disconnect { reason_code: self.packet.reason_code, properties },
        }
    }

    pub fn build(self) -> (packet: Disconnect<'a>)
        ensures
            packet == self.built(),
    {
        self.packet
    }
}

impl<'a> Disconnect<'a> {
    /// Starts to build a packet with the reason `Normal` and no properties.
    pub fn builder() -> (builder: DisconnectBuilder<'a>)
        ensures
            builder.built().reason_code == DisconnectReasonCode::Normal,
            builder.built().properties is DataBlock,
            builder.built().properties.block() == Seq::<u8>::empty(),
            builder.built().properties.valid(),
    {
        DisconnectBuilder {
            packet: Disconnect {
                reason_code: DisconnectReasonCode::Normal,
                properties: Properties::default(),
            },
        }
    }

    /// The packet without its fixed header: the reason, unless it is `Normal`
    /// and there are no properties, and then the properties.
    pub open spec fn body(&self) -> Seq<u8> {
        if self.reason_code != DisconnectReasonCode::Normal || self.properties.block().len() != 0 {
            seq![self.reason_code.code()] + properties_bytes(self.properties.block())
        } else {
            properties_bytes(self.properties.block())
        }
    }

    /// Decoding what encoding the packet gave yields the packet again, whatever
    /// follows it.
    pub proof fn law_round_trip(packet: Self, rest: Seq<u8>)
        requires
            packet.encodable(),
            packet.body().len() <= MAX_VARINT,
        ensures
            reads_back::<Self>(
                PacketType::Disconnect,
                frame(PacketType::Disconnect.byte() | 0, packet.body()) + rest,
                packet@,
            ),
    {
        let s = packet.body() + rest;
        let block = packet.properties.block();
        law_header_round_trip(PacketType::Disconnect, 0, packet.body(), rest);
        lemma_varint_size(block.len());
        if packet.reason_code != DisconnectReasonCode::Normal || block.len() != 0 {
            law_properties_round_trip(block, rest);
            DisconnectReasonCode::law_code_round_trip(packet.reason_code, 0);
            assert(s.skip(1) =~= properties_bytes(block) + rest);
        } else {
            assert(block =~= Seq::<u8>::empty());
        }
    }
}

impl<'a> FixedHeader for Disconnect<'a> {
    open spec fn type_bits(&self) -> u8 {
        PacketType::Disconnect.byte()
    }

    open spec fn flag_bits(&self) -> u8 {
        0
    }

    fn flags(&self) -> (flags: u8) {
        0
    }

    fn packet_type(&self) -> (typ: u8) {
        u8::from(PacketType::Disconnect)
    }
}

impl<'a> MqttEncode for Disconnect<'a> {
    open spec fn encodable(&self) -> bool {
        self.properties.valid()
    }

    open spec fn encodes_to(&self, capacity: nat, body: Result<Seq<u8>, Error>) -> bool {
        body == bounded(self.body(), capacity)
    }

    open spec fn size_bound(&self) -> nat {
        MAX_MQTT_HEADER_LEN as nat + self.body().len()
    }

    /// Encodes the `DISCONNECT` packet into the given encoder.
    fn to_buffer(&self, encoder: &mut MqttEncoder<'_>) -> (res: Result<(), Error>)
        ensures
            res is Ok ==> final(encoder).written() == frame(
                PacketType::Disconnect.byte() | 0,
                self.body(),
            ),
    {
        if self.reason_code != DisconnectReasonCode::Normal || self.properties.size() != 0 {
            encoder.write_u8(u8::from(self.reason_code))?;
        }
        encoder.write_properties(&self.properties)?;
        assert(encoder.written() =~= self.body());
        encoder.finalize_fixed_header(self)
    }

    /// Returns the maximum size of the packet in bytes.
    fn max_packet_size(&self) -> (n: usize) {
        let mut length: usize = 0;
        if self.reason_code != DisconnectReasonCode::Normal || self.properties.size() != 0 {
            length = length + 1;
        }
        length = length + varint_len(self.properties.size());
        length = length + self.properties.size();
        length + MAX_MQTT_HEADER_LEN
    }
}

impl<'a> MqttDecode<'a> for Disconnect<'a> {
    open spec fn parsed(header: HeaderView, rest: Seq<u8>, left: int) -> Result<
        DisconnectView,
        Error,
    > {
        if header.remaining_len < 2 {
            Ok(
                DisconnectView {
                    reason_code: DisconnectReasonCode::Normal,
                    properties: Seq::empty(),
                },
            )
        } else if rest.len() < 1 {
            Err(Error::InsufficientBytes)
        } else {
            match properties_at(rest.skip(1)) {
                Err(e) => Err(e),
                Ok((properties, _)) => Ok(
                    DisconnectView {
                        reason_code: DisconnectReasonCode::of_code(rest[0]),
                        properties,
                    },
                ),
            }
        }
    }

    open spec fn within_limits(rest: Seq<u8>, left: int) -> bool {
        true
    }

    /// Decodes the `DISCONNECT` packet from the given decoder.
    fn from_decoder(decoder: &mut MqttDecoder<'a>) -> (res: Result<Self, Error>)
        ensures
            res matches Ok(packet) ==> packet.properties is DataBlock,
    {
        if decoder.fixed_header().remaining_len < 2 {
            Ok(Self::builder().build())
        } else {
            let code: u8 = decoder.read_u8()?;
            let properties: Properties<'a> = decoder.read_properties()?;
            Ok(Disconnect { reason_code: DisconnectReasonCode::from(code), properties })
        }
    }
}

} // verus!
