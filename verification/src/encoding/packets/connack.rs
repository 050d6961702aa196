use vstd::prelude::*;

use super::PacketType;
use crate::encoding::decoder::FixedHeader as HeaderView;
use crate::encoding::decoder::{law_header_round_trip, reads_back, MqttDecode, MqttDecoder};
use crate::encoding::encoder::{bounded, frame, MqttEncode, MqttEncoder, MAX_MQTT_HEADER_LEN};
use crate::encoding::error::Error;
use crate::encoding::properties::Properties;
use crate::encoding::reason_code::ConnAckReasonCode;
use crate::encoding::wire::{
    law_properties_round_trip, properties_at, properties_bytes, varint_len, MAX_VARINT,
};
use crate::encoding::FixedHeader;

verus! {

/// Represents the MQTT CONNACK packet, which is sent by the broker in response to a CONNECT packet.
///
/// The CONNACK packet contains information about the connection establishment, including whether the
/// session is being maintained, the success status of the connection, and optional properties.
#[derive(Debug, Clone, PartialEq)]
pub struct ConnAck<'a> {
    /// Indicates true if session state is being maintained by the broker.
    pub session_present: bool,
    /// A status code indicating the success status of the connection.
    pub reason_code: ConnAckReasonCode,
    /// A list of properties associated with the connection.
    pub properties: Properties<'a>,
}

/// A CONNACK packet with its properties as they stand on the wire.
pub ghost struct ConnAckView {
    pub session_present: bool,
    pub reason_code: ConnAckReasonCode,
    pub properties: Seq<u8>,
}

impl<'a> View for ConnAck<'a> {
    type V = ConnAckView;

    open spec fn view(&self) -> ConnAckView {
        ConnAckView {
            session_present: self.session_present,
            reason_code: self.reason_code,
            properties: self.properties.block(),
        }
    }
}

impl<'a> ConnAck<'a> {
    /// The packet without its fixed header.
    pub open spec fn body(&self) -> Seq<u8> {
        seq![
            if self.session_present {
                1u8
            } else {
                0u8
            },
            self.reason_code.code(),
        ] + properties_bytes(self.properties.block())
    }

    /// Decoding what encoding the packet gave yields the packet again, whatever
    /// follows it.
    pub proof fn law_round_trip(packet: Self, rest: Seq<u8>)
        requires
            packet.encodable(),
            packet.body().len() <= MAX_VARINT,
        ensures
            reads_back::<Self>(
                PacketType::ConnAck,
                frame(PacketType::ConnAck.byte() | 0, packet.body()) + rest,
                packet@,
            ),
    {
        let s = packet.body() + rest;
        law_header_round_trip(PacketType::ConnAck, 0, packet.body(), rest);
        law_properties_round_trip(packet.properties.block(), rest);
        ConnAckReasonCode::law_code_round_trip(packet.reason_code, 0);
        assert(s.skip(2) =~= properties_bytes(packet.properties.block()) + rest);
    }
}

impl<'a> FixedHeader for ConnAck<'a> {
    open spec fn type_bits(&self) -> u8 {
        PacketType::ConnAck.byte()
    }

    open spec fn flag_bits(&self) -> u8 {
        0
    }

    fn flags(&self) -> (flags: u8) {
        0
    }

    fn packet_type(&self) -> (typ: u8) {
        u8::from(PacketType::ConnAck)
    }
}

impl<'a> MqttEncode for ConnAck<'a> {
    open spec fn encodable(&self) -> bool {
        self.properties.valid()
    }

    open spec fn encodes_to(&self, capacity: nat, body: Result<Seq<u8>, Error>) -> bool {
        body == bounded(self.body(), capacity)
    }

    open spec fn size_bound(&self) -> nat {
        MAX_MQTT_HEADER_LEN as nat + self.body().len()
    }

    /// Encodes the `CONNACK` packet into the given encoder.
    fn to_buffer(&self, encoder: &mut MqttEncoder<'_>) -> (res: Result<(), Error>)
        ensures
            res is Ok ==> final(encoder).written() == frame(
                PacketType::ConnAck.byte() | 0,
                self.body(),
            ),
    {
        encoder.write_u8(
            if self.session_present {
                1
            } else {
                0
            },
        )?;
        encoder.write_u8(u8::from(self.reason_code))?;
        encoder.write_properties(&self.properties)?;
        assert(encoder.written() =~= self.body());
        encoder.finalize_fixed_header(self)
    }

    /// Returns the maximum size of the packet in bytes.
    fn max_packet_size(&self) -> (n: usize) {
        let mut length: usize = 2 + MAX_MQTT_HEADER_LEN;
        length = length + varint_len(self.properties.size());
        length = length + self.properties.size();
        length
    }
}

impl<'a> MqttDecode<'a> for ConnAck<'a> {
    open spec fn parsed(header: HeaderView, rest: Seq<u8>, left: int) -> Result<
        ConnAckView,
        Error,
    > {
        if rest.len() < 1 {
            Err(Error::InsufficientBytes)
        } else if rest[0] > 1 {
            Err(Error::MalformedPacket)
        } else if rest.len() < 2 {
            Err(Error::InsufficientBytes)
        } else {
            match properties_at(rest.skip(2)) {
                Err(e) => Err(e),
                Ok((properties, _)) => Ok(
                    ConnAckView {
                        session_present: rest[0] == 1,
                        reason_code: ConnAckReasonCode::of_code(rest[1]),
                        properties,
                    },
                ),
            }
        }
    }

    open spec fn within_limits(rest: Seq<u8>, left: int) -> bool {
        true
    }

    /// Decodes the `CONNACK` packet from the given decoder.
    fn from_decoder(decoder: &mut MqttDecoder<'a>) -> (res: Result<Self, Error>)
        ensures
            res matches Ok(packet) ==> packet.properties is DataBlock,
    {
        let ghost rest = decoder.rest();
        let conn_ack_flags: u8 = decoder.read_u8()?;
        if conn_ack_flags > 1 {
            return Err(Error::MalformedPacket);
        }
        let code: u8 = decoder.read_u8()?;
        assert(decoder.rest() =~= rest.skip(2));
        let properties: Properties<'a> = decoder.read_properties()?;
        Ok(
            ConnAck {
                session_present: conn_ack_flags == 1,
                reason_code: ConnAckReasonCode::from(code),
                properties,
            },
        )
    }
}

} // verus!
