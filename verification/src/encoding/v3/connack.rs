use vstd::prelude::*;

use super::reason_code::ConnAckReasonCode;
use crate::encoding::decoder::FixedHeader as HeaderView;
use crate::encoding::decoder::{law_header_round_trip, reads_back, MqttDecode, MqttDecoder};
use crate::encoding::encoder::{bounded, frame, MqttEncode, MqttEncoder, MAX_MQTT_HEADER_LEN};
use crate::encoding::error::Error;
use crate::encoding::packets::PacketType;
use crate::encoding::FixedHeader;

verus! {

/// The answer of the broker to a CONNECT packet.
#[derive(Debug, Clone, PartialEq)]
pub struct ConnAck {
    /// Indicates true if session state is being maintained by the broker.
    pub session_present: bool,
    /// A status code indicating the success status of the connection.
    pub reason_code: ConnAckReasonCode,
}

impl View for ConnAck {
    type V = (bool, ConnAckReasonCode);

    open spec fn view(&self) -> (bool, ConnAckReasonCode) {
        (self.session_present, self.reason_code)
    }
}

impl ConnAck {
    /// The packet without its fixed header.
    pub open spec fn body(&self) -> Seq<u8> {
        seq![
            if self.session_present {
                1u8
            } else {
                0u8
            },
            self.reason_code.code(),
        ]
    }

    /// Decoding what encoding the packet gave yields the packet again, whatever
    /// follows it.
    pub proof fn law_round_trip(packet: Self, rest: Seq<u8>)
        ensures
            reads_back::<Self>(
                PacketType::ConnAck,
                frame(PacketType::ConnAck.byte() | 0, packet.body()) + rest,
                packet@,
            ),
    {
        law_header_round_trip(PacketType::ConnAck, 0, packet.body(), rest);
        ConnAckReasonCode::law_code_round_trip(packet.reason_code, 0);
    }
}

impl FixedHeader for ConnAck {
    open spec fn type_bits(&self) -> u8 {
        PacketType::ConnAck.byte()
    }

    open spec fn flag_bits(&self) -> u8 {
        0
    }

    fn flags(&self) -> (flags: u8) {
        0
    }

    fn packet_type(&self) -> (typ: u8) {
        u8::from(PacketType::ConnAck)
    }
}

impl MqttEncode for ConnAck {
    open spec fn encodable(&self) -> bool {
        true
    }

    open spec fn encodes_to(&self, capacity: nat, body: Result<Seq<u8>, Error>) -> bool {
        body == bounded(self.body(), capacity)
    }

    open spec fn size_bound(&self) -> nat {
        MAX_MQTT_HEADER_LEN as nat + 2
    }

    /// Encodes the `CONNACK` packet into the given encoder.
    fn to_buffer(&self, encoder: &mut MqttEncoder<'_>) -> (res: Result<(), Error>)
        ensures
            res is Ok ==> final(encoder).written() == frame(
                PacketType::ConnAck.byte() | 0,
                self.body(),
            ),
    {
        encoder.write_u8(
            if self.session_present {
                1
            } else {
                0
            },
        )?;
        encoder.write_u8(u8::from(self.reason_code))?;
        assert(encoder.written() =~= self.body());
        encoder.finalize_fixed_header(self)
    }

    /// Returns the maximum size of the packet in bytes.
    fn max_packet_size(&self) -> (n: usize) {
        2 + MAX_MQTT_HEADER_LEN
    }
}

impl<'a> MqttDecode<'a> for ConnAck {
    open spec fn parsed(header: HeaderView, rest: Seq<u8>, left: int) -> Result<
        (bool, ConnAckReasonCode),
        Error,
    > {
        if rest.len() < 1 {
            Err(Error::InsufficientBytes)
        } else if rest[0] > 1 {
            Err(Error::MalformedPacket)
        } else if rest.len() < 2 {
            Err(Error::InsufficientBytes)
        } else {
            Ok((rest[0] == 1, ConnAckReasonCode::of_code(rest[1])))
        }
    }

    open spec fn within_limits(rest: Seq<u8>, left: int) -> bool {
        true
    }

    /// Decodes the `CONNACK` packet from the given decoder.
    fn from_decoder(decoder: &mut MqttDecoder<'a>) -> (res: Result<Self, Error>) {
        let conn_ack_flags: u8 = decoder.read_u8()?;
        if conn_ack_flags > 1 {
            return Err(Error::MalformedPacket);
        }
        let code: u8 = decoder.read_u8()?;
        Ok(
            ConnAck {
                session_present: conn_ack_flags == 1,
                reason_code: ConnAckReasonCode::from(code),
            },
        )
    }
}

} // verus!
