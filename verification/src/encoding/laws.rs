//! What a reader of packets finds in any bytes, and where what a packet holds
//! stands in it.
use vstd::prelude::*;
use vstd::string::StringSliceAdditionalSpecFns;

use super::decoder::{
    header_at, law_header_round_trip, lemma_first_byte, FixedHeader, MqttDecode,
};
use super::encoder::{bounded, frame, MqttEncode, MqttEncoder};
use super::error::Error;
use super::packets::ack::{ack_at, ack_body, pid_at};
use super::packets::disconnect::DisconnectBuilder;
use super::packets::publish::{
    law_publish_round_trip, publish_at, publish_flags, publish_head_at, publish_head_len,
    PublishBuilder,
};
use super::packets::suback::{codes_at, codes_body};
use super::packets::{
    ConnAck, Connect, Disconnect, PacketType, PartialPublish, PingReq, PingResp, PubAck, PubComp,
    PubRec, PubRel, Publish, SubAck, Subscribe, SubscribeTopic, ToPayload, UnsubAck, Unsubscribe,
};
use super::properties::Properties;
use super::reason_code::{
    ConnAckReasonCode, DisconnectReasonCode, PubAckReasonCode, PubCompReasonCode, PubRecReasonCode,
    SubAckReasonCode, UnsubAckReasonCode,
};
use super::received_packet::{receivable, received, ReceivedPacket, ReceivedView};
use super::utils::{law_qos_numbers, qos_code, Pid, QoS, QosPid};
use super::v3;
use super::wire::{
    lemma_slice_at_bounds, lemma_varint_at_bounds, properties_at, properties_bytes, slice_bytes,
    str_at, varint_at, varint_bytes, varint_groups, MAX_VARINT,
};
use crate::crate_config::MAX_SUB_TOPICS_PER_MSG;

verus! {

/// The first byte of a packet holds its type in the upper half, and below that
/// whether it is a duplicate, its quality of service and whether it is retained.
/// Its length follows. A packet without a type, a quality of service that is
/// none and a length that cannot be read are errors.
pub proof fn law_fixed_header_is_read(s: Seq<u8>)
    ensures
        header_at(s) is Ok <==> {
            &&& s.len() >= 2
            &&& s[0] >= 16
            &&& varint_at(s.skip(1), 0) is Ok
            &&& s[0] / 2 % 4 != 3
        },
        header_at(s) matches Ok((header, n)) ==> {
            let (len, m) = varint_at(s.skip(1), 0)->Ok_0;
            &&& header.typ.number() == s[0] / 16
            &&& header.dup <==> s[0] / 8 % 2 == 1
            &&& qos_code(header.qos) == s[0] / 2 % 4
            &&& header.retain <==> s[0] % 2 == 1
            &&& header.remaining_len == len
            &&& n == 1 + m
            &&& n <= s.len()
        },
        header_at(s) matches Err(e) ==> {
            &&& s.len() < 2 ==> e == Error::InsufficientBytes
            &&& s.len() >= 2 && s[0] < 16 ==> e == Error::InvalidHeader
            &&& s.len() >= 2 && s[0] >= 16 ==> (varint_at(s.skip(1), 0) matches Err(f) ==> e == f)
            &&& s.len() >= 2 && s[0] >= 16 && varint_at(s.skip(1), 0) is Ok ==> e
                == Error::WrongQos(6)
        },
{
    if s.len() >= 2 {
        lemma_varint_at_bounds(s.skip(1), 0);
        PacketType::law_number_round_trip(PacketType::Connect, s[0] / 16);
        law_qos_numbers(QoS::AtMostOnce, s[0] / 2 % 4);
    }
}

/// A packet is its first byte, the length of its body and the body.
pub proof fn law_packets_on_the_wire(first: u8, body: Seq<u8>)
    requires
        body.len() <= MAX_VARINT,
    ensures
        frame(first, body)[0] == first,
        frame(first, body).skip(1).take(varint_bytes(body.len()).len() as int) == varint_bytes(
            body.len(),
        ),
        frame(first, body).skip(1 + varint_bytes(body.len()).len() as int) == body,
        frame(first, body).len() == 1 + varint_bytes(body.len()).len() + body.len(),
{
    let n = varint_bytes(body.len()).len() as int;
    assert(frame(first, body).skip(1).take(n) =~= varint_bytes(body.len()));
    assert(frame(first, body).skip(1 + n) =~= body);
}

/// A body can be encoded if and only if it fits behind the longest possible
/// fixed header and its length can be written. What is encoded is the body.
pub proof fn law_what_fits_is_encoded(body: Seq<u8>, capacity: nat)
    ensures
        bounded(body, capacity) is Ok <==> 5 + body.len() <= capacity && body.len() <= 268435455,
        bounded(body, capacity) matches Ok(encoded) ==> encoded == body,
        bounded(body, capacity) matches Err(e) ==> e == if 5 + body.len() > capacity {
            Error::BufferSize
        } else {
            Error::InvalidLength
        },
{
}

/// The flags of a PUBLISH packet tell whether it is a duplicate in bit 3, its
/// quality of service in bits 1 and 2, and whether it is retained in bit 0.
pub proof fn law_publish_flags(dup: bool, qos: QoS, retain: bool)
    ensures
        publish_flags(dup, qos, retain) / 8 == 1 <==> dup,
        publish_flags(dup, qos, retain) / 2 % 4 == match qos {
            QoS::AtMostOnce => 0int,
            QoS::AtLeastOnce => 1,
            QoS::ExactlyOnce => 2,
        },
        publish_flags(dup, qos, retain) % 2 == 1 <==> retain,
        publish_flags(dup, qos, retain) < 16,
{
}

/// A PUBLISH packet holds the topic behind its length, then with a quality of
/// service above 0 the packet identifier, then the properties and the payload.
pub proof fn law_publish_on_the_wire<P: ToPayload>(packet: Publish<'_, P>, payload: Seq<u8>)
    requires
        !packet.lacks_pid(),
    ensures
        ({
            let body = packet.body_with(payload);
            let topic = slice_bytes(packet.topic_name.spec_bytes());
            let n = topic.len() as int;
            let block = properties_bytes(packet.properties.block());
            &&& body.take(n) == topic
            &&& packet.qos == QoS::AtMostOnce ==> body.skip(n) == block + payload
            &&& packet.qos != QoS::AtMostOnce ==> {
                &&& body[n] * 256 + body[n + 1] == packet.pid->0@
                &&& body.skip(n + 2) == block + payload
            }
        }),
{
    let body = packet.body_with(payload);
    let topic = slice_bytes(packet.topic_name.spec_bytes());
    let n = topic.len() as int;
    let block = properties_bytes(packet.properties.block());
    assert(body.take(n) =~= topic);
    if packet.qos == QoS::AtMostOnce {
        assert(body.skip(n) =~= block + payload);
    } else {
        assert(body.skip(n + 2) =~= block + payload);
    }
}

/// Of a PUBLISH packet the topic is read first, then with a quality of service
/// above 0 the packet identifier, then the properties, and what is left of the
/// packet is the payload.
pub proof fn law_publish_is_read(qos: QoS, rest: Seq<u8>, left: int)
    ensures
        ({
            let topic = str_at(rest)->Ok_0;
            let n = 2 + topic.len() + if qos == QoS::AtMostOnce {
                0int
            } else {
                2
            };
            let (block, m) = properties_at(rest.skip(n))->Ok_0;
            &&& publish_at(qos, rest, left) is Ok <==> {
                &&& str_at(rest) is Ok
                &&& n <= rest.len()
                &&& properties_at(rest.skip(n)) is Ok
                &&& 0 <= left - n - m
                &&& left <= rest.len()
            }
            &&& publish_at(qos, rest, left) matches Ok(view) ==> {
                &&& view.topic == topic
                &&& view.pid == if qos == QoS::AtMostOnce {
                    0
                } else {
                    rest[n - 2] * 256 + rest[n - 1]
                }
                &&& view.properties == block
                &&& view.payload == rest.subrange(n + m, left)
            }
            &&& publish_head_at(qos, rest) is Ok <==> str_at(rest) is Ok && n <= rest.len()
            &&& publish_head_at(qos, rest) matches Ok((name, pid)) ==> {
                &&& name == topic
                &&& pid == if qos == QoS::AtMostOnce {
                    0
                } else {
                    rest[n - 2] * 256 + rest[n - 1]
                }
            }
        }),
{
    lemma_slice_at_bounds(rest);
    if let Ok(topic) = str_at(rest) {
        let n = publish_head_len(qos, topic) as int;
        if n <= rest.len() {
            lemma_varint_at_bounds(rest.skip(n), 0);
            if let Ok((block, m)) = properties_at(rest.skip(n)) {
                let tail = rest.skip(n).skip(m as int);
                assert(tail =~= rest.skip(n + m));
                if 0 <= left - n - m && left <= rest.len() {
                    assert(tail.take(left - n - m) =~= rest.subrange(n + m, left));
                }
            }
        }
    }
}

/// The body of an acknowledgement starts with the packet identifier. The reason
/// and the properties follow, unless the reason is that of success and there
/// are no properties.
pub proof fn law_acknowledgements_on_the_wire(pid: u16, code: u8, block: Seq<u8>)
    ensures
        ({
            let body = ack_body(pid, code, block);
            &&& body[0] * 256 + body[1] == pid
            &&& body.len() == 2 <==> code == 0 && block.len() == 0
            &&& body.len() != 2 ==> body[2] == code && body.skip(3) == properties_bytes(block)
        }),
{
    if code != 0 || block.len() != 0 {
        assert(ack_body(pid, code, block).skip(3) =~= properties_bytes(block));
    }
}

/// Of an acknowledgement the packet identifier is read, which cannot be 0, and
/// then the reason and the properties, unless the packet is too short for them.
pub proof fn law_acknowledgements_are_read(remaining_len: usize, rest: Seq<u8>)
    ensures
        ({
            let short = remaining_len == 2 || remaining_len == 3;
            let pid = rest[0] * 256 + rest[1];
            let properties = properties_at(rest.skip(3));
            &&& ack_at(remaining_len, rest) is Ok <==> {
                &&& rest.len() >= 2
                &&& pid != 0
                &&& short || (rest.len() >= 3 && properties is Ok)
            }
            &&& ack_at(remaining_len, rest) matches Ok((found, code, block)) ==> {
                &&& found == pid
                &&& code == if short {
                    0
                } else {
                    rest[2]
                }
                &&& block == if short {
                    Seq::empty()
                } else {
                    properties->Ok_0.0
                }
            }
            &&& rest.len() >= 2 && pid == 0 ==> ack_at(remaining_len, rest) == Err::<
                (u16, u8, Seq<u8>),
                Error,
            >(Error::BadIdentifier(0))
            &&& rest.len() < 2 ==> ack_at(remaining_len, rest) == Err::<(u16, u8, Seq<u8>), Error>(
                Error::InsufficientBytes,
            )
            &&& pid_at(rest) is Ok <==> rest.len() >= 2 && pid != 0
            &&& pid_at(rest) matches Ok(found) ==> found == pid
        }),
{
}

/// PUBACK, PUBREC and PUBCOMP packets are read as acknowledgements, with the
/// reason that the number stands for.
pub proof fn law_acknowledgements_tell_their_reason(header: FixedHeader, rest: Seq<u8>, left: int)
    ensures
        match ack_at(header.remaining_len, rest) {
            Err(e) => {
                &&& PubAck::parsed(header, rest, left) matches Err(f) && f == e
                &&& PubRec::parsed(header, rest, left) matches Err(f) && f == e
                &&& PubComp::parsed(header, rest, left) matches Err(f) && f == e
            },
            Ok((pid, code, block)) => {
                &&& PubAck::parsed(header, rest, left) matches Ok(view) && view.pid == pid
                    && view.properties == block && view.reason_code == PubAckReasonCode::of_code(
                    code,
                )
                &&& PubRec::parsed(header, rest, left) matches Ok(view) && view.pid == pid
                    && view.properties == block && view.reason_code == PubRecReasonCode::of_code(
                    code,
                )
                &&& PubComp::parsed(header, rest, left) matches Ok(view) && view.pid == pid
                    && view.properties == block && view.reason_code == PubCompReasonCode::of_code(
                    code,
                )
            },
        },
        match pid_at(rest) {
            Err(e) => PubRel::parsed(header, rest, left) == Err::<u16, Error>(e),
            Ok(pid) => PubRel::parsed(header, rest, left) == Ok::<u16, Error>(pid),
        },
{
}

/// The answer to a request for several topic filters holds the packet
/// identifier, the properties and then a code for each of them.
pub proof fn law_codes_on_the_wire(pid: u16, block: Seq<u8>, codes: Seq<u8>)
    ensures
        codes_body(pid, block, codes)[0] * 256 + codes_body(pid, block, codes)[1] == pid,
        codes_body(pid, block, codes).skip(2) == properties_bytes(block) + codes,
{
    assert(codes_body(pid, block, codes).skip(2) =~= properties_bytes(block) + codes);
}

/// Of the answer to a request for several topic filters the packet identifier
/// is read, which cannot be 0, then the properties, and all that is left of the
/// packet are codes.
pub proof fn law_codes_are_read(header: FixedHeader, rest: Seq<u8>, left: int)
    ensures
        ({
            let pid = rest[0] * 256 + rest[1];
            let (block, n) = properties_at(rest.skip(2))->Ok_0;
            &&& codes_at(rest, left) is Ok <==> {
                &&& rest.len() >= 2
                &&& pid != 0
                &&& properties_at(rest.skip(2)) is Ok
                &&& 0 <= left - 2 - n
                &&& left <= rest.len()
            }
            &&& codes_at(rest, left) matches Ok((found, properties, codes)) ==> {
                &&& found == pid
                &&& properties == block
                &&& codes == rest.subrange(2 + n as int, left)
            }
        }),
        match codes_at(rest, left) {
            Err(e) => {
                &&& SubAck::parsed(header, rest, left) matches Err(f) && f == e
                &&& UnsubAck::parsed(header, rest, left) matches Err(f) && f == e
            },
            Ok((pid, block, codes)) => {
                &&& SubAck::parsed(header, rest, left) matches Ok(view) && view.pid == pid
                    && view.properties == block && view.codes == codes
                &&& UnsubAck::parsed(header, rest, left) matches Ok(view) && view.pid == pid
                    && view.properties == block && view.codes.len() == codes.len() && forall|i: int|
                    0 <= i < codes.len() ==> #[trigger] view.codes[i]
                        == UnsubAckReasonCode::of_code(codes[i])
            },
        },
{
    if rest.len() >= 2 {
        lemma_varint_at_bounds(rest.skip(2), 0);
        if let Ok((block, n)) = properties_at(rest.skip(2)) {
            let tail = rest.skip(2).skip(n as int);
            assert(tail =~= rest.skip(2 + n as int));
            if 0 <= left - 2 - n && left <= rest.len() {
                assert(tail.take(left - 2 - n) =~= rest.subrange(2 + n as int, left));
            }
        }
    }
}

/// A CONNACK packet holds whether there is a session, the reason and the
/// properties, and is read like that. A flag that is neither 0 nor 1 is an
/// error.
pub proof fn law_connack_is_read(
    packet: ConnAck<'_>,
    header: FixedHeader,
    rest: Seq<u8>,
    left: int,
)
    ensures
        packet.body()[0] == if packet.session_present {
            1u8
        } else {
            0u8
        },
        packet.body()[1] == packet.reason_code.code(),
        packet.body().skip(2) == properties_bytes(packet.properties.block()),
        ConnAck::parsed(header, rest, left) is Ok <==> {
            &&& rest.len() >= 2
            &&& rest[0] <= 1
            &&& properties_at(rest.skip(2)) is Ok
        },
        ConnAck::parsed(header, rest, left) matches Ok(view) ==> {
            &&& view.session_present <==> rest[0] == 1
            &&& view.reason_code == ConnAckReasonCode::of_code(rest[1])
            &&& view.properties == properties_at(rest.skip(2))->Ok_0.0
        },
        rest.len() >= 1 && rest[0] > 1 ==> (ConnAck::parsed(header, rest, left) matches Err(e) && e
            == Error::MalformedPacket),
{
    assert(packet.body().skip(2) =~= properties_bytes(packet.properties.block()));
}

/// A DISCONNECT packet holds the reason and the properties, unless the reason is
/// the normal one and there are none, and is read like that.
pub proof fn law_disconnect_is_read(
    packet: Disconnect<'_>,
    header: FixedHeader,
    rest: Seq<u8>,
    left: int,
)
    ensures
        ({
            let block = packet.properties.block();
            let bare = packet.reason_code == DisconnectReasonCode::Normal && block.len() == 0;
            &&& !bare ==> packet.body()[0] == packet.reason_code.code() && packet.body().skip(1)
                == properties_bytes(block)
            &&& bare ==> packet.body() == properties_bytes(block)
        }),
        Disconnect::parsed(header, rest, left) is Ok <==> header.remaining_len < 2 || (rest.len() >= 1
            && properties_at(rest.skip(1)) is Ok),
        Disconnect::parsed(header, rest, left) matches Ok(view) ==> if header.remaining_len < 2 {
            view.reason_code == DisconnectReasonCode::Normal && view.properties.len() == 0
        } else {
            view.reason_code == DisconnectReasonCode::of_code(rest[0]) && view.properties
                == properties_at(rest.skip(1))->Ok_0.0
        },
{
    let block = packet.properties.block();
    if packet.reason_code != DisconnectReasonCode::Normal || block.len() != 0 {
        assert(packet.body().skip(1) =~= properties_bytes(block));
    }
}

/// The packet at the start of a buffer is taken for what its type says, and is
/// what decoding a packet of that type gives. Of a PUBLISH packet the part that
/// is there is kept, however much of it is there. Types that the client never
/// receives are errors.
pub proof fn law_received_packets_are_what_their_type_says(buf: Seq<u8>)
    ensures
        match header_at(buf) {
            Err(e) => received(buf) == Err::<ReceivedView, Error>(e),
            Ok((header, n)) => {
                let rest = buf.skip(n as int);
                let left = header.remaining_len as int;
                match header.typ {
                    PacketType::PingResp => received(buf) == Ok::<ReceivedView, Error>(
                        ReceivedView::PingResp,
                    ),
                    PacketType::ConnAck => match (ConnAck::parsed(header, rest, left), received(buf)) {
                        (Ok(p), Ok(ReceivedView::ConnAck(q))) => p == q,
                        (Err(e), Err(f)) => e == f,
                        _ => false,
                    },
                    PacketType::PubAck => match (PubAck::parsed(header, rest, left), received(buf)) {
                        (Ok(p), Ok(ReceivedView::PubAck(q))) => p == q,
                        (Err(e), Err(f)) => e == f,
                        _ => false,
                    },
                    PacketType::PubRec => match (PubRec::parsed(header, rest, left), received(buf)) {
                        (Ok(p), Ok(ReceivedView::PubRec(q))) => p == q,
                        (Err(e), Err(f)) => e == f,
                        _ => false,
                    },
                    PacketType::PubRel => match (PubRel::parsed(header, rest, left), received(buf)) {
                        (Ok(p), Ok(ReceivedView::PubRel(q))) => p == q,
                        (Err(e), Err(f)) => e == f,
                        _ => false,
                    },
                    PacketType::PubComp => match (PubComp::parsed(header, rest, left), received(buf)) {
                        (Ok(p), Ok(ReceivedView::PubComp(q))) => p == q,
                        (Err(e), Err(f)) => e == f,
                        _ => false,
                    },
                    PacketType::SubAck => match (SubAck::parsed(header, rest, left), received(buf)) {
                        (Ok(p), Ok(ReceivedView::SubAck(q))) => p == q,
                        (Err(e), Err(f)) => e == f,
                        _ => false,
                    },
                    PacketType::UnsubAck => match (
                        UnsubAck::parsed(header, rest, left),
                        received(buf),
                    ) {
                        (Ok(p), Ok(ReceivedView::UnsubAck(q))) => p == q,
                        (Err(e), Err(f)) => e == f,
                        _ => false,
                    },
                    PacketType::Disconnect => match (
                        Disconnect::parsed(header, rest, left),
                        received(buf),
                    ) {
                        (Ok(p), Ok(ReceivedView::Disconnect(q))) => p == q,
                        (Err(e), Err(f)) => e == f,
                        _ => false,
                    },
                    PacketType::Publish => match (publish_head_at(header.qos, rest), received(buf)) {
                        (
                            Ok((name, number)),
                            Ok(ReceivedView::PartialPublish { qos, pid, topic, buffered, total }),
                        ) => {
                            &&& qos == header.qos
                            &&& pid == number
                            &&& topic == name
                            &&& qos != QoS::AtMostOnce ==> pid != 0
                            &&& total == n + left
                            &&& buffered == buf.take(
                                if total < buf.len() {
                                    total as int
                                } else {
                                    buf.len() as int
                                },
                            )
                        },
                        (Ok((_, number)), Err(e)) => {
                            &&& header.qos != QoS::AtMostOnce
                            &&& number == 0
                            &&& e == Error::BadIdentifier(0)
                        },
                        (Err(e), Err(f)) => e == f,
                        _ => false,
                    },
                    _ => received(buf) == Err::<ReceivedView, Error>(Error::InvalidHeader),
                }
            },
        },
{
    assert(buf.take(buf.len() as int) =~= buf);
}

/// What is received is what the bytes hold, whichever packet it is.
pub proof fn law_from_buffer<'a>(buf: &'a [u8], res: Result<ReceivedPacket<'a>, Error>)
    requires
        call_ensures(ReceivedPacket::from_buffer, (buf,), res),
        receivable(buf@),
    ensures
        res is Ok <==> received(buf@) is Ok,
        res matches Ok(packet) ==> match packet {
            ReceivedPacket::PingResp => received(buf@)->Ok_0 is PingResp,
            ReceivedPacket::ConnAck(p) => {
                &&& received(buf@)->Ok_0 matches ReceivedView::ConnAck(v)
                &&& v.session_present == p.session_present
                &&& v.reason_code == p.reason_code
                &&& v.properties == p.properties.block()
            },
            ReceivedPacket::PartialPublish { qos_pid, topic_name, publish } => {
                &&& received(buf@)->Ok_0 matches ReceivedView::PartialPublish {
                    qos,
                    pid,
                    topic,
                    buffered,
                    total,
                }
                &&& qos_pid matches QosPid::AtLeastOnce(p) ==> qos
                    == QoS::AtLeastOnce && p@ == pid
                &&& qos_pid matches QosPid::ExactlyOnce(p) ==> qos
                    == QoS::ExactlyOnce && p@ == pid
                &&& qos_pid is AtMostOnce ==> qos == QoS::AtMostOnce
                &&& topic == topic_name.spec_bytes()
                &&& buffered == publish.buffered()
                &&& total == publish.total()
            },
            ReceivedPacket::PubAck(p) => {
                &&& received(buf@)->Ok_0 matches ReceivedView::PubAck(v)
                &&& v.pid == p.pid@
                &&& v.reason_code == p.reason_code
                &&& v.properties == p.properties.block()
            },
            ReceivedPacket::PubRec(p) => {
                &&& received(buf@)->Ok_0 matches ReceivedView::PubRec(v)
                &&& v.pid == p.pid@
                &&& v.reason_code == p.reason_code
                &&& v.properties == p.properties.block()
            },
            ReceivedPacket::PubRel(p) => {
                &&& received(buf@)->Ok_0 matches ReceivedView::PubRel(pid)
                &&& pid == p.pid@
            },
            ReceivedPacket::PubComp(p) => {
                &&& received(buf@)->Ok_0 matches ReceivedView::PubComp(v)
                &&& v.pid == p.pid@
                &&& v.reason_code == p.reason_code
                &&& v.properties == p.properties.block()
            },
            ReceivedPacket::SubAck(p) => {
                &&& received(buf@)->Ok_0 matches ReceivedView::SubAck(v)
                &&& v.pid == p.pid@
                &&& v.codes == p.codes@
                &&& v.properties == p.properties.block()
            },
            ReceivedPacket::UnsubAck(p) => {
                &&& received(buf@)->Ok_0 matches ReceivedView::UnsubAck(v)
                &&& v.pid == p.pid@
                &&& v.codes == p.codes@
                &&& v.properties == p.properties.block()
            },
            ReceivedPacket::Disconnect(p) => {
                &&& received(buf@)->Ok_0 matches ReceivedView::Disconnect(v)
                &&& v.reason_code == p.reason_code
                &&& v.properties == p.properties.block()
            },
        },
{
}

/// Encoding a CONNECT packet gives its first byte, its length and its body, if there
/// is room for it and the longest possible fixed header, which is what its
/// maximum size counts.
pub proof fn law_connect_is_encoded<'a, 'b>(
    packet: &Connect<'a>,
    encoder: &mut MqttEncoder<'b>,
    res: Result<(), Error>,
    size: usize,
)
    requires
        call_ensures(<Connect<'a> as MqttEncode>::to_buffer, (packet, encoder), res),
        call_ensures(<Connect<'a> as MqttEncode>::max_packet_size, (packet,), size),
    ensures
        res is Ok <==> 5 + packet.body().len() <= old(encoder).capacity() && packet.body().len()
            <= 268435455,
        res is Ok ==> final(encoder).written() == frame(0x10, packet.body()),
        size == 5 + packet.body().len(),
{
    assert(0x10u8 | 0x0u8 == 0x10u8) by (bit_vector);
}

/// Encoding a SUBSCRIBE packet gives its first byte, its length and its body, if there
/// is room for it and the longest possible fixed header, which is what its
/// maximum size counts.
pub proof fn law_subscribe_is_encoded<'a, 'b>(
    packet: &Subscribe<'a>,
    encoder: &mut MqttEncoder<'b>,
    res: Result<(), Error>,
    size: usize,
)
    requires
        call_ensures(<Subscribe<'a> as MqttEncode>::to_buffer, (packet, encoder), res),
        call_ensures(<Subscribe<'a> as MqttEncode>::max_packet_size, (packet,), size),
    ensures
        res is Ok <==> 5 + packet.body().len() <= old(encoder).capacity() && packet.body().len()
            <= 268435455,
        res is Ok ==> final(encoder).written() == frame(0x82, packet.body()),
        size == 5 + packet.body().len(),
{
    assert(0x80u8 | 0x2u8 == 0x82u8) by (bit_vector);
}

/// Encoding a UNSUBSCRIBE packet gives its first byte, its length and its body, if there
/// is room for it and the longest possible fixed header, which is what its
/// maximum size counts.
pub proof fn law_unsubscribe_is_encoded<'a, 'b>(
    packet: &Unsubscribe<'a>,
    encoder: &mut MqttEncoder<'b>,
    res: Result<(), Error>,
    size: usize,
)
    requires
        call_ensures(<Unsubscribe<'a> as MqttEncode>::to_buffer, (packet, encoder), res),
        call_ensures(<Unsubscribe<'a> as MqttEncode>::max_packet_size, (packet,), size),
    ensures
        res is Ok <==> 5 + packet.body().len() <= old(encoder).capacity() && packet.body().len()
            <= 268435455,
        res is Ok ==> final(encoder).written() == frame(0xa2, packet.body()),
        size == 5 + packet.body().len(),
{
    assert(0xa0u8 | 0x2u8 == 0xa2u8) by (bit_vector);
}

/// Encoding a CONNACK packet gives its first byte, its length and its body, if there
/// is room for it and the longest possible fixed header, which is what its
/// maximum size counts.
pub proof fn law_connack_is_encoded<'a, 'b>(
    packet: &ConnAck<'a>,
    encoder: &mut MqttEncoder<'b>,
    res: Result<(), Error>,
    size: usize,
)
    requires
        call_ensures(<ConnAck<'a> as MqttEncode>::to_buffer, (packet, encoder), res),
        call_ensures(<ConnAck<'a> as MqttEncode>::max_packet_size, (packet,), size),
    ensures
        res is Ok <==> 5 + packet.body().len() <= old(encoder).capacity() && packet.body().len()
            <= 268435455,
        res is Ok ==> final(encoder).written() == frame(0x20, packet.body()),
        size == 5 + packet.body().len(),
{
    assert(0x20u8 | 0x0u8 == 0x20u8) by (bit_vector);
}

/// Encoding a PUBACK packet gives its first byte, its length and its body, if there
/// is room for it and the longest possible fixed header, which is what its
/// maximum size counts.
pub proof fn law_puback_is_encoded<'a, 'b>(
    packet: &PubAck<'a>,
    encoder: &mut MqttEncoder<'b>,
    res: Result<(), Error>,
    size: usize,
)
    requires
        call_ensures(<PubAck<'a> as MqttEncode>::to_buffer, (packet, encoder), res),
        call_ensures(<PubAck<'a> as MqttEncode>::max_packet_size, (packet,), size),
    ensures
        res is Ok <==> 5 + packet.body().len() <= old(encoder).capacity() && packet.body().len()
            <= 268435455,
        res is Ok ==> final(encoder).written() == frame(0x40, packet.body()),
        size == 5 + packet.body().len(),
{
    assert(0x40u8 | 0x0u8 == 0x40u8) by (bit_vector);
}

/// Encoding a PUBREC packet gives its first byte, its length and its body, if there
/// is room for it and the longest possible fixed header, which is what its
/// maximum size counts.
pub proof fn law_pubrec_is_encoded<'a, 'b>(
    packet: &PubRec<'a>,
    encoder: &mut MqttEncoder<'b>,
    res: Result<(), Error>,
    size: usize,
)
    requires
        call_ensures(<PubRec<'a> as MqttEncode>::to_buffer, (packet, encoder), res),
        call_ensures(<PubRec<'a> as MqttEncode>::max_packet_size, (packet,), size),
    ensures
        res is Ok <==> 5 + packet.body().len() <= old(encoder).capacity() && packet.body().len()
            <= 268435455,
        res is Ok ==> final(encoder).written() == frame(0x50, packet.body()),
        size == 5 + packet.body().len(),
{
    assert(0x50u8 | 0x0u8 == 0x50u8) by (bit_vector);
}

/// Encoding a PUBCOMP packet gives its first byte, its length and its body, if there
/// is room for it and the longest possible fixed header, which is what its
/// maximum size counts.
pub proof fn law_pubcomp_is_encoded<'a, 'b>(
    packet: &PubComp<'a>,
    encoder: &mut MqttEncoder<'b>,
    res: Result<(), Error>,
    size: usize,
)
    requires
        call_ensures(<PubComp<'a> as MqttEncode>::to_buffer, (packet, encoder), res),
        call_ensures(<PubComp<'a> as MqttEncode>::max_packet_size, (packet,), size),
    ensures
        res is Ok <==> 5 + packet.body().len() <= old(encoder).capacity() && packet.body().len()
            <= 268435455,
        res is Ok ==> final(encoder).written() == frame(0x70, packet.body()),
        size == 5 + packet.body().len(),
{
    assert(0x70u8 | 0x0u8 == 0x70u8) by (bit_vector);
}

/// Encoding a SUBACK packet gives its first byte, its length and its body, if there
/// is room for it and the longest possible fixed header, which is what its
/// maximum size counts.
pub proof fn law_suback_is_encoded<'a, 'b>(
    packet: &SubAck<'a>,
    encoder: &mut MqttEncoder<'b>,
    res: Result<(), Error>,
    size: usize,
)
    requires
        call_ensures(<SubAck<'a> as MqttEncode>::to_buffer, (packet, encoder), res),
        call_ensures(<SubAck<'a> as MqttEncode>::max_packet_size, (packet,), size),
    ensures
        res is Ok <==> 5 + packet.body().len() <= old(encoder).capacity() && packet.body().len()
            <= 268435455,
        res is Ok ==> final(encoder).written() == frame(0x90, packet.body()),
        size == 5 + packet.body().len(),
{
    assert(0x90u8 | 0x0u8 == 0x90u8) by (bit_vector);
}

/// Encoding a UNSUBACK packet gives its first byte, its length and its body, if there
/// is room for it and the longest possible fixed header, which is what its
/// maximum size counts.
pub proof fn law_unsuback_is_encoded<'a, 'b>(
    packet: &UnsubAck<'a>,
    encoder: &mut MqttEncoder<'b>,
    res: Result<(), Error>,
    size: usize,
)
    requires
        call_ensures(<UnsubAck<'a> as MqttEncode>::to_buffer, (packet, encoder), res),
        call_ensures(<UnsubAck<'a> as MqttEncode>::max_packet_size, (packet,), size),
    ensures
        res is Ok <==> 5 + packet.body().len() <= old(encoder).capacity() && packet.body().len()
            <= 268435455,
        res is Ok ==> final(encoder).written() == frame(0xb0, packet.body()),
        size == 5 + packet.body().len(),
{
    assert(0xb0u8 | 0x0u8 == 0xb0u8) by (bit_vector);
}

/// Encoding a DISCONNECT packet gives its first byte, its length and its body, if there
/// is room for it and the longest possible fixed header, which is what its
/// maximum size counts.
pub proof fn law_disconnect_is_encoded<'a, 'b>(
    packet: &Disconnect<'a>,
    encoder: &mut MqttEncoder<'b>,
    res: Result<(), Error>,
    size: usize,
)
    requires
        call_ensures(<Disconnect<'a> as MqttEncode>::to_buffer, (packet, encoder), res),
        call_ensures(<Disconnect<'a> as MqttEncode>::max_packet_size, (packet,), size),
    ensures
        res is Ok <==> 5 + packet.body().len() <= old(encoder).capacity() && packet.body().len()
            <= 268435455,
        res is Ok ==> final(encoder).written() == frame(0xe0, packet.body()),
        size == 5 + packet.body().len(),
{
    assert(0xe0u8 | 0x0u8 == 0xe0u8) by (bit_vector);
}

/// Encoding a PUBREL packet gives its first byte, its length and its body, if there
/// is room for it and the longest possible fixed header, which is what its
/// maximum size counts.
pub proof fn law_pubrel_is_encoded<'b>(
    packet: &PubRel,
    encoder: &mut MqttEncoder<'b>,
    res: Result<(), Error>,
    size: usize,
)
    requires
        call_ensures(<PubRel as MqttEncode>::to_buffer, (packet, encoder), res),
        call_ensures(<PubRel as MqttEncode>::max_packet_size, (packet,), size),
    ensures
        res is Ok <==> 5 + packet.body().len() <= old(encoder).capacity() && packet.body().len()
            <= 268435455,
        res is Ok ==> final(encoder).written() == frame(0x62, packet.body()),
        size == 5 + packet.body().len(),
{
    assert(0x60u8 | 0x2u8 == 0x62u8) by (bit_vector);
}

/// Encoding a PUBLISH packet with its bytes gives its first byte with the flags,
/// its length and its body, if there is room for it and the longest possible
/// fixed header, which is what its maximum size counts. Above QoS 0 a packet
/// without a packet identifier is an error.
pub proof fn law_publish_is_encoded<'a, 'b, 'p>(
    packet: &Publish<'a, &'p [u8]>,
    encoder: &mut MqttEncoder<'b>,
    res: Result<(), Error>,
    size: usize,
)
    requires
        call_ensures(<Publish<'a, &'p [u8]> as MqttEncode>::to_buffer, (packet, encoder), res),
        call_ensures(<Publish<'a, &'p [u8]> as MqttEncode>::max_packet_size, (packet,), size),
    ensures
        ({
            let body = packet.body_with(packet.payload@);
            let missing = packet.qos != QoS::AtMostOnce && packet.pid is None;
            &&& missing ==> res is Err
            &&& missing && 7 + packet.topic_name.spec_bytes().len() <= old(encoder).capacity()
                ==> res == Err::<(), Error>(Error::PidMissing)
            &&& !missing ==> (res is Ok <==> 5 + body.len() <= old(encoder).capacity() && body.len()
                <= 268435455)
            &&& res is Ok ==> final(encoder).written() == frame(
                (0x30 + publish_flags(packet.dup, packet.qos, packet.retain)) as u8,
                body,
            )
            &&& !missing ==> size == 5 + body.len()
        }),
{
    law_publish_flags(packet.dup, packet.qos, packet.retain);
    lemma_first_byte(0x30, publish_flags(packet.dup, packet.qos, packet.retain));
}

/// Encoding a CONNACK packet of MQTT 3.1.1 gives its first byte, its length and its
/// body, if there is room for it and the longest possible fixed header, which
/// is what its maximum size counts.
pub proof fn law_v3_connack_is_encoded<'b>(
    packet: &v3::ConnAck,
    encoder: &mut MqttEncoder<'b>,
    res: Result<(), Error>,
    size: usize,
)
    requires
        call_ensures(<v3::ConnAck as MqttEncode>::to_buffer, (packet, encoder), res),
        call_ensures(<v3::ConnAck as MqttEncode>::max_packet_size, (packet,), size),
    ensures
        res is Ok <==> 7 <= old(encoder).capacity(),
        res is Ok ==> final(encoder).written() == seq![0x20u8, 2u8, if packet.session_present { 1u8 } else { 0u8 }, packet.reason_code.code()],
        size == 7,
{
    reveal_with_fuel(varint_groups, 2);
    assert(0x20u8 | 0u8 == 0x20u8) by (bit_vector);
    if res is Ok {
        assert(final(encoder).written() =~= seq![0x20u8, 2u8, if packet.session_present { 1u8 } else { 0u8 }, packet.reason_code.code()]);
    }
}

/// Encoding a PUBACK packet of MQTT 3.1.1 gives its first byte, its length and its
/// body, if there is room for it and the longest possible fixed header, which
/// is what its maximum size counts.
pub proof fn law_v3_puback_is_encoded<'b>(
    packet: &v3::PubAck,
    encoder: &mut MqttEncoder<'b>,
    res: Result<(), Error>,
    size: usize,
)
    requires
        call_ensures(<v3::PubAck as MqttEncode>::to_buffer, (packet, encoder), res),
        call_ensures(<v3::PubAck as MqttEncode>::max_packet_size, (packet,), size),
    ensures
        res is Ok <==> 7 <= old(encoder).capacity(),
        res is Ok ==> final(encoder).written() == seq![0x40u8, 2u8, (packet.pid@ / 256) as u8, (packet.pid@ % 256) as u8],
        size == 7,
{
    reveal_with_fuel(varint_groups, 2);
    assert(0x40u8 | 0u8 == 0x40u8) by (bit_vector);
    if res is Ok {
        assert(final(encoder).written() =~= seq![0x40u8, 2u8, (packet.pid@ / 256) as u8, (packet.pid@ % 256) as u8]);
    }
}

/// Encoding a PUBREC packet of MQTT 3.1.1 gives its first byte, its length and its
/// body, if there is room for it and the longest possible fixed header, which
/// is what its maximum size counts.
pub proof fn law_v3_pubrec_is_encoded<'b>(
    packet: &v3::PubRec,
    encoder: &mut MqttEncoder<'b>,
    res: Result<(), Error>,
    size: usize,
)
    requires
        call_ensures(<v3::PubRec as MqttEncode>::to_buffer, (packet, encoder), res),
        call_ensures(<v3::PubRec as MqttEncode>::max_packet_size, (packet,), size),
    ensures
        res is Ok <==> 7 <= old(encoder).capacity(),
        res is Ok ==> final(encoder).written() == seq![0x50u8, 2u8, (packet.pid@ / 256) as u8, (packet.pid@ % 256) as u8],
        size == 7,
{
    reveal_with_fuel(varint_groups, 2);
    assert(0x50u8 | 0u8 == 0x50u8) by (bit_vector);
    if res is Ok {
        assert(final(encoder).written() =~= seq![0x50u8, 2u8, (packet.pid@ / 256) as u8, (packet.pid@ % 256) as u8]);
    }
}

/// Encoding a PUBCOMP packet of MQTT 3.1.1 gives its first byte, its length and its
/// body, if there is room for it and the longest possible fixed header, which
/// is what its maximum size counts.
pub proof fn law_v3_pubcomp_is_encoded<'b>(
    packet: &v3::PubComp,
    encoder: &mut MqttEncoder<'b>,
    res: Result<(), Error>,
    size: usize,
)
    requires
        call_ensures(<v3::PubComp as MqttEncode>::to_buffer, (packet, encoder), res),
        call_ensures(<v3::PubComp as MqttEncode>::max_packet_size, (packet,), size),
    ensures
        res is Ok <==> 7 <= old(encoder).capacity(),
        res is Ok ==> final(encoder).written() == seq![0x70u8, 2u8, (packet.pid@ / 256) as u8, (packet.pid@ % 256) as u8],
        size == 7,
{
    reveal_with_fuel(varint_groups, 2);
    assert(0x70u8 | 0u8 == 0x70u8) by (bit_vector);
    if res is Ok {
        assert(final(encoder).written() =~= seq![0x70u8, 2u8, (packet.pid@ / 256) as u8, (packet.pid@ % 256) as u8]);
    }
}

/// Encoding a UNSUBACK packet of MQTT 3.1.1 gives its first byte, its length and its
/// body, if there is room for it and the longest possible fixed header, which
/// is what its maximum size counts.
pub proof fn law_v3_unsuback_is_encoded<'b>(
    packet: &v3::UnsubAck,
    encoder: &mut MqttEncoder<'b>,
    res: Result<(), Error>,
    size: usize,
)
    requires
        call_ensures(<v3::UnsubAck as MqttEncode>::to_buffer, (packet, encoder), res),
        call_ensures(<v3::UnsubAck as MqttEncode>::max_packet_size, (packet,), size),
    ensures
        res is Ok <==> 7 <= old(encoder).capacity(),
        res is Ok ==> final(encoder).written() == seq![0xb0u8, 2u8, (packet.pid@ / 256) as u8, (packet.pid@ % 256) as u8],
        size == 7,
{
    reveal_with_fuel(varint_groups, 2);
    assert(0xb0u8 | 0u8 == 0xb0u8) by (bit_vector);
    if res is Ok {
        assert(final(encoder).written() =~= seq![0xb0u8, 2u8, (packet.pid@ / 256) as u8, (packet.pid@ % 256) as u8]);
    }
}

/// Encoding a DISCONNECT packet of MQTT 3.1.1 gives its first byte, its length and its
/// body, if there is room for it and the longest possible fixed header, which
/// is what its maximum size counts.
pub proof fn law_v3_disconnect_is_encoded<'b>(
    packet: &v3::Disconnect,
    encoder: &mut MqttEncoder<'b>,
    res: Result<(), Error>,
    size: usize,
)
    requires
        call_ensures(<v3::Disconnect as MqttEncode>::to_buffer, (packet, encoder), res),
        call_ensures(<v3::Disconnect as MqttEncode>::max_packet_size, (packet,), size),
    ensures
        res is Ok <==> 5 <= old(encoder).capacity(),
        res is Ok ==> final(encoder).written() == seq![0xe0u8, 0u8],
        size == 5,
{
    reveal_with_fuel(varint_groups, 2);
    assert(0xe0u8 | 0u8 == 0xe0u8) by (bit_vector);
    if res is Ok {
        assert(final(encoder).written() =~= seq![0xe0u8, 0u8]);
    }
}

/// Encoding a PINGREQ packet gives its first byte, its length and its
/// body, if there is room for it and the longest possible fixed header, which
/// is what its maximum size counts.
pub proof fn law_pingreq_is_encoded<'b>(
    packet: &PingReq,
    encoder: &mut MqttEncoder<'b>,
    res: Result<(), Error>,
    size: usize,
)
    requires
        call_ensures(<PingReq as MqttEncode>::to_buffer, (packet, encoder), res),
        call_ensures(<PingReq as MqttEncode>::max_packet_size, (packet,), size),
    ensures
        res is Ok <==> 5 <= old(encoder).capacity(),
        res is Ok ==> final(encoder).written() == seq![0xc0u8, 0u8],
        size == 5,
{
    reveal_with_fuel(varint_groups, 2);
    assert(0xc0u8 | 0u8 == 0xc0u8) by (bit_vector);
    if res is Ok {
        assert(final(encoder).written() =~= seq![0xc0u8, 0u8]);
    }
}

/// Encoding a PINGRESP packet gives its first byte, its length and its
/// body, if there is room for it and the longest possible fixed header, which
/// is what its maximum size counts.
pub proof fn law_pingresp_is_encoded<'b>(
    packet: &PingResp,
    encoder: &mut MqttEncoder<'b>,
    res: Result<(), Error>,
    size: usize,
)
    requires
        call_ensures(<PingResp as MqttEncode>::to_buffer, (packet, encoder), res),
        call_ensures(<PingResp as MqttEncode>::max_packet_size, (packet,), size),
    ensures
        res is Ok <==> 5 <= old(encoder).capacity(),
        res is Ok ==> final(encoder).written() == seq![0xd0u8, 0u8],
        size == 5,
{
    reveal_with_fuel(varint_groups, 2);
    assert(0xd0u8 | 0u8 == 0xd0u8) by (bit_vector);
    if res is Ok {
        assert(final(encoder).written() =~= seq![0xd0u8, 0u8]);
    }
}

/// The packets of MQTT 3.1.1 are read as they stand: a packet identifier that is
/// not 0, or for a CONNACK whether there is a session and the reason.
pub proof fn law_v3_packets_are_read(header: FixedHeader, rest: Seq<u8>, left: int)
    ensures
        v3::PubAck::parsed(header, rest, left) == pid_at(rest),
        v3::PubRec::parsed(header, rest, left) == pid_at(rest),
        v3::PubComp::parsed(header, rest, left) == pid_at(rest),
        v3::UnsubAck::parsed(header, rest, left) is Ok <==> pid_at(rest) is Ok && 2 <= left
            <= rest.len(),
        v3::UnsubAck::parsed(header, rest, left) is Ok ==> v3::UnsubAck::parsed(header, rest, left)
            == pid_at(rest),
        v3::ConnAck::parsed(header, rest, left) is Ok <==> rest.len() >= 2 && rest[0] <= 1,
        v3::ConnAck::parsed(header, rest, left) matches Ok((session_present, reason_code)) ==> {
            &&& session_present <==> rest[0] == 1
            &&& reason_code == v3::ConnAckReasonCode::of_code(rest[1])
        },
{
}

/// A packet takes the packet identifier that it is given, and nothing else of it
/// changes. Of a publication the quality of service is told.
pub proof fn law_packets_take_their_pid<'a, 'p>(
    publish: &mut Publish<'a, &'p [u8]>,
    subscribe: &mut Subscribe<'a>,
    unsubscribe: &mut Unsubscribe<'a>,
    pid: Pid,
    qos: Option<QoS>,
)
    requires
        call_ensures(<Publish<'a, &'p [u8]> as MqttEncode>::set_pid, (publish, pid), ()),
        call_ensures(<Publish<'a, &'p [u8]> as MqttEncode>::get_qos, (&*old(publish),), qos),
        call_ensures(<Subscribe<'a> as MqttEncode>::set_pid, (subscribe, pid), ()),
        call_ensures(<Unsubscribe<'a> as MqttEncode>::set_pid, (unsubscribe, pid), ()),
    ensures
        qos == Some(old(publish).qos),
        final(publish).pid == Some(pid),
        final(publish).dup == old(publish).dup,
        final(publish).qos == old(publish).qos,
        final(publish).retain == old(publish).retain,
        final(publish).topic_name == old(publish).topic_name,
        final(publish).payload == old(publish).payload,
        final(publish).properties == old(publish).properties,
        final(subscribe).pid == Some(pid),
        final(subscribe).topics == old(subscribe).topics,
        final(subscribe).properties == old(subscribe).properties,
        final(unsubscribe).pid == Some(pid),
        final(unsubscribe).topics == old(unsubscribe).topics,
        final(unsubscribe).properties == old(unsubscribe).properties,
{
}

/// What is set while a PUBLISH packet is built is what it holds. Nothing but the
/// topic and the payload has to be set, and it is then delivered at least once,
/// is no duplicate, is not retained and has no properties.
pub proof fn law_publish_is_built<'a, P: ToPayload>(
    start: PublishBuilder<'a, P>,
    topic_name: &'a str,
    named: PublishBuilder<'a, P>,
    payload: P,
    loaded: PublishBuilder<'a, P>,
    plain: Publish<'a, P>,
    dup: bool,
    marked: PublishBuilder<'a, P>,
    qos: QoS,
    graded: PublishBuilder<'a, P>,
    retain: bool,
    kept: PublishBuilder<'a, P>,
    properties: Properties<'a>,
    whole: PublishBuilder<'a, P>,
    packet: Publish<'a, P>,
)
    requires
        call_ensures(Publish::<'a, P>::builder, (), start),
        call_ensures(PublishBuilder::<'a, P>::topic_name, (start, topic_name), named),
        call_ensures(PublishBuilder::<'a, P>::payload, (named, payload), loaded),
        call_ensures(PublishBuilder::<'a, P>::build, (loaded,), plain),
        call_ensures(PublishBuilder::<'a, P>::dup, (loaded, dup), marked),
        call_ensures(PublishBuilder::<'a, P>::qos, (marked, qos), graded),
        call_ensures(PublishBuilder::<'a, P>::retain, (graded, retain), kept),
        call_ensures(PublishBuilder::<'a, P>::properties, (kept, properties), whole),
        call_ensures(PublishBuilder::<'a, P>::build, (whole,), packet),
    ensures
        plain.topic_name == topic_name,
        plain.payload == payload,
        !plain.dup,
        plain.qos == QoS::AtLeastOnce,
        !plain.retain,
        plain.pid is None,
        plain.properties.block().len() == 0,
        packet.topic_name == topic_name,
        packet.payload == payload,
        packet.dup == dup,
        packet.qos == qos,
        packet.retain == retain,
        packet.pid is None,
        packet.properties == properties,
{
}

/// What is set while a DISCONNECT packet is built is what it holds. Nothing has
/// to be set, and the reason is then the normal one, without properties.
pub proof fn law_disconnect_is_built<'a>(
    start: DisconnectBuilder<'a>,
    plain: Disconnect<'a>,
    reason_code: DisconnectReasonCode,
    named: DisconnectBuilder<'a>,
    properties: Properties<'a>,
    whole: DisconnectBuilder<'a>,
    packet: Disconnect<'a>,
)
    requires
        call_ensures(Disconnect::<'a>::builder, (), start),
        call_ensures(DisconnectBuilder::<'a>::build, (start,), plain),
        call_ensures(DisconnectBuilder::<'a>::reason_code, (start, reason_code), named),
        call_ensures(DisconnectBuilder::<'a>::properties, (named, properties), whole),
        call_ensures(DisconnectBuilder::<'a>::build, (whole,), packet),
    ensures
        plain.reason_code == DisconnectReasonCode::Normal,
        plain.properties.block().len() == 0,
        packet.reason_code == reason_code,
        packet.properties == properties,
{
}

/// New requests to subscribe and to unsubscribe hold their topics in order, and
/// neither a packet identifier nor properties.
pub proof fn law_new_requests<'a>(
    topics: &'a [SubscribeTopic<'a>],
    subscribe: Subscribe<'a>,
    names: &'a [&'a str],
    unsubscribe: Unsubscribe<'a>,
    pid: Option<Pid>,
)
    requires
        call_ensures(Subscribe::<'a>::new, (topics,), subscribe),
        call_ensures(Unsubscribe::<'a>::new, (names,), unsubscribe),
        call_ensures(Unsubscribe::<'a>::pid, (&unsubscribe,), pid),
    ensures
        subscribe.topics@ == topics@,
        subscribe.pid is None,
        subscribe.properties.block().len() == 0,
        unsubscribe.topics@ == names@,
        unsubscribe.pid is None,
        unsubscribe.properties.block().len() == 0,
        pid is None,
{
}

/// A publication that has been received as a whole is what was published,
/// whatever follows it in the buffer.
pub proof fn law_publication_is_received<'a, 'p, 'r>(
    packet: Publish<'a, &'p [u8]>,
    rest: Seq<u8>,
    bytes: &'r [u8],
    len: usize,
    partial: PartialPublish<'r>,
    told: usize,
    res: Result<Publish<'r, &'r [u8]>, Error>,
)
    requires
        packet.encodable(),
        packet.qos != QoS::AtMostOnce ==> packet.pid is Some,
        packet.pid matches Some(pid) ==> pid@ != 0,
        packet.topic_name.spec_bytes().len() <= 0xffff,
        packet.body_with(packet.payload@).len() <= MAX_VARINT,
        bytes@ == frame(
            (0x30 + publish_flags(packet.dup, packet.qos, packet.retain)) as u8,
            packet.body_with(packet.payload@),
        ) + rest,
        call_ensures(PartialPublish::<'r>::new, (bytes, len), partial),
        call_ensures(PartialPublish::<'r>::len, (&partial,), told),
        call_ensures(PartialPublish::<'r>::as_publish, (&partial,), res),
    ensures
        told == len,
        res matches Ok(publish) && {
            &&& publish.dup == packet.dup
            &&& publish.qos == packet.qos
            &&& publish.retain == packet.retain
            &&& publish.topic_name.spec_bytes() == packet.topic_name.spec_bytes()
            &&& publish.payload@ == packet.payload@
            &&& publish.properties.block() == packet.properties.block()
            &&& packet.qos == QoS::AtMostOnce ==> publish.pid is None
            &&& packet.qos != QoS::AtMostOnce ==> publish.pid is Some && publish.pid->0@
                == packet.pid->0@
        },
{
    law_publish_round_trip(packet, rest);
    law_publish_flags(packet.dup, packet.qos, packet.retain);
    lemma_first_byte(0x30, publish_flags(packet.dup, packet.qos, packet.retain));
    law_header_round_trip(
        PacketType::Publish,
        publish_flags(packet.dup, packet.qos, packet.retain),
        packet.body_with(packet.payload@),
        rest,
    );
}

/// The part of a publication that is there is copied to the start of a buffer,
/// and the rest of that is as it was.
pub proof fn law_the_start_is_copied<'r>(
    bytes: &'r [u8],
    len: usize,
    partial: PartialPublish<'r>,
    buf: &mut [u8],
    n: usize,
    i: int,
)
    requires
        call_ensures(PartialPublish::<'r>::new, (bytes, len), partial),
        bytes@.len() <= old(buf)@.len(),
        call_ensures(PartialPublish::<'r>::copy_buffered, (&partial, buf), n),
        0 <= i < old(buf)@.len(),
    ensures
        n == bytes@.len(),
        final(buf)@.len() == old(buf)@.len(),
        final(buf)@[i] == if i < n {
            bytes@[i]
        } else {
            old(buf)@[i]
        },
{
}

/// A reason reports success if and only if its number is below 128.
pub proof fn law_reasons_report_success(
    connack: ConnAckReasonCode,
    suback: SubAckReasonCode,
    unsuback: UnsubAckReasonCode,
    told: (bool, bool, bool),
)
    requires
        call_ensures(ConnAckReasonCode::success, (&connack,), told.0),
        call_ensures(SubAckReasonCode::success, (&suback,), told.1),
        call_ensures(UnsubAckReasonCode::success, (&unsuback,), told.2),
    ensures
        told.0 <==> connack.code() < 128,
        told.1 <==> suback.code() < 128,
        told.2 <==> unsuback.code() < 128,
{
}

/// There is room for any packet but an UNSUBACK packet that answers for more
/// topic filters than a request can hold.
pub proof fn law_receivable_packets<'a>(buf: &'a [u8], res: bool)
    requires
        call_ensures(ReceivedPacket::<'a>::is_receivable, (buf,), res),
    ensures
        header_at(buf@) is Err ==> res,
        header_at(buf@) matches Ok((header, n)) ==> {
            let codes = codes_at(buf@.skip(n as int), header.remaining_len as int);
            res <==> !(buf@[0] / 16 == 11 && codes is Ok && codes->Ok_0.2.len()
                > MAX_SUB_TOPICS_PER_MSG)
        },
{
    law_fixed_header_is_read(buf@);
    if let Ok((header, _)) = header_at(buf@) {
        PacketType::law_numbers(header.typ);
    }
}

} // verus!
