use vstd::prelude::*;
use vstd::string::StringSliceAdditionalSpecFns;

use crate::encoding::decoder::{
    header_at, law_header_round_trip, lemma_first_byte, payload_at, FixedHeader, MqttDecoder,
};
use crate::encoding::error::Error as EncodingError;
use crate::encoding::encoder::{frame, MqttEncode};
use crate::encoding::laws::{law_fixed_header_is_read, law_publish_is_read};
use crate::encoding::packets::publish::{
    law_publish_round_trip, lemma_publish_flags, publish_flags, publish_head_at, publish_head_len,
    read_publish_head,
};
use crate::encoding::packets::{PacketType, Publish};
use crate::encoding::properties::Properties;
use crate::encoding::received_packet::{qos_pid_of, qos_pid_qos, qos_pid_value};
use crate::encoding::utils::{law_qos_numbers, qos_code, QoS, QosPid};
use crate::encoding::FixedHeader as PacketHeader;
use crate::encoding::wire::{
    lemma_varint_at_bounds, properties_at, slice_at, str_at, utf8_str, varint_at,
    MAX_VARINT,
};
use crate::pubsub::channel::splice;

verus! {

/// What a message holds, with the topic as its UTF-8 bytes and the properties
/// as they stand on the wire.
#[verifier::ext_equal]
pub ghost struct MessageView {
    pub dup: bool,
    pub retain: bool,
    pub qos: QoS,
    /// The packet identifier, 0 if there is none.
    pub pid: u16,
    pub topic: Seq<u8>,
    pub properties: Seq<u8>,
    pub payload: Seq<u8>,
}

/// What reading a whole `Publish` packet at the start of `s` gives.
pub open spec fn message_at(s: Seq<u8>) -> Result<MessageView, EncodingError> {
    match header_at(s) {
        Err(e) => Err(e),
        Ok((header, n)) => {
            let rest = s.skip(n as int);
            if rest.len() < header.remaining_len {
                Err(EncodingError::InsufficientBytes)
            } else {
                match publish_head_at(header.qos, rest) {
                    Err(e) => Err(e),
                    Ok((topic, pid)) => if header.qos != QoS::AtMostOnce && pid == 0 {
                        Err(EncodingError::BadIdentifier(0))
                    } else {
                        let m = publish_head_len(header.qos, topic);
                        match properties_at(rest.skip(m as int)) {
                            Err(e) => Err(e),
                            Ok((properties, k)) => match payload_at(
                                rest.skip(m as int).skip(k as int),
                                header.remaining_len - m - k,
                            ) {
                                Err(e) => Err(e),
                                Ok(payload) => Ok(
                                    MessageView {
                                        dup: header.dup,
                                        retain: header.retain,
                                        qos: header.qos,
                                        pid,
                                        topic,
                                        properties,
                                        payload,
                                    },
                                ),
                            },
                        }
                    },
                }
            }
        },
    }
}

/// Represents an MQTT message with associated metadata and payload.
pub struct Message<'a> {
    /// The frame that holds the message.
    frame: &'a mut [u8],
    /// The fixed header of the MQTT message.
    header: FixedHeader,
    /// The QoS and Packet Identifier of the message.
    qos_pid: QosPid,
    /// Where the topic name starts and ends within the frame.
    topic_name: (usize, usize),
    /// Where the payload starts and ends within the frame.
    payload: (usize, usize),
    /// Where the properties start and end within the frame.
    properties: (usize, usize),
}

impl<'a> View for Message<'a> {
    type V = MessageView;

    closed spec fn view(&self) -> MessageView {
        MessageView {
            dup: self.header.dup,
            retain: self.header.retain,
            qos: qos_pid_qos(self.qos_pid),
            pid: qos_pid_value(self.qos_pid),
            topic: self.frame@.subrange(self.topic_name.0 as int, self.topic_name.1 as int),
            properties: self.frame@.subrange(self.properties.0 as int, self.properties.1 as int),
            payload: self.frame@.subrange(self.payload.0 as int, self.payload.1 as int),
        }
    }
}

impl<'a> Message<'a> {
    /// Whether the message is well formed: its parts follow one another in the
    /// frame, and its topic is a string.
    pub closed spec fn wf(&self) -> bool {
        &&& self.topic_name.0 <= self.topic_name.1 <= self.properties.0 <= self.properties.1
            <= self.payload.0 <= self.payload.1 <= self.frame@.len()
        &&& vstd::utf8::valid_utf8(self@.topic)
    }

    /// Tries to create a new `Message` from a given frame.
    ///
    /// Returns `Ok(Message)` if successful, otherwise an error.
    pub fn try_new(frame: &'a mut [u8]) -> (res: Result<Self, EncodingError>)
        ensures
            match (res, message_at(old(frame)@)) {
                (Ok(message), Ok(view)) => message.wf() && message@ == view,
                (Err(e), Err(f)) => e == f,
                _ => false,
            },
    {
        let ghost s = frame@;
        proof {
            lemma_varint_at_bounds(s.skip(1), 0);
        }
        let mut decoder: MqttDecoder<'_> = MqttDecoder::try_new(&*frame)?;
        let header: FixedHeader = decoder.fixed_header();
        decoder.check_remaining(header.remaining_len)?;
        let ghost n = decoder.pos();
        let ghost rest = decoder.rest();
        let start: usize = decoder.offset();
        let (topic, raw): (&str, u16) = read_publish_head(&mut decoder)?;
        let topic_len: usize = topic.len();
        let qos_pid: QosPid = qos_pid_of(header.qos, raw)?;
        proof {
            reveal(str_at);
            reveal(slice_at);
        }
        let ghost m = publish_head_len(header.qos, topic.spec_bytes());
        let ghost after_head = decoder.rest();
        let properties: Properties<'_> = decoder.read_properties()?;
        let end: usize = decoder.offset();
        let block_len: usize = match properties {
            Properties::DataBlock(block) => block.len(),
            _ => 0,
        };
        let payload: &[u8] = decoder.read_payload()?;
        let payload_end: usize = decoder.offset();
        proof {
            lemma_varint_at_bounds(after_head, 0);
            let k = varint_at(after_head, 0)->Ok_0.1;
            assert(s.subrange((n + 2) as int, (n + 2 + topic_len) as int)
                =~= topic.spec_bytes());
            assert(s.subrange(end - block_len, end as int) =~= properties.block());
            assert(s.subrange(end as int, payload_end as int) =~= payload@);
        }
        Ok(
            Message {
                frame,
                header,
                qos_pid,
                topic_name: (start + 2, start + 2 + topic_len),
                properties: (end - block_len, end),
                payload: (end, payload_end),
            },
        )
    }

    /// Returns whether the message is a duplicate.
    pub fn dup(&self) -> (dup: bool)
        ensures
            dup == self@.dup,
    {
        self.header.dup
    }

    /// Returns whether the message should be retained.
    pub fn retain(&self) -> (retain: bool)
        ensures
            retain == self@.retain,
    {
        self.header.retain
    }

    /// Returns the QoS and Packet Identifier of the message.
    pub fn qos_pid(&self) -> (qos_pid: QosPid)
        ensures
            qos_pid_qos(qos_pid) == self@.qos,
            qos_pid_value(qos_pid) == self@.pid,
    {
        self.qos_pid
    }

    /// Returns the topic name of the message as a string slice.
    pub fn topic_name(&self) -> (topic: &str)
        requires
            self.wf(),
        ensures
            topic.spec_bytes() == self@.topic,
    {
        match utf8_str(&self.frame[self.topic_name.0..self.topic_name.1]) {
            Some(topic) => topic,
            None => "",
        }
    }

    /// Returns the properties of the message.
    pub fn properties(&self) -> (properties: Properties<'_>)
        requires
            self.wf(),
        ensures
            properties is DataBlock,
            properties.block() == self@.properties,
    {
        Properties::DataBlock(&self.frame[self.properties.0..self.properties.1])
    }

    /// Returns the payload of the message as a byte slice.
    pub fn payload(&self) -> (payload: &[u8])
        requires
            self.wf(),
        ensures
            payload@ == self@.payload,
    {
        &self.frame[self.payload.0..self.payload.1]
    }

    /// Returns the payload of the message as a mutable byte slice.
    pub fn payload_mut(&mut self) -> (payload: &mut [u8])
        requires
            old(self).wf(),
        ensures
            payload@ == old(self)@.payload,
            final(payload)@.len() == payload@.len() ==> {
                &&& final(self).wf()
                &&& final(self)@ == (MessageView { payload: final(payload)@, ..old(self)@ })
            },
    {
        let ghost view = self@;
        let ghost s = self.frame@;
        let ghost (a, b) = (self.payload.0 as int, self.payload.1 as int);
        proof {
            let (t0, t1) = (self.topic_name.0 as int, self.topic_name.1 as int);
            let (p0, p1) = (self.properties.0 as int, self.properties.1 as int);
            assert forall|part: Seq<u8>| part.len() == b - a implies {
                &&& (#[trigger] splice(s, a, part)).subrange(t0, t1) == s.subrange(t0, t1)
                &&& splice(s, a, part).subrange(p0, p1) == s.subrange(p0, p1)
                &&& splice(s, a, part).subrange(a, b) == part
            } by {
                assert(splice(s, a, part).subrange(t0, t1) =~= s.subrange(t0, t1));
                assert(splice(s, a, part).subrange(p0, p1) =~= s.subrange(p0, p1));
                assert(splice(s, a, part).subrange(a, b) =~= part);
            }
        }
        self.frame_part()
    }

    fn frame_part(&mut self) -> (part: &mut [u8])
        requires
            old(self).wf(),
        ensures
            part@ == old(self)@.payload,
            final(part)@.len() == part@.len() ==> final(self).frame@ == splice(
                old(self).frame@,
                old(self).payload.0 as int,
                final(part)@,
            ),
            final(self).header == old(self).header,
            final(self).qos_pid == old(self).qos_pid,
            final(self).topic_name == old(self).topic_name,
            final(self).properties == old(self).properties,
            final(self).payload == old(self).payload,
    {
        let start: usize = self.payload.0;
        let len: usize = self.payload.1 - self.payload.0;
        let all: &mut [u8] = &mut *self.frame;
        let (_, rest) = all.split_at_mut(start);
        let (part, _) = rest.split_at_mut(len);
        part
    }
}

/// Reading a message gives back what encoding a `Publish` packet wrote,
/// whatever follows it.
pub proof fn law_message_round_trip(packet: Publish<'_, &[u8]>, rest: Seq<u8>)
    requires
        packet.encodable(),
        !packet.lacks_pid(),
        packet.pid matches Some(pid) ==> pid@ != 0,
        packet.topic_name.spec_bytes().len() <= 0xffff,
        packet.body_with(packet.payload@).len() <= MAX_VARINT,
    ensures
        message_at(
            frame(
                PacketType::Publish.byte() | packet.flag_bits(),
                packet.body_with(packet.payload@),
            ) + rest,
        ) == Ok::<MessageView, EncodingError>(
            MessageView {
                dup: packet.dup,
                retain: packet.retain,
                qos: packet.qos,
                pid: if packet.qos == QoS::AtMostOnce {
                    0
                } else {
                    packet.pid->0@
                },
                topic: packet.topic_name.spec_bytes(),
                properties: packet.properties.block(),
                payload: packet.payload@,
            },
        ),
{
    law_publish_round_trip(packet, rest);
    lemma_publish_flags(packet.dup, packet.qos, packet.retain);
    law_header_round_trip(
        PacketType::Publish,
        packet.flag_bits(),
        packet.body_with(packet.payload@),
        rest,
    );
}

/// A message is read out of a `Publish` packet of which all is there: the flags
/// out of the first byte, and out of the rest the topic, then with a quality of
/// service above 0 the packet identifier, which cannot be 0, then the
/// properties. What is left of the packet is the payload.
pub proof fn law_messages_are_read(s: Seq<u8>)
    ensures
        header_at(s) matches Err(e) ==> message_at(s) == Err::<MessageView, EncodingError>(e),
        header_at(s) matches Ok((header, n)) ==> {
            let topic = str_at(s.skip(n as int))->Ok_0;
            let m = n + 2 + topic.len() + if s[0] / 2 % 4 == 0 {
                0int
            } else {
                2
            };
            let (block, k) = properties_at(s.skip(m))->Ok_0;
            let end = n + header.remaining_len;
            &&& message_at(s) is Ok <==> {
                &&& end <= s.len()
                &&& str_at(s.skip(n as int)) is Ok
                &&& m <= s.len()
                &&& s[0] / 2 % 4 == 0 || s[m - 2] != 0 || s[m - 1] != 0
                &&& properties_at(s.skip(m)) is Ok
                &&& m + k <= end
            }
            &&& message_at(s) matches Ok(view) ==> {
                &&& view.dup <==> s[0] / 8 % 2 == 1
                &&& view.retain <==> s[0] % 2 == 1
                &&& qos_code(view.qos) == s[0] / 2 % 4
                &&& view.topic == topic
                &&& view.pid == if s[0] / 2 % 4 == 0 {
                    0
                } else {
                    s[m - 2] * 256 + s[m - 1]
                }
                &&& view.properties == block
                &&& view.payload == s.subrange(m + k, end)
            }
            &&& end > s.len() ==> message_at(s) == Err::<MessageView, EncodingError>(
                EncodingError::InsufficientBytes,
            )
        },
{
    law_fixed_header_is_read(s);
    if let Ok((header, n)) = header_at(s) {
        let rest = s.skip(n as int);
        law_publish_is_read(header.qos, rest, header.remaining_len as int);
        law_qos_numbers(header.qos, 0);
        if let Ok(topic) = str_at(rest) {
            let h = publish_head_len(header.qos, topic) as int;
            reveal(str_at);
            reveal(slice_at);
            if h <= rest.len() {
                assert(rest.skip(h) =~= s.skip(n + h));
                lemma_varint_at_bounds(rest.skip(h), 0);
                if let Ok((block, k)) = properties_at(rest.skip(h)) {
                    let tail = rest.skip(h).skip(k as int);
                    let left = header.remaining_len - h - k;
                    if 0 <= left && h + k + left <= rest.len() {
                        assert(tail.take(left) =~= s.subrange(
                            n + h + k,
                            n + header.remaining_len as int,
                        ));
                    }
                }
            }
        }
    }
}

/// Of a message the getters tell what was published, whatever follows it in the
/// frame.
pub proof fn law_messages_hold_what_was_published<'a>(
    packet: Publish<'_, &[u8]>,
    rest: Seq<u8>,
    bytes: &'a mut [u8],
    res: Result<Message<'a>, EncodingError>,
    dup: bool,
    retain: bool,
    qos_pid: QosPid,
    topic: &str,
    payload: &[u8],
    properties: Properties<'_>,
)
    requires
        packet.encodable(),
        packet.qos != QoS::AtMostOnce ==> packet.pid is Some && packet.pid->0@ != 0,
        packet.pid matches Some(pid) ==> pid@ != 0,
        packet.topic_name.spec_bytes().len() <= 0xffff,
        packet.body_with(packet.payload@).len() <= MAX_VARINT,
        old(bytes)@ == frame(
            (0x30 + publish_flags(packet.dup, packet.qos, packet.retain)) as u8,
            packet.body_with(packet.payload@),
        ) + rest,
        call_ensures(Message::<'a>::try_new, (bytes,), res),
    ensures
        res matches Ok(message) && message.wf(),
        call_ensures(Message::<'a>::dup, (&res->Ok_0,), dup) ==> dup == packet.dup,
        call_ensures(Message::<'a>::retain, (&res->Ok_0,), retain) ==> retain == packet.retain,
        call_ensures(Message::<'a>::qos_pid, (&res->Ok_0,), qos_pid) ==> match qos_pid {
            QosPid::AtMostOnce => packet.qos == QoS::AtMostOnce,
            QosPid::AtLeastOnce(pid) => packet.qos == QoS::AtLeastOnce && pid@ == packet.pid->0@,
            QosPid::ExactlyOnce(pid) => packet.qos == QoS::ExactlyOnce && pid@ == packet.pid->0@,
        },
        call_ensures(Message::<'a>::topic_name, (&res->Ok_0,), topic) ==> topic.spec_bytes()
            == packet.topic_name.spec_bytes(),
        call_ensures(Message::<'a>::payload, (&res->Ok_0,), payload) ==> payload@
            == packet.payload@,
        call_ensures(Message::<'a>::properties, (&res->Ok_0,), properties) ==> properties.block()
            == packet.properties.block(),
{
    law_message_round_trip(packet, rest);
    lemma_first_byte(0x30, publish_flags(packet.dup, packet.qos, packet.retain));
    lemma_publish_flags(packet.dup, packet.qos, packet.retain);
}

/// Changing the payload of a message changes nothing else of it.
pub proof fn law_payload_can_be_changed<'a, 'm>(
    message: &'m mut Message<'a>,
    payload: &'m mut [u8],
)
    requires
        old(message).wf(),
        call_ensures(Message::<'a>::payload_mut, (message,), payload),
    ensures
        old(payload)@ == old(message)@.payload,
        final(payload)@.len() == old(payload)@.len() ==> {
            &&& final(message)@.payload == final(payload)@
            &&& final(message)@.dup == old(message)@.dup
            &&& final(message)@.retain == old(message)@.retain
            &&& final(message)@.qos == old(message)@.qos
            &&& final(message)@.pid == old(message)@.pid
            &&& final(message)@.topic == old(message)@.topic
            &&& final(message)@.properties == old(message)@.properties
        },
{
}

} // verus!
