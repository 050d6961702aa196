use vstd::prelude::*;
use vstd::string::StringSliceAdditionalSpecFns;

use super::payload::ToPayload;
use super::PacketType;
use crate::encoding::decoder::{
    header_at, law_header_round_trip, payload_at, FixedHeader as HeaderView, MqttDecoder,
};
use crate::encoding::encoder::{
    frame, payload_part, MqttEncode, MqttEncoder, MAX_MQTT_HEADER_LEN,
};
use crate::encoding::error::Error;
use crate::encoding::properties::Properties;
use crate::encoding::utils::{qos_code, Pid, QoS};
use crate::encoding::wire::{
    law_properties_round_trip, law_str_round_trip, law_u16_round_trip, lemma_varint_size,
    properties_at, properties_bytes, slice_bytes, str_at, u16_bytes, u16_of, varint_len,
    MAX_VARINT,
};
use crate::encoding::FixedHeader;

verus! {

/// Publish packet.
#[derive(Debug, Clone, PartialEq)]
pub struct Publish<'a, P: ToPayload> {
    pub dup: bool,
    pub qos: QoS,
    pub retain: bool,
    pub pid: Option<Pid>,
    pub topic_name: &'a str,
    pub payload: P,
    pub properties: Properties<'a>,
}

/// Builds a `Publish` packet field by field.
pub struct PublishBuilder<'a, P: ToPayload> {
    dup: bool,
    qos: QoS,
    retain: bool,
    topic_name: Option<&'a str>,
    payload: Option<P>,
    properties: Properties<'a>,
}

/// The flags of a `Publish` packet.
pub open spec fn publish_flags(dup: bool, qos: QoS, retain: bool) -> u8 {
    (2 * qos_code(qos) + (if dup {
        8int
    } else {
        0
    }) + (if retain {
        1int
    } else {
        0
    })) as u8
}

/// The packet identifier of a `Publish` packet as it stands on the wire: none
/// with QoS 0.
pub open spec fn publish_pid_bytes(qos: QoS, pid: u16) -> Seq<u8> {
    if qos == QoS::AtMostOnce {
        seq![]
    } else {
        u16_bytes(pid)
    }
}

impl<'a, P: ToPayload> Publish<'a, P> {
    /// The topic as it stands on the wire.
    pub open spec fn topic_bytes(&self) -> Seq<u8> {
        slice_bytes(self.topic_name.spec_bytes())
    }

    /// Whether the packet needs a packet identifier and has none.
    pub open spec fn lacks_pid(&self) -> bool {
        self.qos != QoS::AtMostOnce && self.pid is None
    }

    /// The part of the packet between the topic and the payload.
    pub open spec fn middle(&self) -> Seq<u8> {
        publish_pid_bytes(
            self.qos,
            match self.pid {
                Some(pid) => pid@,
                None => 0,
            },
        ) + properties_bytes(self.properties.block())
    }

    /// The packet without its fixed header, with this payload.
    pub open spec fn body_with(&self, payload: Seq<u8>) -> Seq<u8> {
        self.topic_bytes() + self.middle() + payload
    }

    /// The room that is left for the payload in a buffer of some length.
    pub open spec fn payload_room(&self, capacity: nat) -> nat {
        (capacity - MAX_MQTT_HEADER_LEN - self.topic_bytes().len() - self.middle().len()) as nat
    }

    /// Starts to build a packet with QoS 1, without properties.
    pub fn builder() -> (builder: PublishBuilder<'a, P>)
        ensures
            !builder.parts().dup,
            builder.parts().qos == QoS::AtLeastOnce,
            !builder.parts().retain,
            builder.parts().topic_name is None,
            builder.parts().payload is None,
            builder.parts().properties.block() == Seq::<u8>::empty(),
            builder.parts().properties.valid(),
    {
        PublishBuilder {
            dup: false,
            qos: QoS::AtLeastOnce,
            retain: false,
            topic_name: None,
            payload: None,
            properties: Properties::default(),
        }
    }
}

/// The fields of a `Publish` packet that is being built.
pub ghost struct PublishParts<'a, P> {
    pub dup: bool,
    pub qos: QoS,
    pub retain: bool,
    pub topic_name: Option<&'a str>,
    pub payload: Option<P>,
    pub properties: Properties<'a>,
}

impl<'a, P: ToPayload> PublishBuilder<'a, P> {
    /// The fields that have been set up to now.
    pub closed spec fn parts(self) -> PublishParts<'a, P> {
        PublishParts {
            dup: self.dup,
            qos: self.qos,
            retain: self.retain,
            topic_name: self.topic_name,
            payload: self.payload,
            properties: self.properties,
        }
    }

    pub fn dup(self, dup: bool) -> (builder: Self)
        ensures
            builder.parts() == (PublishParts { dup, ..self.parts() }),
    {
        PublishBuilder { dup, ..self }
    }

    pub fn qos(self, qos: QoS) -> (builder: Self)
        ensures
            builder.parts() == (PublishParts { qos, ..self.parts() }),
    {
        PublishBuilder { qos, ..self }
    }

    pub fn retain(self, retain: bool) -> (builder: Self)
        ensures
            builder.parts() == (PublishParts { retain, ..self.parts() }),
    {
        PublishBuilder { retain, ..self }
    }

    pub fn topic_name(self, topic_name: &'a str) -> (builder: Self)
        ensures
            builder.parts() == (PublishParts { topic_name: Some(topic_name), ..self.parts() }),
    {
        PublishBuilder { topic_name: Some(topic_name), ..self }
    }

    pub fn payload(self, payload: P) -> (builder: Self)
        ensures
            builder.parts() == (PublishParts { payload: Some(payload), ..self.parts() }),
    {
        PublishBuilder { payload: Some(payload), ..self }
    }

    pub fn properties(self, properties: Properties<'a>) -> (builder: Self)
        ensures
            builder.parts() == (PublishParts { properties, ..self.parts() }),
    {
        PublishBuilder { properties, ..self }
    }

    /// Ends building. The topic and the payload have to be set.
    pub fn build(self) -> (packet: Publish<'a, P>)
        requires
            self.parts().topic_name is Some,
            self.parts().payload is Some,
        ensures
            packet == (Publish {
                dup: self.parts().dup,
                qos: self.parts().qos,
                retain: self.parts().retain,
                pid: None,
                topic_name: self.parts().topic_name->0,
                payload: self.parts().payload->0,
                properties: self.parts().properties,
            }),
    {
        Publish {
            dup: self.dup,
            qos: self.qos,
            retain: self.retain,
            pid: None,
            topic_name: self.topic_name.unwrap(),
            payload: self.payload.unwrap(),
            properties: self.properties,
        }
    }
}

impl<'a, P: ToPayload> FixedHeader for Publish<'a, P> {
    open spec fn type_bits(&self) -> u8 {
        PacketType::Publish.byte()
    }

    open spec fn flag_bits(&self) -> u8 {
        publish_flags(self.dup, self.qos, self.retain)
    }

    fn flags(&self) -> (flags: u8) {
        let mut flags: u8 = 2 * u8::from(self.qos);
        if self.dup {
            flags = flags + 8;
        }
        if self.retain {
            flags = flags + 1;
        }
        flags
    }

    fn packet_type(&self) -> (typ: u8) {
        u8::from(PacketType::Publish)
    }
}

impl<'a, P: ToPayload> MqttEncode for Publish<'a, P> {
    open spec fn encodable(&self) -> bool {
        self.properties.valid() && self.payload.ready()
    }

    open spec fn encodes_to(&self, capacity: nat, body: Result<Seq<u8>, Error>) -> bool {
        let topic = self.topic_bytes();
        let room = self.payload_room(capacity);
        if MAX_MQTT_HEADER_LEN + topic.len() > capacity {
            body == Err::<Seq<u8>, Error>(Error::BufferSize)
        } else if self.lacks_pid() {
            body == Err::<Seq<u8>, Error>(Error::PidMissing)
        } else if MAX_MQTT_HEADER_LEN + topic.len() + self.middle().len() > capacity {
            body == Err::<Seq<u8>, Error>(Error::BufferSize)
        } else {
            match body {
                Ok(body) => exists|payload: Seq<u8>|
                    self.payload.yields(room, Ok(payload)) && body == #[trigger] self.body_with(
                        payload,
                    ) && body.len() <= MAX_VARINT,
                Err(e) => self.payload.yields(room, Err(e)) || (e == Error::InvalidLength
                    && exists|payload: Seq<u8>|
                    self.payload.yields(room, Ok(payload)) && #[trigger] self.body_with(
                        payload,
                    ).len() > MAX_VARINT),
            }
        }
    }

    open spec fn size_bound(&self) -> nat {
        MAX_MQTT_HEADER_LEN as nat + self.topic_bytes().len() + self.middle().len()
            + self.payload.bound()
    }

    /// Encodes the packet into the given encoder. The payload is what
    /// `serialize` writes into the room that is left for it.
    fn to_buffer(&self, encoder: &mut MqttEncoder<'_>) -> (res: Result<(), Error>)
        ensures
            !self.lacks_pid() && MAX_MQTT_HEADER_LEN + self.topic_bytes().len()
                + self.middle().len() <= old(encoder).capacity() ==> exists|
                b: &mut [u8],
                out: Result<usize, Error>,
            |
                {
                    &&& #[trigger] call_ensures(P::serialize, (&self.payload, b), out)
                    &&& (*b)@.len() == self.payload_room(old(encoder).capacity())
                    &&& match out {
                        Ok(n) => {
                            let body = self.body_with((*final(b))@.take(n as int));
                            &&& n <= (*b)@.len() == (*final(b))@.len()
                            &&& if body.len() <= MAX_VARINT {
                                &&& res == Ok::<(), Error>(())
                                &&& final(encoder).written() == frame(
                                    self.type_bits() | self.flag_bits(),
                                    body,
                                )
                            } else {
                                res == Err::<(), Error>(Error::InvalidLength)
                            }
                        },
                        Err(e) => res == Err::<(), Error>(e),
                    }
                },
    {
        // Topic
        encoder.write_str(self.topic_name)?;
        if self.qos != QoS::AtMostOnce {
            let pid: Pid = match self.pid {
                Some(pid) => pid,
                None => {
                    return Err(Error::PidMissing);
                },
            };
            encoder.write_u16(pid.get())?;
        }
        // Properties

        encoder.write_properties(&self.properties)?;
        assert(encoder.written() =~= self.topic_bytes() + self.middle());

        // Payload
        let ghost head = *encoder;
        encoder.write_payload(&self.payload)?;
        let ghost payload = payload_part(head, *encoder);
        assert(encoder.written() =~= self.body_with(payload));
        encoder.finalize_fixed_header(self)
    }

    fn max_packet_size(&self) -> (n: usize) {
        proof {
            lemma_varint_size(self.properties.block().len());
        }
        let mut length: usize = 2 + self.topic_name.len() + MAX_MQTT_HEADER_LEN;
        // pid
        if self.qos != QoS::AtMostOnce {
            length = length + 2;
        }
        length = length + varint_len(self.properties.size());
        length = length + self.properties.size();
        length + self.payload.max_size()
    }

    fn set_pid(&mut self, pid: Pid)
        ensures
            *final(self) == (Publish { pid: Some(pid), ..*old(self) }),
    {
        self.pid = Some(pid);
    }

    fn get_qos(&self) -> (qos: Option<QoS>)
        ensures
            qos == Some(self.qos),
    {
        Some(self.qos)
    }
}

/// What a `Publish` packet holds, with strings as their UTF-8 bytes. The packet
/// identifier is 0 if there is none.
pub ghost struct PublishView {
    pub topic: Seq<u8>,
    pub pid: u16,
    pub properties: Seq<u8>,
    pub payload: Seq<u8>,
}

/// What reading the topic and the packet identifier of a `Publish` packet gives.
pub open spec fn publish_head_at(qos: QoS, rest: Seq<u8>) -> Result<(Seq<u8>, u16), Error> {
    match str_at(rest) {
        Err(e) => Err(e),
        Ok(topic) => if qos == QoS::AtMostOnce {
            Ok((topic, 0))
        } else if rest.len() < 4 + topic.len() {
            Err(Error::InsufficientBytes)
        } else {
            Ok((topic, u16_of(rest[2 + topic.len() as int], rest[3 + topic.len() as int])))
        },
    }
}

/// The number of bytes that the topic and the packet identifier take.
pub open spec fn publish_head_len(qos: QoS, topic: Seq<u8>) -> nat {
    2 + topic.len() + if qos == QoS::AtMostOnce {
        0nat
    } else {
        2
    }
}

/// What reading the body of a `Publish` packet gives, if the packet goes on
/// with the first `left` bytes of `rest`.
pub open spec fn publish_at(qos: QoS, rest: Seq<u8>, left: int) -> Result<PublishView, Error> {
    match publish_head_at(qos, rest) {
        Err(e) => Err(e),
        Ok((topic, pid)) => {
            let n = publish_head_len(qos, topic);
            match properties_at(rest.skip(n as int)) {
                Err(e) => Err(e),
                Ok((properties, m)) => match payload_at(
                    rest.skip(n as int).skip(m as int),
                    left - n - m,
                ) {
                    Err(e) => Err(e),
                    Ok(payload) => Ok(PublishView { topic, pid, properties, payload }),
                },
            }
        },
    }
}

/// A `Publish` packet that has been read, of which only the start may be in the
/// buffer yet.
#[derive(Debug, Clone, Copy)]
pub struct PartialPublish<'a> {
    buf: &'a [u8],
    packet_len: usize,
}

impl<'a> PartialPublish<'a> {
    /// The start of the packet: as much of it as is in the buffer.
    pub closed spec fn buffered(&self) -> Seq<u8> {
        self.buf@
    }

    /// The length of the whole packet.
    pub closed spec fn total(&self) -> nat {
        self.packet_len as nat
    }

    pub fn new(buf: &'a [u8], packet_len: usize) -> (publish: Self)
        ensures
            publish.buffered() == buf@,
            publish.total() == packet_len,
    {
        PartialPublish { buf, packet_len }
    }

    /// Returns the length of the whole packet.
    pub fn len(&self) -> (n: usize)
        ensures
            n == self.total(),
    {
        self.packet_len
    }

    /// Copies as much of the packet as is there to the start of `buf` and
    /// returns its length. The packet is complete once the bytes of `buf` from
    /// there up to the length of the packet have been read as well.
    pub fn copy_buffered(&self, buf: &mut [u8]) -> (n: usize)
        requires
            self.buffered().len() <= old(buf)@.len(),
        ensures
            n == self.buffered().len(),
            final(buf)@ == self.buffered() + old(buf)@.skip(n as int),
    {
        let mut i: usize = 0;
        while i < self.buf.len()
            invariant
                i <= self.buf@.len() <= buf@.len(),
                buf@.len() == old(buf)@.len(),
                forall|k: int| 0 <= k < i ==> buf@[k] == self.buf@[k],
                forall|k: int| i <= k < buf@.len() ==> buf@[k] == old(buf)@[k],
            decreases self.buf@.len() - i,
        {
            buf[i] = self.buf[i];
            i = i + 1;
        }
        assert(buf@ =~= self.buffered() + old(buf)@.skip(i as int));
        i
    }

    /// What the packet holds, if all of it is there.
    pub open spec fn publish_view(&self) -> Result<PublishView, Error> {
        match header_at(self.buffered()) {
            Err(e) => Err(e),
            Ok((header, n)) => publish_at(
                header.qos,
                self.buffered().skip(n as int),
                header.remaining_len as int,
            ),
        }
    }

    /// Decodes the packet, if all of it is there.
    pub fn as_publish(&self) -> (res: Result<Publish<'a, &'a [u8]>, Error>)
        ensures
            match (res, self.publish_view()) {
                (Ok(publish), Ok(view)) => {
                    let header = header_at(self.buffered())->Ok_0.0;
                    &&& publish.dup == header.dup
                    &&& publish.qos == header.qos
                    &&& publish.retain == header.retain
                    &&& publish.topic_name.spec_bytes() == view.topic
                    &&& publish.properties is DataBlock
                    &&& publish.properties.block() == view.properties
                    &&& publish.payload@ == view.payload
                    &&& match publish.pid {
                        Some(pid) => pid@ == view.pid && view.pid != 0,
                        None => view.pid == 0,
                    }
                },
                (Err(e), Err(f)) => e == f,
                _ => false,
            },
    {
        let mut decoder: MqttDecoder<'a> = MqttDecoder::try_new(self.buf)?;
        let header: HeaderView = decoder.fixed_header();
        let (topic_name, raw): (&'a str, u16) = read_publish_head(&mut decoder)?;
        let pid: Option<Pid> = match Pid::try_from(raw) {
            Ok(pid) => Some(pid),
            Err(_) => None,
        };
        let properties: Properties<'a> = decoder.read_properties()?;
        let payload: &'a [u8] = decoder.read_payload()?;
        Ok(
            Publish {
                dup: header.dup,
                qos: header.qos,
                retain: header.retain,
                pid,
                topic_name,
                payload,
                properties,
            },
        )
    }
}

/// Reads the topic and the packet identifier of a `Publish` packet. The packet
/// identifier is 0 if there is none.
pub(crate) fn read_publish_head<'a>(decoder: &mut MqttDecoder<'a>) -> (res: Result<
    (&'a str, u16),
    Error,
>)
    ensures
        final(decoder).same_packet(*old(decoder)),
        final(decoder).pos() >= old(decoder).pos(),
        match (res, publish_head_at(old(decoder).header().qos, old(decoder).rest())) {
            (Ok((topic, pid)), Ok((topic_view, pid_view))) => {
                &&& topic.spec_bytes() == topic_view
                &&& pid == pid_view
                &&& crate::encoding::decoder::advanced(
                    *old(decoder),
                    *final(decoder),
                    publish_head_len(old(decoder).header().qos, topic_view),
                )
            },
            (Err(e), Err(f)) => e == f,
            _ => false,
        },
{
    let qos: QoS = decoder.fixed_header().qos;
    let ghost rest = decoder.rest();
    let topic: &'a str = decoder.read_str()?;
    if qos == QoS::AtMostOnce {
        Ok((topic, 0))
    } else {
        let ghost n = 2 + topic.spec_bytes().len();
        let pid: u16 = decoder.read_u16()?;
        assert(decoder.rest() =~= rest.skip((n + 2) as int));
        Ok((topic, pid))
    }
}

/// The body of a `Publish` packet.
pub open spec fn publish_body(qos: QoS, view: PublishView) -> Seq<u8> {
    slice_bytes(view.topic) + (publish_pid_bytes(qos, view.pid) + properties_bytes(view.properties))
        + view.payload
}

/// Reading the body of a `Publish` packet gives back what writing it wrote.
pub proof fn law_publish_body_round_trip(qos: QoS, view: PublishView, rest: Seq<u8>)
    requires
        view.topic.len() <= 0xffff,
        vstd::utf8::valid_utf8(view.topic),
        view.properties.len() <= MAX_VARINT,
        qos == QoS::AtMostOnce ==> view.pid == 0,
    ensures
        publish_at(qos, publish_body(qos, view) + rest, publish_body(qos, view).len() as int) == Ok::<
            PublishView,
            Error,
        >(view),
{
    let s = publish_body(qos, view) + rest;
    let topic = view.topic;
    let block = view.properties;
    let pid_bytes = publish_pid_bytes(qos, view.pid);
    let tail = view.payload + rest;
    let after_topic = pid_bytes + properties_bytes(block) + tail;
    assert(s =~= slice_bytes(topic) + after_topic);
    law_str_round_trip(topic, after_topic);
    let n = publish_head_len(qos, topic);
    if qos != QoS::AtMostOnce {
        law_u16_round_trip(view.pid);
        assert(s[2 + topic.len() as int] == u16_bytes(view.pid)[0]);
        assert(s[3 + topic.len() as int] == u16_bytes(view.pid)[1]);
    }
    assert(publish_head_at(qos, s) == Ok::<(Seq<u8>, u16), Error>((topic, view.pid)));
    assert(s.skip(n as int) =~= properties_bytes(block) + tail);
    law_properties_round_trip(block, tail);
    let m = properties_bytes(block).len();
    assert(s.skip(n as int).skip(m as int) =~= tail);
    assert(tail.take(view.payload.len() as int) =~= view.payload);
}

/// What the flags of a `Publish` packet tell.
pub proof fn lemma_publish_flags(dup: bool, qos: QoS, retain: bool)
    ensures
        publish_flags(dup, qos, retain) < 16,
        publish_flags(dup, qos, retain) / 8 == 1 <==> dup,
        publish_flags(dup, qos, retain) / 2 % 4 == qos_code(qos),
        publish_flags(dup, qos, retain) % 2 == 1 <==> retain,
{
}

/// Decoding what encoding a `Publish` packet gave yields its flags, topic,
/// packet identifier, properties and payload again, whatever follows it.
pub proof fn law_publish_round_trip(
    packet: Publish<'_, &[u8]>,
    rest: Seq<u8>,
)
    requires
        packet.encodable(),
        !packet.lacks_pid(),
        packet.pid matches Some(pid) ==> pid@ != 0,
        packet.topic_name.spec_bytes().len() <= 0xffff,
        packet.body_with(packet.payload@).len() <= MAX_VARINT,
    ensures
        ({
            let wire = frame(
                PacketType::Publish.byte() | packet.flag_bits(),
                packet.body_with(packet.payload@),
            ) + rest;
            match header_at(wire) {
                Ok((header, n)) => {
                    &&& header.typ == PacketType::Publish
                    &&& header.dup == packet.dup
                    &&& header.qos == packet.qos
                    &&& header.retain == packet.retain
                    &&& publish_at(header.qos, wire.skip(n as int), header.remaining_len as int)
                        == Ok::<PublishView, Error>(
                        PublishView {
                            topic: packet.topic_name.spec_bytes(),
                            pid: if packet.qos == QoS::AtMostOnce {
                                0
                            } else {
                                packet.pid->0@
                            },
                            properties: packet.properties.block(),
                            payload: packet.payload@,
                        },
                    )
                },
                Err(_) => false,
            }
        }),
{
    let view = PublishView {
        topic: packet.topic_name.spec_bytes(),
        pid: if packet.qos == QoS::AtMostOnce {
            0
        } else {
            packet.pid->0@
        },
        properties: packet.properties.block(),
        payload: packet.payload@,
    };
    let body = packet.body_with(packet.payload@);
    lemma_publish_flags(packet.dup, packet.qos, packet.retain);
    law_header_round_trip(PacketType::Publish, packet.flag_bits(), body, rest);
    vstd::utf8::encode_utf8_valid_utf8(packet.topic_name@);
    assert(body =~= publish_body(packet.qos, view));
    law_publish_body_round_trip(packet.qos, view, rest);
}

/// A buffer as long as `max_packet_size` says is long enough for a `Publish`
/// packet with its bytes: encoding it there never fails.
pub proof fn law_publish_max_packet_size_is_enough(
    packet: Publish<'_, &[u8]>,
    capacity: nat,
    res: Result<Seq<u8>, Error>,
)
    requires
        !packet.lacks_pid(),
        packet.body_with(packet.payload@).len() <= MAX_VARINT,
        packet.size_bound() <= capacity,
        packet.encodes_to(capacity, res),
    ensures
        res == Ok::<Seq<u8>, Error>(packet.body_with(packet.payload@)),
{
}

} // verus!
