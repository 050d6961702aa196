use vstd::prelude::*;
use vstd::string::StringSliceAdditionalSpecFns;

use super::connect::{block_at, field_at, lemma_block_found, lemma_field_found};
use super::PacketType;
use crate::encoding::encoder::{
    appends, bounded, frame, MqttEncode, MqttEncoder, MAX_MQTT_HEADER_LEN,
};
use crate::encoding::error::Error;
use crate::encoding::properties::Properties;
use crate::encoding::utils::{qos_code, Pid, QoS};
use crate::encoding::wire::{
    concat, law_u16_round_trip, lemma_concat_split, lemma_varint_size, properties_bytes,
    slice_bytes, u16_bytes, varint_len,
};
use crate::encoding::FixedHeader;

verus! {

/// Whether the server sends retained messages when a subscription is made.
#[derive(Debug, Copy, Clone, PartialEq, Eq, Hash, Structural)]
pub enum RetainHandling {
    SendAtSubscribeTime,
    SendAtSubscribeTimeIfNonexistent,
    DoNotSend,
}

impl RetainHandling {
    /// The number that stands for the choice on the wire.
    pub open spec fn code(self) -> u8 {
        match self {
            RetainHandling::SendAtSubscribeTime => 0,
            RetainHandling::SendAtSubscribeTimeIfNonexistent => 1,
            RetainHandling::DoNotSend => 2,
        }
    }
}

impl From<RetainHandling> for u8 {
    fn from(handling: RetainHandling) -> (code: u8) {
        match handling {
            RetainHandling::SendAtSubscribeTime => 0,
            RetainHandling::SendAtSubscribeTimeIfNonexistent => 1,
            RetainHandling::DoNotSend => 2,
        }
    }
}

impl vstd::std_specs::convert::FromSpecImpl<RetainHandling> for u8 {
    open spec fn obeys_from_spec() -> bool {
        true
    }

    open spec fn from_spec(handling: RetainHandling) -> u8 {
        handling.code()
    }
}

/// Subscribe topic.
///
/// `Subscribe` packets contain a list of those.
#[derive(Debug, Clone, Copy, PartialEq)]
pub struct SubscribeTopic<'a> {
    pub topic_path: &'a str,
    pub maximum_qos: QoS,
    pub no_local: bool,
    pub retain_as_published: bool,
    pub retain_handling: RetainHandling,
}

impl<'a> SubscribeTopic<'a> {
    /// The subscription options: two bits for the QoS, one each for `no_local`
    /// and `retain_as_published`, and two for the retain handling.
    pub open spec fn options(self) -> u8 {
        (16 * self.retain_handling.code() + (if self.retain_as_published {
            8int
        } else {
            0
        }) + (if self.no_local {
            4int
        } else {
            0
        }) + qos_code(self.maximum_qos)) as u8
    }

    /// The topic as it stands on the wire.
    pub open spec fn bytes(self) -> Seq<u8> {
        slice_bytes(self.topic_path.spec_bytes()) + seq![self.options()]
    }

    fn write(&self, encoder: &mut MqttEncoder<'_>) -> (res: Result<(), Error>)
        requires
            old(encoder).wf(),
        ensures
            appends(*old(encoder), *final(encoder), self.bytes(), res),
            (*final(final(encoder).target()))@ == (*final(old(encoder).target()))@,
    {
        encoder.write_str(self.topic_path)?;
        let mut options_byte: u8 = 16 * u8::from(self.retain_handling);
        if self.retain_as_published {
            options_byte = options_byte + 8;
        }
        if self.no_local {
            options_byte = options_byte + 4;
        }
        options_byte = options_byte + u8::from(self.maximum_qos);
        encoder.write_u8(options_byte)?;
        assert(encoder.written() =~= old(encoder).written() + self.bytes());
        Ok(())
    }
}

impl<'a> From<SubscribeTopic<'a>> for &'a str {
    fn from(topic: SubscribeTopic<'a>) -> (path: &'a str) {
        topic.topic_path
    }
}

impl<'a> vstd::std_specs::convert::FromSpecImpl<SubscribeTopic<'a>> for &'a str {
    open spec fn obeys_from_spec() -> bool {
        true
    }

    open spec fn from_spec(topic: SubscribeTopic<'a>) -> &'a str {
        topic.topic_path
    }
}

/// Subscribe packet.
#[derive(Debug, Clone, PartialEq)]
pub struct Subscribe<'a> {
    pub pid: Option<Pid>,
    pub properties: Properties<'a>,
    pub topics: &'a [SubscribeTopic<'a>],
}

/// The packet identifier of a request: 1 if it has none yet.
pub open spec fn pid_or_first(pid: Option<Pid>) -> u16 {
    match pid {
        Some(pid) => pid@,
        None => 1,
    }
}

/// Returns the packet identifier of a request: 1 if it has none yet.
pub(crate) fn pid_or_default(pid: Option<Pid>) -> (value: u16)
    ensures
        value == pid_or_first(pid),
{
    match pid {
        Some(pid) => pid.get(),
        None => Pid::default().get(),
    }
}

/// Each of the topics as it stands on the wire.
pub open spec fn topic_pieces(topics: Seq<SubscribeTopic<'_>>) -> Seq<Seq<u8>> {
    Seq::new(topics.len(), |i: int| topics[i].bytes())
}

impl<'a> Subscribe<'a> {
    /// The packet without its fixed header.
    pub open spec fn body(&self) -> Seq<u8> {
        u16_bytes(pid_or_first(self.pid)) + properties_bytes(self.properties.block()) + concat(
            topic_pieces(self.topics@),
        )
    }

    /// Creates a new `Subscribe` packet with the given list of topics.
    pub fn new(topics: &'a [SubscribeTopic<'a>]) -> (packet: Self)
        ensures
            packet.pid is None,
            packet.properties.block() == Seq::<u8>::empty(),
            packet.properties.valid(),
            packet.topics == topics,
    {
        Subscribe { pid: None, properties: Properties::default(), topics }
    }

    fn write_topics(&self, encoder: &mut MqttEncoder<'_>) -> (res: Result<(), Error>)
        requires
            old(encoder).wf(),
        ensures
            appends(*old(encoder), *final(encoder), concat(topic_pieces(self.topics@)), res),
            (*final(final(encoder).target()))@ == (*final(old(encoder).target()))@,
    {
        let ghost before = *encoder;
        let ghost pieces = topic_pieces(self.topics@);
        proof {
            lemma_concat_split(pieces, 0);
        }
        assert(before.written() =~= before.written() + concat(pieces.take(0)));
        let mut i: usize = 0;
        while i < self.topics.len()
            invariant
                i <= self.topics@.len(),
                before == *old(encoder),
                encoder.wf(),
                pieces == topic_pieces(self.topics@),
                encoder.capacity() == before.capacity(),
                encoder.headless() == before.headless(),
                (*final(encoder.target()))@ == (*final(before.target()))@,
                concat(pieces.take(i as int)).len() <= before.room(),
                encoder.written() == before.written() + concat(pieces.take(i as int)),
            decreases self.topics@.len() - i,
        {
            proof {
                lemma_concat_split(pieces, i as int);
            }
            match self.topics[i].write(encoder) {
                Ok(_) => {},
                Err(e) => {
                    return Err(e);
                },
            }
            assert(encoder.written() =~= before.written() + concat(pieces.take(i + 1)));
            i = i + 1;
        }
        proof {
            lemma_concat_split(pieces, i as int);
        }
        Ok(())
    }
}

impl<'a> FixedHeader for Subscribe<'a> {
    open spec fn type_bits(&self) -> u8 {
        PacketType::Subscribe.byte()
    }

    open spec fn flag_bits(&self) -> u8 {
        0b0010
    }

    /// Bits 3,2,1 and 0 of the fixed header of the SUBSCRIBE Control Packet are reserved and MUST
    /// be set to 0,0,1 and 0 respectively
    fn flags(&self) -> (flags: u8) {
        0b0010
    }

    fn packet_type(&self) -> (typ: u8) {
        u8::from(PacketType::Subscribe)
    }
}

impl<'a> MqttEncode for Subscribe<'a> {
    open spec fn encodable(&self) -> bool {
        self.properties.valid()
    }

    open spec fn encodes_to(&self, capacity: nat, body: Result<Seq<u8>, Error>) -> bool {
        body == bounded(self.body(), capacity)
    }

    open spec fn size_bound(&self) -> nat {
        MAX_MQTT_HEADER_LEN as nat + self.body().len()
    }

    /// Encodes the `SUBSCRIBE` packet into the given encoder.
    fn to_buffer(&self, encoder: &mut MqttEncoder<'_>) -> (res: Result<(), Error>)
        ensures
            res is Ok ==> final(encoder).written() == frame(
                PacketType::Subscribe.byte() | 0b0010,
                self.body(),
            ),
    {
        encoder.write_u16(pid_or_default(self.pid))?;
        encoder.write_properties(&self.properties)?;
        self.write_topics(encoder)?;
        assert(encoder.written() =~= self.body());
        encoder.finalize_fixed_header(self)
    }

    /// Returns the maximum size of the packet in bytes.
    fn max_packet_size(&self) -> (n: usize) {
        let ghost pieces = topic_pieces(self.topics@);
        proof {
            lemma_varint_size(self.properties.block().len());
            lemma_concat_split(pieces, 0);
        }
        let mut length: usize = 2 + MAX_MQTT_HEADER_LEN;
        length = length + varint_len(self.properties.size());
        length = length + self.properties.size();
        let ghost head = length;
        let mut i: usize = 0;
        while i < self.topics.len()
            invariant
                i <= self.topics@.len(),
                pieces == topic_pieces(self.topics@),
                head + concat(pieces).len() == self.size_bound(),
                self.size_bound() <= usize::MAX,
                length == head + concat(pieces.take(i as int)).len(),
            decreases self.topics@.len() - i,
        {
            proof {
                lemma_concat_split(pieces, i as int);
            }
            length = length + 2 + self.topics[i].topic_path.len() + 1;
            i = i + 1;
        }
        proof {
            lemma_concat_split(pieces, i as int);
        }
        length
    }

    /// Sets the packet identifier of the `SUBSCRIBE` packet.
    fn set_pid(&mut self, pid: Pid)
        ensures
            *final(self) == (Subscribe { pid: Some(pid), ..*old(self) }),
    {
        self.pid = Some(pid);
    }
}

/// A topic of a SUBSCRIBE packet as a reader of the packet finds it.
pub ghost struct TopicView {
    pub path: Seq<u8>,
    pub options: u8,
}

/// The topics that fill `s`, each with its options behind it.
pub open spec fn topics_found(s: Seq<u8>) -> Option<Seq<TopicView>>
    decreases s.len(),
{
    if s.len() == 0 {
        Some(Seq::empty())
    } else {
        match field_at(s) {
            None => None,
            Some((path, rest)) => if rest.len() == 0 || rest.len() >= s.len() {
                None
            } else {
                match topics_found(rest.skip(1)) {
                    None => None,
                    Some(topics) => Some(seq![TopicView { path, options: rest[0] }] + topics),
                }
            },
        }
    }
}

proof fn lemma_topics_found(topics: Seq<SubscribeTopic<'_>>)
    requires
        forall|i: int|
            0 <= i < topics.len() ==> (#[trigger] topics[i]).topic_path.spec_bytes().len()
                <= 0xffff,
    ensures
        topics_found(concat(topic_pieces(topics))) == Some(
            Seq::new(
                topics.len(),
                |i: int|
                    TopicView {
                        path: topics[i].topic_path.spec_bytes(),
                        options: topics[i].options(),
                    },
            ),
        ),
    decreases topics.len(),
{
    let pieces = topic_pieces(topics);
    let views = Seq::new(
        topics.len(),
        |i: int|
            TopicView { path: topics[i].topic_path.spec_bytes(), options: topics[i].options() },
    );
    let s = concat(pieces);
    if topics.len() == 0 {
        assert(views =~= Seq::<TopicView>::empty());
    } else {
        let tail = topics.skip(1);
        let path = topics[0].topic_path.spec_bytes();
        assert(pieces.skip(1) =~= topic_pieces(tail));
        let more = concat(topic_pieces(tail));
        let rest = seq![topics[0].options()] + more;
        assert(s =~= slice_bytes(path) + rest);
        lemma_field_found(path, rest);
        assert(rest.skip(1) =~= more);
        lemma_topics_found(tail);
        let after = Seq::new(
            tail.len(),
            |i: int|
                TopicView { path: tail[i].topic_path.spec_bytes(), options: tail[i].options() },
        );
        assert(views =~= seq![TopicView { path, options: topics[0].options() }] + after);
    }
}

impl<'a> Subscribe<'a> {
    /// A reader of the packet finds the packet identifier, which is 1 as long as
    /// none has been set, the properties, and as many topics as there are, each
    /// at its place and with its own path and options: the quality of service in
    /// bits 0 and 1, whether not to send back what the client publishes itself
    /// in bit 2, whether to keep the retain flag in bit 3, and how to handle
    /// retained messages in bits 4 and 5.
    pub proof fn law_round_trip(packet: Self)
        requires
            packet.encodable(),
            forall|i: int|
                0 <= i < packet.topics@.len() ==> (
                #[trigger] packet.topics@[i]).topic_path.spec_bytes().len() <= 0xffff,
        ensures
            ({
                let body = packet.body();
                let topics = packet.topics@;
                &&& body[0] * 256 + body[1] == match packet.pid {
                    Some(pid) => pid@,
                    None => 1,
                }
                &&& block_at(body.skip(2)) matches Some((block, payload)) && {
                    &&& block == packet.properties.block()
                    &&& topics_found(payload) matches Some(found) && {
                        &&& found.len() == topics.len()
                        &&& forall|i: int|
                            #![trigger found[i]]
                            0 <= i < topics.len() ==> {
                                &&& found[i].path == topics[i].topic_path.spec_bytes()
                                &&& found[i].options % 4 == match topics[i].maximum_qos {
                                    QoS::AtMostOnce => 0int,
                                    QoS::AtLeastOnce => 1,
                                    QoS::ExactlyOnce => 2,
                                }
                                &&& found[i].options / 4 % 2 == 1 <==> topics[i].no_local
                                &&& found[i].options / 8 % 2 == 1 <==> topics[i].retain_as_published
                                &&& found[i].options / 16 == match topics[i].retain_handling {
                                    RetainHandling::SendAtSubscribeTime => 0int,
                                    RetainHandling::SendAtSubscribeTimeIfNonexistent => 1,
                                    RetainHandling::DoNotSend => 2,
                                }
                            }
                    }
                }
            }),
    {
        let body = packet.body();
        let block = packet.properties.block();
        let payload = concat(topic_pieces(packet.topics@));
        let pid = pid_or_first(packet.pid);
        law_u16_round_trip(pid);
        assert(body[0] == u16_bytes(pid)[0]);
        assert(body[1] == u16_bytes(pid)[1]);
        assert(body.skip(2) =~= properties_bytes(block) + payload);
        lemma_block_found(block, payload);
        lemma_topics_found(packet.topics@);
    }
}

} // verus!
