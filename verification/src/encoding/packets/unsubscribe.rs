use vstd::prelude::*;
use vstd::string::StringSliceAdditionalSpecFns;

use super::connect::{block_at, field_at, lemma_block_found, lemma_field_found};
use super::subscribe::{pid_or_default, pid_or_first};
use super::PacketType;
use crate::encoding::encoder::{
    appends, bounded, frame, MqttEncode, MqttEncoder, MAX_MQTT_HEADER_LEN,
};
use crate::encoding::error::Error;
use crate::encoding::properties::Properties;
use crate::encoding::utils::Pid;
use crate::encoding::wire::{
    concat, law_u16_round_trip, lemma_concat_split, lemma_varint_size, properties_bytes,
    slice_bytes, u16_bytes, varint_len,
};
use crate::encoding::FixedHeader;

verus! {

/// Represents an `UNSUBSCRIBE` packet of MQTT.
///
/// This packet is used to unsubscribe from one or more topics.
#[derive(Debug, Clone, PartialEq)]
pub struct Unsubscribe<'a> {
    /// The packet identifier of the `UNSUBSCRIBE` packet.
    pub pid: Option<Pid>,
    /// A list of properties associated with the unsubscribe.
    pub properties: Properties<'a>,
    /// The list of topics to unsubscribe from.
    pub topics: &'a [&'a str],
}

/// Each of the topics as it stands on the wire.
pub open spec fn name_pieces(topics: Seq<&str>) -> Seq<Seq<u8>> {
    Seq::new(topics.len(), |i: int| slice_bytes(topics[i].spec_bytes()))
}

/// Writes topics one after the other.
pub(crate) fn write_names(encoder: &mut MqttEncoder<'_>, topics: &[&str]) -> (res: Result<
    (),
    Error,
>)
    requires
        old(encoder).wf(),
    ensures
        appends(*old(encoder), *final(encoder), concat(name_pieces(topics@)), res),
        (*final(final(encoder).target()))@ == (*final(old(encoder).target()))@,
{
    let ghost before = *encoder;
    let ghost pieces = name_pieces(topics@);
    proof {
        lemma_concat_split(pieces, 0);
    }
    assert(before.written() =~= before.written() + concat(pieces.take(0)));
    let mut i: usize = 0;
    while i < topics.len()
        invariant
            i <= topics@.len(),
            before == *old(encoder),
            encoder.wf(),
            pieces == name_pieces(topics@),
            encoder.capacity() == before.capacity(),
            encoder.headless() == before.headless(),
            (*final(encoder.target()))@ == (*final(before.target()))@,
            concat(pieces.take(i as int)).len() <= before.room(),
            encoder.written() == before.written() + concat(pieces.take(i as int)),
        decreases topics@.len() - i,
    {
        proof {
            lemma_concat_split(pieces, i as int);
        }
        match encoder.write_str(topics[i]) {
            Ok(_) => {},
            Err(e) => {
                return Err(e);
            },
        }
        assert(encoder.written() =~= before.written() + concat(pieces.take(i + 1)));
        i = i + 1;
    }
    proof {
        lemma_concat_split(pieces, i as int);
    }
    Ok(())
}

/// Returns the number of bytes that topics take.
pub(crate) fn names_len(topics: &[&str]) -> (n: usize)
    requires
        concat(name_pieces(topics@)).len() <= usize::MAX,
    ensures
        n == concat(name_pieces(topics@)).len(),
{
    let ghost pieces = name_pieces(topics@);
    proof {
        lemma_concat_split(pieces, 0);
    }
    let mut length: usize = 0;
    let mut i: usize = 0;
    while i < topics.len()
        invariant
            i <= topics@.len(),
            pieces == name_pieces(topics@),
            concat(pieces).len() <= usize::MAX,
            length == concat(pieces.take(i as int)).len(),
        decreases topics@.len() - i,
    {
        proof {
            lemma_concat_split(pieces, i as int);
        }
        length = length + 2 + topics[i].len();
        i = i + 1;
    }
    proof {
        lemma_concat_split(pieces, i as int);
    }
    length
}

impl<'a> Unsubscribe<'a> {
    /// The packet without its fixed header.
    pub open spec fn body(&self) -> Seq<u8> {
        u16_bytes(pid_or_first(self.pid)) + properties_bytes(self.properties.block()) + concat(
            name_pieces(self.topics@),
        )
    }

    /// Creates a new `Unsubscribe` packet with the given list of topics.
    pub fn new(topics: &'a [&'a str]) -> (packet: Self)
        ensures
            packet.pid is None,
            packet.properties.block() == Seq::<u8>::empty(),
            packet.properties.valid(),
            packet.topics == topics,
    {
        Unsubscribe { pid: None, properties: Properties::default(), topics }
    }

    /// Returns the packet identifier of the `UNSUBSCRIBE` packet.
    pub fn pid(&self) -> (pid: Option<Pid>)
        ensures
            pid == self.pid,
    {
        self.pid
    }
}

impl<'a> FixedHeader for Unsubscribe<'a> {
    open spec fn type_bits(&self) -> u8 {
        PacketType::Unsubscribe.byte()
    }

    open spec fn flag_bits(&self) -> u8 {
        0b0010
    }

    /// Returns the flags associated with the fixed header.
    ///
    /// Bits 3,2,1 and 0 of the fixed header of the UNSUBSCRIBE Control Packet are reserved and MUST
    /// be set to 0,0,1 and 0 respectively
    fn flags(&self) -> (flags: u8) {
        0b0010
    }

    fn packet_type(&self) -> (typ: u8) {
        u8::from(PacketType::Unsubscribe)
    }
}

impl<'a> MqttEncode for Unsubscribe<'a> {
    open spec fn encodable(&self) -> bool {
        self.properties.valid()
    }

    open spec fn encodes_to(&self, capacity: nat, body: Result<Seq<u8>, Error>) -> bool {
        body == bounded(self.body(), capacity)
    }

    open spec fn size_bound(&self) -> nat {
        MAX_MQTT_HEADER_LEN as nat + self.body().len()
    }

    /// Encodes the `UNSUBSCRIBE` packet into the given encoder.
    fn to_buffer(&self, encoder: &mut MqttEncoder<'_>) -> (res: Result<(), Error>)
        ensures
            res is Ok ==> final(encoder).written() == frame(
                PacketType::Unsubscribe.byte() | 0b0010,
                self.body(),
            ),
    {
        encoder.write_u16(pid_or_default(self.pid))?;
        encoder.write_properties(&self.properties)?;
        write_names(encoder, self.topics)?;
        assert(encoder.written() =~= self.body());
        encoder.finalize_fixed_header(self)
    }

    /// Returns the maximum size of the packet in bytes.
    fn max_packet_size(&self) -> (n: usize) {
        proof {
            lemma_varint_size(self.properties.block().len());
        }
        let mut length: usize = 2 + MAX_MQTT_HEADER_LEN;
        length = length + varint_len(self.properties.size());
        length = length + self.properties.size();
        length + names_len(self.topics)
    }

    /// Sets the packet identifier of the `UNSUBSCRIBE` packet.
    fn set_pid(&mut self, pid: Pid)
        ensures
            *final(self) == (Unsubscribe { pid: Some(pid), ..*old(self) }),
    {
        self.pid = Some(pid);
    }
}

/// The topics that fill `s`.
pub open spec fn names_found(s: Seq<u8>) -> Option<Seq<Seq<u8>>>
    decreases s.len(),
{
    if s.len() == 0 {
        Some(Seq::empty())
    } else {
        match field_at(s) {
            None => None,
            Some((name, rest)) => if rest.len() >= s.len() {
                None
            } else {
                match names_found(rest) {
                    None => None,
                    Some(names) => Some(seq![name] + names),
                }
            },
        }
    }
}

proof fn lemma_names_found(topics: Seq<&str>)
    requires
        forall|i: int| 0 <= i < topics.len() ==> (#[trigger] topics[i]).spec_bytes().len() <= 0xffff,
    ensures
        names_found(concat(name_pieces(topics))) == Some(
            Seq::new(topics.len(), |i: int| topics[i].spec_bytes()),
        ),
    decreases topics.len(),
{
    let pieces = name_pieces(topics);
    let names = Seq::new(topics.len(), |i: int| topics[i].spec_bytes());
    if topics.len() == 0 {
        assert(names =~= Seq::<Seq<u8>>::empty());
    } else {
        let tail = topics.skip(1);
        let rest = concat(name_pieces(tail));
        assert(pieces.skip(1) =~= name_pieces(tail));
        lemma_field_found(topics[0].spec_bytes(), rest);
        lemma_names_found(tail);
        assert(names =~= seq![topics[0].spec_bytes()] + Seq::new(
            tail.len(),
            |i: int| tail[i].spec_bytes(),
        ));
    }
}

impl<'a> Unsubscribe<'a> {
    /// A reader of the packet finds the packet identifier, which is 1 as long as
    /// none has been set, the properties, and all the topics in their order.
    pub proof fn law_round_trip(packet: Self)
        requires
            packet.encodable(),
            forall|i: int|
                0 <= i < packet.topics@.len() ==> (#[trigger] packet.topics@[i]).spec_bytes().len()
                    <= 0xffff,
        ensures
            ({
                let body = packet.body();
                let topics = packet.topics@;
                &&& body[0] * 256 + body[1] == match packet.pid {
                    Some(pid) => pid@,
                    None => 1,
                }
                &&& block_at(body.skip(2)) matches Some((block, payload)) && {
                    &&& block == packet.properties.block()
                    &&& names_found(payload) matches Some(found) && {
                        &&& found.len() == topics.len()
                        &&& forall|i: int|
                            0 <= i < topics.len() ==> #[trigger] found[i] == topics[i].spec_bytes()
                    }
                }
            }),
    {
        let body = packet.body();
        let block = packet.properties.block();
        let payload = concat(name_pieces(packet.topics@));
        let pid = pid_or_first(packet.pid);
        law_u16_round_trip(pid);
        assert(body[0] == u16_bytes(pid)[0]);
        assert(body[1] == u16_bytes(pid)[1]);
        assert(body.skip(2) =~= properties_bytes(block) + payload);
        lemma_block_found(block, payload);
        lemma_names_found(packet.topics@);
    }
}

} // verus!
