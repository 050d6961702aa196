//! Reading packets off a stream of bytes, and encoding packets for one.
use vstd::prelude::*;

use crate::crate_config::MAX_TOPIC_LEN;
use crate::encoding::decoder::{header_at, MqttDecoder};
use crate::encoding::encoder::{frame, MqttEncode, MqttEncoder, MAX_MQTT_HEADER_LEN};
use crate::encoding::error::Error as EncodingError;
use crate::encoding::error::{ErrorKind, StateError};
use crate::encoding::laws::law_fixed_header_is_read;
use crate::encoding::packets::PacketType;
use crate::encoding::received_packet::{receivable, received, ReceivedPacket};
use crate::encoding::wire::{
    law_varint_round_trip, lemma_varint_at_bounds, lemma_varint_size, slice_at, str_at, u16_of,
    varint_at, varint_bytes, MAX_VARINT,
};
use crate::pubsub::channel::splice;

verus! {

/// Read buffer sized to hold a single MQTT packet header + topic.
///
/// Layout: fixed header (5) + topic length prefix (2) + topic (MAX_TOPIC_LEN) + PID (2)
pub const READ_BUF_LEN: usize = MAX_MQTT_HEADER_LEN + 2 + MAX_TOPIC_LEN + 2;

/// Reads one packet after the other. Of a `Publish` packet only the start is
/// read.
pub struct PacketReader {
    buf: [u8; READ_BUF_LEN],
    read_bytes: usize,
    packet_len: Option<usize>,
}

/// What a `PacketReader` holds.
#[verifier::ext_equal]
pub ghost struct ReaderView {
    /// The buffer.
    pub buf: Seq<u8>,
    /// How many bytes have been read into the buffer.
    pub read: nat,
    /// The length of the packet that is read, once it is known.
    pub packet_len: Option<usize>,
}

/// The length of the packet that `s` starts with. Of a `Publish` packet the
/// topic and two more bytes have to be there.
pub open spec fn packet_len_at(s: Seq<u8>) -> Result<usize, EncodingError> {
    match header_at(s) {
        Err(e) => Err(e),
        Ok((header, n)) => {
            let len = (n + header.remaining_len) as usize;
            if header.typ == PacketType::Publish {
                match str_at(s.skip(n as int)) {
                    Err(e) => Err(e),
                    Ok(topic) => if s.len() < n + 2 + topic.len() + 2 {
                        Err(EncodingError::InsufficientBytes)
                    } else {
                        Ok(len)
                    },
                }
            } else {
                Ok(len)
            }
        },
    }
}

impl ReaderView {
    /// The bytes that have been read.
    pub open spec fn buffered(self) -> Seq<u8> {
        self.buf.take(self.read as int)
    }

    /// The length of the packet as far as it can be known now.
    pub open spec fn known_len(self) -> Result<Option<usize>, EncodingError> {
        match self.packet_len {
            Some(len) => Ok(Some(len)),
            None => match packet_len_at(self.buffered()) {
                Ok(len) => Ok(Some(len)),
                Err(EncodingError::InsufficientBytes) => Ok(None),
                Err(e) => Err(e),
            },
        }
    }

    /// Up to where the buffer is to be filled next: up to the end of the packet
    /// if its length is known, and else by one byte.
    pub open spec fn read_end(self, len: Option<usize>) -> int {
        let end = match len {
            Some(len) => len as int,
            None => self.read as int + 1,
        };
        if end < READ_BUF_LEN {
            end
        } else {
            READ_BUF_LEN as int
        }
    }

    /// Whether more bytes have been read than the packet has.
    pub open spec fn runs_over(self) -> bool {
        self.known_len() matches Ok(len) && self.read_end(len) < self.read
    }

    /// The bytes of the packet, as far as they have been read.
    pub open spec fn decodable(self) -> Seq<u8> {
        match self.packet_len {
            Some(len) if len < self.read => self.buf.take(len as int),
            _ => self.buffered(),
        }
    }

    /// The reader before anything has been read.
    pub open spec fn cleared(self) -> ReaderView {
        ReaderView { read: 0, packet_len: None, ..self }
    }
}

impl View for PacketReader {
    type V = ReaderView;

    closed spec fn view(&self) -> ReaderView {
        ReaderView {
            buf: self.buf@,
            read: self.read_bytes as nat,
            packet_len: self.packet_len,
        }
    }
}

impl PacketReader {
    #[verifier::type_invariant]
    spec fn inv(&self) -> bool {
        self.read_bytes <= READ_BUF_LEN
    }

    pub fn new() -> (reader: Self)
        ensures
            reader@.read == 0,
            reader@.packet_len is None,
            reader@.buf == Seq::new(READ_BUF_LEN as nat, |i: int| 0u8),
    {
        let reader = PacketReader { buf: [0;READ_BUF_LEN], read_bytes: 0, packet_len: None };
        assert(reader@.buf =~= Seq::new(READ_BUF_LEN as nat, |i: int| 0u8));
        reader
    }

    /// Reset the reader state, discarding any partially or fully received packet.
    pub fn reset(&mut self)
        ensures
            final(self)@ == old(self)@.cleared(),
    {
        proof {
            use_type_invariant(&*self);
        }
        self.read_bytes = 0;
        self.packet_len = None;
    }

    /// Prepares for the next packet: if a packet was received, it is discarded.
    /// A packet that has been read partially is kept.
    pub fn begin(&mut self)
        ensures
            final(self)@ == if old(self)@.packet_len is Some {
                old(self)@.cleared()
            } else {
                old(self)@
            },
    {
        if self.packet_len.is_some() {
            self.reset();
        }
    }

    /// Returns whether the length of the packet is known. If it is, the packet
    /// can be decoded.
    pub fn is_complete(&self) -> (complete: bool)
        ensures
            complete == (self@.packet_len is Some),
    {
        self.packet_len.is_some()
    }

    /// Returns whether more bytes have been read than the packet has.
    pub fn runs_over(&self) -> (over: bool)
        ensures
            over == self@.runs_over(),
    {
        proof {
            use_type_invariant(self);
        }
        let len: usize = match self.packet_len {
            Some(len) => len,
            None => match self.parse_header() {
                Ok(len) => len,
                Err(_) => {
                    return false;
                },
            },
        };
        len < self.read_bytes && len < READ_BUF_LEN
    }

    fn parse_header(&self) -> (res: Result<usize, EncodingError>)
        ensures
            res == packet_len_at(self@.buffered()),
    {
        proof {
            use_type_invariant(self);
        }
        let buffered: &[u8] = vstd::slice::slice_subrange(
            self.buf.as_slice(),
            0,
            self.read_bytes,
        );
        assert(buffered@ =~= self@.buffered());
        let mut decoder: MqttDecoder<'_> = MqttDecoder::try_new(buffered)?;
        proof {
            lemma_varint_at_bounds(buffered@.skip(1), 0);
        }
        if decoder.fixed_header().typ == PacketType::Publish {
            let _topic_name: &str = decoder.read_str()?;
            decoder.check_remaining(2)?;
        }
        Ok(decoder.packet_len())
    }

    /// Sets the length of the packet, if enough of it has been read.
    pub fn try_parse_header(&mut self) -> (res: Result<(), EncodingError>)
        ensures
            match (res, packet_len_at(old(self)@.buffered())) {
                (Ok(_), Ok(len)) => final(self)@ == (ReaderView {
                    packet_len: Some(len),
                    ..old(self)@
                }),
                (Err(e), Err(f)) => e == f && final(self)@ == old(self)@,
                _ => false,
            },
    {
        match self.parse_header() {
            Ok(len) => {
                proof {
                    use_type_invariant(&*self);
                }
                self.packet_len = Some(len);
                Ok(())
            },
            Err(e) => Err(e),
        }
    }

    fn update_len(&mut self) -> (res: Result<(), EncodingError>)
        ensures
            match (res, old(self)@.known_len()) {
                (Ok(_), Ok(len)) => final(self)@ == (ReaderView { packet_len: len, ..old(self)@ }),
                (Err(e), Err(f)) => e == f && final(self)@ == old(self)@,
                _ => false,
            },
    {
        if self.packet_len.is_none() {
            match self.try_parse_header() {
                Ok(_) => Ok(()),
                Err(EncodingError::InsufficientBytes) => Ok(()),
                Err(e) => Err(e),
            }
        } else {
            Ok(())
        }
    }

    /// Returns the part of the buffer that is to be filled next.
    pub fn next_read_buf(&mut self) -> (res: Result<&mut [u8], EncodingError>)
        requires
            !old(self)@.runs_over(),
        ensures
            match (res, old(self)@.known_len()) {
                (Ok(buf), Ok(len)) => {
                    &&& buf@ == old(self)@.buf.subrange(
                        old(self)@.read as int,
                        old(self)@.read_end(len),
                    )
                    &&& final(buf)@.len() == buf@.len() ==> final(self)@ == (ReaderView {
                        buf: splice(old(self)@.buf, old(self)@.read as int, final(buf)@),
                        packet_len: len,
                        ..old(self)@
                    })
                },
                (Err(e), Err(f)) => e == f && final(self)@ == old(self)@,
                _ => false,
            },
    {
        self.update_len()?;
        proof {
            use_type_invariant(&*self);
        }
        let end: usize = match self.packet_len {
            Some(len) => len,
            None => self.read_bytes + 1,
        };
        let end: usize = if end < READ_BUF_LEN {
            end
        } else {
            READ_BUF_LEN
        };
        let start: usize = self.read_bytes;
        let all: &mut [u8] = &mut self.buf;
        let (_, rest) = all.split_at_mut(start);
        let (part, _) = rest.split_at_mut(end - start);
        Ok(part)
    }

    /// Returns the part of the buffer that the next bytes of the packet are to
    /// be read into. If it is empty, there is nothing to read. If what has been
    /// read is not a packet, it is discarded.
    pub fn read_buf(&mut self) -> (res: Result<&mut [u8], ErrorKind>)
        requires
            !old(self)@.runs_over(),
        ensures
            match (res, old(self)@.known_len()) {
                (Ok(buf), Ok(len)) => {
                    &&& buf@ == old(self)@.buf.subrange(
                        old(self)@.read as int,
                        old(self)@.read_end(len),
                    )
                    &&& final(buf)@.len() == buf@.len() ==> final(self)@ == (ReaderView {
                        buf: splice(old(self)@.buf, old(self)@.read as int, final(buf)@),
                        packet_len: len,
                        ..old(self)@
                    })
                },
                (Err(e), Err(_)) => e == ErrorKind::InvalidData && final(self)@ == old(
                    self)@.cleared(),
                _ => false,
            },
    {
        if self.update_len().is_err() {
            self.reset();
            return Err(ErrorKind::InvalidData);
        }
        match self.next_read_buf() {
            Ok(buf) => Ok(buf),
            Err(_) => Err(ErrorKind::InvalidData),
        }
    }

    /// Takes note of the bytes that were read into the buffer. That there are
    /// none means that the connection is closed.
    pub fn received(&mut self, received_bytes: usize) -> (res: Result<(), ErrorKind>)
        requires
            received_bytes <= READ_BUF_LEN - old(self)@.read,
        ensures
            final(self)@ == (ReaderView {
                read: old(self)@.read + received_bytes as nat,
                ..old(self)@
            }),
            res == if received_bytes > 0 {
                Ok::<(), ErrorKind>(())
            } else {
                Err(ErrorKind::NotConnected)
            },
    {
        if received_bytes > 0 {
            self.read_bytes = self.read_bytes + received_bytes;
            Ok(())
        } else {
            Err(ErrorKind::NotConnected)
        }
    }

    /// Returns whether there is room for what the packet that has been read
    /// holds.
    pub fn is_receivable(&self) -> (res: bool)
        ensures
            res == receivable(self@.decodable()),
    {
        ReceivedPacket::is_receivable(self.packet_bytes())
    }

    fn packet_bytes(&self) -> (bytes: &[u8])
        ensures
            bytes@ == self@.decodable(),
    {
        proof {
            use_type_invariant(self);
        }
        let len: usize = match self.packet_len {
            Some(len) if len < self.read_bytes => len,
            _ => self.read_bytes,
        };
        let bytes: &[u8] = vstd::slice::slice_subrange(self.buf.as_slice(), 0, len);
        assert(bytes@ =~= self@.decodable());
        bytes
    }

    /// Decodes the packet that has been read.
    pub fn decode(&self) -> (res: Result<ReceivedPacket<'_>, StateError>)
        requires
            receivable(self@.decodable()),
        ensures
            match (res, received(self@.decodable())) {
                (Ok(packet), Ok(view)) => self@.packet_len is Some && packet@ == view
                    && packet.raw_properties(),
                (Err(e), _) => e == StateError::Deserialization,
                _ => false,
            },
            res is Ok <==> self@.packet_len is Some && received(self@.decodable()) is Ok,
    {
        if self.packet_len.is_none() {
            return Err(StateError::Deserialization);
        }
        match ReceivedPacket::from_buffer(self.packet_bytes()) {
            Ok(packet) => Ok(packet),
            Err(_) => Err(StateError::Deserialization),
        }
    }
}

/// Encode `packet` into `buf`, returning the encoded byte slice.
/// It holds what `to_buffer` of the packet writes.
pub fn encode_packet<'b, P: MqttEncode>(buf: &'b mut [u8], packet: &P) -> (res: Result<
    &'b [u8],
    StateError,
>)
    requires
        packet.encodable(),
    ensures
        final(buf)@.len() == old(buf)@.len(),
        res matches Ok(bytes) ==> final(buf)@.take(bytes@.len() as int) == bytes@,
        match res {
            Ok(bytes) => exists|body: Seq<u8>|
                packet.encodes_to(old(buf)@.len(), Ok(body)) && body.len() <= MAX_VARINT && bytes@
                    == #[trigger] frame(packet.type_bits() | packet.flag_bits(), body),
            Err(e) => e == StateError::Deserialization && exists|error: EncodingError|
                #[trigger] packet.encodes_to(old(buf)@.len(), Err(error)),
        },
        exists|e: &mut MqttEncoder<'b>, out: Result<(), EncodingError>|
            {
                &&& #[trigger] call_ensures(P::to_buffer, (packet, e), out)
                &&& (*e).capacity() == old(buf)@.len()
                &&& match out {
                    Ok(_) => res matches Ok(bytes) && bytes@ == (*final(e)).written(),
                    Err(_) => res is Err,
                }
            },
{
    let mut encoder: MqttEncoder<'b> = MqttEncoder::new(buf);
    match packet.to_buffer(&mut encoder) {
        Ok(_) => Ok(encoder.into_packet_bytes()),
        Err(_) => {
            proof {
                MqttEncoder::law_buffer_is_left_behind(encoder);
            }
            Err(StateError::Deserialization)
        },
    }
}

/// More bytes do not change a variable length integer that has ended.
pub proof fn lemma_varint_is_final(s: Seq<u8>, more: Seq<u8>, i: nat)
    requires
        varint_at(s, i) != Err::<(nat, nat), EncodingError>(EncodingError::InsufficientBytes),
    ensures
        varint_at(s + more, i) == varint_at(s, i),
    decreases s.len(),
{
    if s[0] >= 128 && i < 3 {
        assert((s + more).skip(1) =~= s.skip(1) + more);
        lemma_varint_is_final(s.skip(1), more, i + 1);
    }
}

proof fn lemma_str_is_final(s: Seq<u8>, more: Seq<u8>)
    requires
        str_at(s) != Err::<Seq<u8>, EncodingError>(EncodingError::InsufficientBytes),
    ensures
        str_at(s + more) == str_at(s),
        str_at(s) matches Ok(topic) ==> 2 + topic.len() <= s.len(),
{
    reveal(str_at);
    reveal(slice_at);
    if s.len() >= 2 {
        assert((s + more).subrange(2, 2 + u16_of(s[0], s[1])) =~= s.subrange(
            2,
            2 + u16_of(s[0], s[1]),
        ));
    }
}

/// What the start of a stream shows of the packet there, its length or that it
/// is none, stays so whatever follows. Only if bytes are missing more of them
/// change it.
pub proof fn law_packet_len_is_final(s: Seq<u8>, more: Seq<u8>)
    requires
        packet_len_at(s) != Err::<usize, EncodingError>(EncodingError::InsufficientBytes),
    ensures
        packet_len_at(s + more) == packet_len_at(s),
{
    if s.len() >= 2 {
        let rest = s.skip(1);
        assert((s + more).skip(1) =~= rest + more);
        lemma_varint_at_bounds(rest, 0);
        if PacketType::of_number(s[0] / 16) is Some {
            lemma_varint_is_final(rest, more, 0);
            if let Ok((header, n)) = header_at(s) {
                assert((s + more).skip(n as int) =~= s.skip(n as int) + more);
                if header.typ == PacketType::Publish {
                    lemma_str_is_final(s.skip(n as int), more);
                }
            }
        }
    }
}

/// The length of a packet is told from its start alone, whatever follows it. Of a
/// PUBLISH packet that start goes two bytes beyond the topic, and of any other
/// one it is the fixed header.
pub proof fn law_packet_len_is_told_by_its_start(first: u8, body: Seq<u8>, rest: Seq<u8>, n: int)
    requires
        first >= 16,
        first / 2 % 4 != 3,
        body.len() <= MAX_VARINT,
        0 <= n <= (frame(first, body) + rest).len(),
    ensures
        ({
            let s = (frame(first, body) + rest).take(n);
            let header = 1 + varint_bytes(body.len()).len();
            let topic = str_at(body);
            &&& first / 16 != 3 && header <= n ==> packet_len_at(s) == Ok::<usize, EncodingError>(
                frame(first, body).len() as usize,
            )
            &&& first / 16 == 3 && topic is Ok && header + 2 + topic->Ok_0.len() + 2 <= n
                ==> packet_len_at(s) == Ok::<usize, EncodingError>(
                frame(first, body).len() as usize,
            )
            &&& first / 16 == 3 && topic is Ok && header <= n < header + 2 + topic->Ok_0.len() + 2
                ==> packet_len_at(s) == Err::<usize, EncodingError>(
                EncodingError::InsufficientBytes,
            )
            &&& n < 2 ==> packet_len_at(s) == Err::<usize, EncodingError>(
                EncodingError::InsufficientBytes,
            )
        }),
{
    let s = (frame(first, body) + rest).take(n);
    let header = 1 + varint_bytes(body.len()).len() as int;
    lemma_varint_size(body.len());
    if header <= n {
        let tail = s.skip(header);
        assert(s[0] == first);
        assert(s.skip(1) =~= varint_bytes(body.len()) + tail);
        law_varint_round_trip(body.len(), tail);
        law_fixed_header_is_read(s);
        PacketType::law_number_round_trip(PacketType::Publish, first / 16);
        if str_at(body) is Ok {
            lemma_str_is_final(body, rest);
            reveal(str_at);
            reveal(slice_at);
            let len = 2 + u16_of(body[0], body[1]);
            if n >= header + len {
                assert(tail =~= (body + rest).take(n - header));
                assert(tail.subrange(2, len) =~= body.subrange(2, len));
            } else if n >= header + 2 {
                assert(tail[0] == body[0]);
                assert(tail[1] == body[1]);
            }
        }
    }
}

/// Bytes are asked for one by one until the length of the packet is known. From
/// then on as many are asked for as are missing and fit into the buffer. What
/// has been read is kept, and what is not a packet is discarded.
pub proof fn law_read_buf<'r>(
    reader: &'r mut PacketReader,
    res: Result<&'r mut [u8], ErrorKind>,
)
    requires
        !old(reader)@.runs_over(),
        old(reader)@.read <= READ_BUF_LEN == old(reader)@.buf.len(),
        call_ensures(PacketReader::read_buf, (reader,), res),
    ensures
        ({
            let before = old(reader)@;
            let start = before.buf.subrange(0, before.read as int);
            let len = match before.packet_len {
                Some(len) => Ok(len),
                None => packet_len_at(start),
            };
            &&& res matches Err(e) ==> {
                &&& e == ErrorKind::InvalidData
                &&& before.packet_len is None
                &&& len is Err && len->Err_0 != EncodingError::InsufficientBytes
                &&& final(reader)@.read == 0
                &&& final(reader)@.packet_len is None
            }
            &&& len matches Err(e) ==> (res is Err <==> e != EncodingError::InsufficientBytes)
            &&& len is Ok ==> res is Ok
            &&& res matches Ok(buf) ==> {
                &&& buf@.len() == if len is Err {
                    if before.read < READ_BUF_LEN {
                        1
                    } else {
                        0
                    }
                } else if len->Ok_0 <= READ_BUF_LEN {
                    len->Ok_0 - before.read
                } else {
                    READ_BUF_LEN - before.read
                }
                &&& final(buf)@.len() == buf@.len() ==> {
                    &&& final(reader)@.read == before.read
                    &&& final(reader)@.packet_len == if len is Ok {
                        Some(len->Ok_0)
                    } else {
                        None
                    }
                    &&& final(reader)@.buf.subrange(0, before.read as int) == start
                    &&& final(reader)@.buf.subrange(
                        before.read as int,
                        before.read + buf@.len() as int,
                    ) == final(buf)@
                }
            }
        }),
{
    let before = old(reader)@;
    assert(before.buffered() =~= before.buf.subrange(0, before.read as int));
    if let Ok(buf) = res {
        if final(buf)@.len() == buf@.len() {
            assert(final(reader)@.buf.subrange(0, before.read as int) =~= before.buf.subrange(
                0,
                before.read as int,
            ));
            assert(final(reader)@.buf.subrange(
                before.read as int,
                before.read + buf@.len() as int,
            ) =~= final(buf)@);
        }
    }
}

/// The bytes that were read are counted, and that there are none is an error.
pub proof fn law_received_bytes_are_counted(
    reader: &mut PacketReader,
    received_bytes: usize,
    res: Result<(), ErrorKind>,
)
    requires
        received_bytes <= READ_BUF_LEN - old(reader)@.read,
        call_ensures(PacketReader::received, (reader, received_bytes), res),
    ensures
        res is Ok <==> received_bytes > 0,
        res matches Err(e) ==> e == ErrorKind::NotConnected,
        final(reader)@.read == old(reader)@.read + received_bytes,
        final(reader)@.buf == old(reader)@.buf,
        final(reader)@.packet_len == old(reader)@.packet_len,
{
}

/// Only the bytes of the packet are decoded, even if more have been read, and
/// nothing is before its length is known.
pub proof fn law_the_packet_alone_is_decoded<'r>(
    reader: &'r PacketReader,
    complete: bool,
    res: Result<ReceivedPacket<'r>, StateError>,
)
    requires
        reader@.read <= reader@.buf.len(),
        receivable(reader@.decodable()),
        call_ensures(PacketReader::is_complete, (reader,), complete),
        call_ensures(PacketReader::decode, (reader,), res),
    ensures
        complete <==> reader@.packet_len is Some,
        !complete ==> res is Err,
        res matches Err(e) ==> e == StateError::Deserialization,
        reader@.packet_len matches Some(len) ==> {
            let bytes = reader@.buf.subrange(
                0,
                if len < reader@.read {
                    len as int
                } else {
                    reader@.read as int
                },
            );
            match (res, received(bytes)) {
                (Ok(packet), Ok(view)) => packet@ == view,
                (Err(_), Err(_)) => true,
                _ => false,
            }
        },
{
    if let Some(len) = reader@.packet_len {
        if len < reader@.read {
            assert(reader@.decodable() =~= reader@.buf.subrange(0, len as int));
        } else {
            assert(reader@.decodable() =~= reader@.buf.subrange(0, reader@.read as int));
        }
    }
}

/// A packet whose length is known is discarded before the next one is read, and
/// one that has been read partially is kept.
pub proof fn law_packets_are_read_one_after_the_other(
    reader: &mut PacketReader,
    other: &mut PacketReader,
)
    requires
        call_ensures(PacketReader::begin, (reader,), ()),
        call_ensures(PacketReader::reset, (other,), ()),
    ensures
        old(reader)@.packet_len is Some ==> final(reader)@.read == 0,
        old(reader)@.packet_len is None ==> final(reader)@.read == old(reader)@.read,
        final(reader)@.packet_len is None,
        final(reader)@.buf == old(reader)@.buf,
        final(other)@.read == 0,
        final(other)@.packet_len is None,
        final(other)@.buf == old(other)@.buf,
{
}

/// More has been read than the packet has if and only if its length is known, or
/// can be told from what has been read, and is smaller than that.
pub proof fn law_runs_over(reader: &PacketReader, over: bool)
    requires
        reader@.read <= READ_BUF_LEN,
        call_ensures(PacketReader::runs_over, (reader,), over),
    ensures
        ({
            let len = match reader@.packet_len {
                Some(len) => Ok(len),
                None => packet_len_at(reader@.buf.take(reader@.read as int)),
            };
            over <==> len is Ok && len->Ok_0 < reader@.read
        }),
{
}

/// The length of the packet is known once it can be told from what has been
/// read, and nothing else of the reader changes.
pub proof fn law_length_becomes_known(reader: &mut PacketReader, res: Result<(), EncodingError>)
    requires
        call_ensures(PacketReader::try_parse_header, (reader,), res),
    ensures
        ({
            let len = packet_len_at(old(reader)@.buf.take(old(reader)@.read as int));
            &&& res is Ok <==> len is Ok
            &&& res is Ok ==> final(reader)@.packet_len == Some(len->Ok_0)
            &&& res is Err ==> res->Err_0 == len->Err_0 && final(reader)@ == old(reader)@
            &&& final(reader)@.buf == old(reader)@.buf
            &&& final(reader)@.read == old(reader)@.read
        }),
{
}

} // verus!
