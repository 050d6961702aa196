use vstd::prelude::*;
use vstd::string::StringSliceAdditionalSpecFns;

use super::encoder::{frame, MqttEncode};
use super::error::Error;
use super::packets::PacketType;
use super::properties::Properties;
use super::utils::{qos_of_code, QoS};
use super::wire::{
    law_varint_round_trip, lemma_varint_at_bounds, lemma_varint_size, properties_at, read_slice_at,
    read_varint_at, slice_at, str_at, u16_of, utf8_str, varint_at, varint_bytes, varint_size,
    MAX_VARINT,
};

verus! {

/// Represents the fixed header of an MQTT packet.
#[derive(Debug, Clone, Copy, PartialEq, Eq, Structural)]
pub struct FixedHeader {
    /// The type of the MQTT packet.
    pub typ: PacketType,
    /// Whether the packet is a duplicate.
    pub dup: bool,
    /// The quality of service (QoS) of the packet.
    pub qos: QoS,
    /// Whether the packet is retained.
    pub retain: bool,
    /// The remaining length of the packet.
    pub remaining_len: usize,
}

/// What reading a fixed header at the start of `s` gives: the header and the
/// number of bytes it takes.
pub open spec fn header_at(s: Seq<u8>) -> Result<(FixedHeader, nat), Error> {
    if s.len() < 2 {
        Err(Error::InsufficientBytes)
    } else {
        match PacketType::of_number(s[0] / 16) {
            None => Err(Error::InvalidHeader),
            Some(typ) => match varint_at(s.skip(1), 0) {
                Err(e) => Err(e),
                Ok((remaining_len, n)) => match qos_of_code(s[0] / 2 % 4) {
                    Err(_) => Err(Error::WrongQos((s[0] / 2 % 4 * 2) as u8)),
                    Ok(qos) => Ok(
                        (
                            FixedHeader {
                                typ,
                                dup: s[0] / 8 % 2 == 1,
                                qos,
                                retain: s[0] % 2 == 1,
                                remaining_len: remaining_len as usize,
                            },
                            n + 1,
                        ),
                    ),
                },
            },
        }
    }
}

/// A struct that implements the MQTT decoder.
pub struct MqttDecoder<'a> {
    /// The buffer containing the MQTT packet.
    buf: &'a [u8],
    /// The current offset in the buffer.
    offset: usize,
    /// The length of the fixed header.
    header_len: usize,
    /// The fixed header of the packet.
    fixed_header: FixedHeader,
}

/// Whether a decoder of the same packet has moved on by `n` bytes.
pub open spec fn advanced(before: MqttDecoder<'_>, after: MqttDecoder<'_>, n: nat) -> bool {
    &&& after.same_packet(before)
    &&& after.pos() == before.pos() + n
    &&& n <= before.rest().len()
    &&& after.rest() == before.rest().skip(n as int)
}

impl<'a> MqttDecoder<'a> {
    #[verifier::type_invariant]
    spec fn inv(&self) -> bool {
        &&& self.offset <= self.buf@.len()
        &&& self.header_len <= 5
        &&& self.fixed_header.remaining_len <= MAX_VARINT
    }

    /// The bytes that are decoded.
    pub closed spec fn data(&self) -> Seq<u8> {
        self.buf@
    }

    /// How many bytes have been read.
    pub closed spec fn pos(&self) -> nat {
        self.offset as nat
    }

    /// The fixed header of the packet.
    pub closed spec fn header(&self) -> FixedHeader {
        self.fixed_header
    }

    /// The length of the packet, its fixed header included.
    pub closed spec fn total(&self) -> nat {
        (self.header_len + self.fixed_header.remaining_len) as nat
    }

    /// The bytes that have not been read yet.
    pub open spec fn rest(&self) -> Seq<u8> {
        self.data().skip(self.pos() as int)
    }

    /// The length of the part of the packet that has not been read yet.
    pub open spec fn left(&self) -> int {
        self.total() - self.pos()
    }

    pub open spec fn same_packet(&self, other: Self) -> bool {
        &&& self.data() == other.data()
        &&& self.header() == other.header()
        &&& self.total() == other.total()
    }

    /// Tries to create a new `MqttDecoder` from the given buffer.
    pub fn try_new(buf: &'a [u8]) -> (res: Result<Self, Error>)
        ensures
            match (res, header_at(buf@)) {
                (Ok(decoder), Ok((header, n))) => {
                    &&& decoder.data() == buf@
                    &&& decoder.header() == header
                    &&& decoder.pos() == n
                    &&& decoder.total() == n + header.remaining_len
                },
                (Err(e), Err(f)) => e == f,
                _ => false,
            },
    {
        if buf.len() < 2 {
            return Err(Error::InsufficientBytes);
        }
        let hd: u8 = buf[0];
        proof {
            lemma_varint_at_bounds(buf@.skip(1), 0);
        }
        let typ: PacketType = match PacketType::try_from(hd / 16 * 16) {
            Ok(typ) => typ,
            Err(_) => {
                return Err(Error::InvalidHeader);
            },
        };
        let (remaining_len, len_size): (usize, usize) = match read_varint_at(buf, 1) {
            Ok(len) => len,
            Err(e) => {
                return Err(e);
            },
        };
        let qos: QoS = match QoS::try_from(hd / 2 % 4) {
            Ok(qos) => qos,
            Err(_) => {
                return Err(Error::WrongQos(hd / 2 % 4 * 2));
            },
        };
        let fixed_header = FixedHeader {
            typ,
            dup: hd / 8 % 2 == 1,
            qos,
            retain: hd % 2 == 1,
            remaining_len,
        };
        Ok(MqttDecoder { buf, header_len: len_size + 1, offset: len_size + 1, fixed_header })
    }

    /// Returns the fixed header of the packet.
    pub fn fixed_header(&self) -> (header: FixedHeader)
        ensures
            header == self.header(),
            header.remaining_len <= MAX_VARINT,
    {
        proof {
            use_type_invariant(self);
        }
        self.fixed_header
    }

    /// Returns the current offset in the buffer.
    pub fn offset(&self) -> (offset: usize)
        ensures
            offset == self.pos(),
            offset <= self.data().len(),
    {
        proof {
            use_type_invariant(self);
        }
        self.offset
    }

    /// Returns the total length of the packet.
    pub fn packet_len(&self) -> (len: usize)
        ensures
            len == self.total(),
    {
        proof {
            use_type_invariant(self);
        }
        self.header_len + self.fixed_header.remaining_len
    }

    /// Checks if there is enough data remaining in the buffer to read the specified number of bytes.
    pub fn check_remaining(&self, len: usize) -> (res: Result<(), Error>)
        ensures
            res == if self.rest().len() < len {
                Err::<(), Error>(Error::InsufficientBytes)
            } else {
                Ok(())
            },
    {
        proof {
            use_type_invariant(self);
        }
        if self.buf.len() - self.offset < len {
            return Err(Error::InsufficientBytes);
        }
        Ok(())
    }

    /// Reads a variable length integer from the buffer.
    pub(crate) fn read_varint(&mut self) -> (res: Result<u32, Error>)
        ensures
            match (res, varint_at(old(self).rest(), 0)) {
                (Ok(v), Ok((w, n))) => v == w && v <= MAX_VARINT && advanced(
                    *old(self),
                    *final(self),
                    n,
                ),
                (Err(e), Err(f)) => e == f && *final(self) == *old(self),
                _ => false,
            },
    {
        proof {
            use_type_invariant(&*self);
            lemma_varint_at_bounds(self.rest(), 0);
        }
        match read_varint_at(self.buf, self.offset) {
            Ok((v, n)) => {
                self.offset = self.offset + n;
                assert(self.rest() =~= old(self).rest().skip(n as int));
                Ok(v as u32)
            },
            Err(e) => Err(e),
        }
    }

    /// Reads a byte slice from the buffer.
    pub(crate) fn read_slice(&mut self) -> (res: Result<&'a [u8], Error>)
        ensures
            match (res, slice_at(old(self).rest())) {
                (Ok(bytes), Ok(view)) => bytes@ == view && advanced(
                    *old(self),
                    *final(self),
                    2 + view.len(),
                ),
                (Err(e), Err(f)) => e == f && advanced(
                    *old(self),
                    *final(self),
                    if old(self).rest().len() < 2 {
                        0
                    } else {
                        2
                    },
                ),
                _ => false,
            },
    {
        proof {
            use_type_invariant(&*self);
        }
        match read_slice_at(self.buf, self.offset) {
            Ok(bytes) => {
                self.offset = self.offset + 2 + bytes.len();
                assert(self.rest() =~= old(self).rest().skip(2 + bytes@.len() as int));
                Ok(bytes)
            },
            Err(e) => {
                if self.buf.len() - self.offset >= 2 {
                    self.offset = self.offset + 2;
                    assert(self.rest() =~= old(self).rest().skip(2));
                } else {
                    assert(self.rest() =~= old(self).rest().skip(0));
                }
                Err(e)
            },
        }
    }

    /// Reads a string from the buffer.
    pub(crate) fn read_str(&mut self) -> (res: Result<&'a str, Error>)
        ensures
            match (res, str_at(old(self).rest())) {
                (Ok(s), Ok(view)) => s.spec_bytes() == view && advanced(
                    *old(self),
                    *final(self),
                    2 + view.len(),
                ),
                (Err(e), Err(f)) => e == f && final(self).same_packet(*old(self)) && final(
                    self).pos() >= old(self).pos(),
                _ => false,
            },
    {
        proof {
            reveal(str_at);
        }
        match self.read_slice() {
            Err(e) => Err(e),
            Ok(bytes) => match utf8_str(bytes) {
                Some(s) => Ok(s),
                None => Err(Error::InvalidString),
            },
        }
    }

    /// Reads a single byte from the buffer.
    pub(crate) fn read_u8(&mut self) -> (res: Result<u8, Error>)
        ensures
            if old(self).rest().len() < 1 {
                res == Err::<u8, Error>(Error::InsufficientBytes) && *final(self) == *old(self)
            } else {
                res == Ok::<u8, Error>(old(self).rest()[0]) && advanced(*old(self), *final(self), 1)
            },
    {
        proof {
            use_type_invariant(&*self);
        }
        self.check_remaining(1)?;
        let v: u8 = self.buf[self.offset];
        self.offset = self.offset + 1;
        assert(self.rest() =~= old(self).rest().skip(1));
        Ok(v)
    }

    /// Reads a 16-bit unsigned integer from the buffer.
    pub(crate) fn read_u16(&mut self) -> (res: Result<u16, Error>)
        ensures
            if old(self).rest().len() < 2 {
                res == Err::<u16, Error>(Error::InsufficientBytes) && *final(self) == *old(self)
            } else {
                res == Ok::<u16, Error>(u16_of(old(self).rest()[0], old(self).rest()[1]))
                    && advanced(*old(self), *final(self), 2)
            },
    {
        proof {
            use_type_invariant(&*self);
        }
        self.check_remaining(2)?;
        let v: u16 = self.buf[self.offset] as u16 * 256 + self.buf[self.offset + 1] as u16;
        self.offset = self.offset + 2;
        assert(self.rest() =~= old(self).rest().skip(2));
        Ok(v)
    }

    /// Reads the payload of the packet from the buffer.
    pub(crate) fn read_payload(&mut self) -> (res: Result<&'a [u8], Error>)
        ensures
            match (res, payload_at(old(self).rest(), old(self).left())) {
                (Ok(bytes), Ok(view)) => bytes@ == view && advanced(
                    *old(self),
                    *final(self),
                    view.len(),
                ),
                (Err(e), Err(f)) => e == f && *final(self) == *old(self),
                _ => false,
            },
    {
        proof {
            use_type_invariant(&*self);
        }
        let total: usize = self.packet_len();
        if total < self.offset {
            return Err(Error::InsufficientBytes);
        }
        let len: usize = total - self.offset;
        self.check_remaining(len)?;
        let v: &'a [u8] = &self.buf[self.offset..self.offset + len];
        self.offset = self.offset + len;
        assert(v@ =~= old(self).rest().take(len as int));
        assert(self.rest() =~= old(self).rest().skip(len as int));
        Ok(v)
    }

    /// Reads MQTTv5 properties from the buffer.
    pub(crate) fn read_properties(&mut self) -> (res: Result<Properties<'a>, Error>)
        ensures
            match (res, properties_at(old(self).rest())) {
                (Ok(properties), Ok((block, n))) => {
                    &&& properties is DataBlock
                    &&& properties.block() == block
                    &&& advanced(*old(self), *final(self), n)
                },
                (Err(e), Err(f)) => e == f && final(self).same_packet(*old(self)) && final(
                    self).pos() >= old(self).pos(),
                _ => false,
            },
    {
        proof {
            use_type_invariant(&*self);
        }
        let len: usize = self.read_varint()? as usize;
        proof {
            use_type_invariant(&*self);
        }
        self.check_remaining(len)?;
        let end: usize = self.buf.len() - (self.buf.len() - self.offset - len);
        let v: &'a [u8] = &self.buf[self.offset..end];
        self.offset = end;
        proof {
            let n = varint_at(old(self).rest(), 0)->Ok_0.1;
            assert(v@ =~= old(self).rest().subrange(n as int, (n + len) as int));
            assert(self.rest() =~= old(self).rest().skip((n + len) as int));
        }
        Ok(Properties::DataBlock(v))
    }
}

/// What reading the last `left` bytes of a packet at the start of `s` gives.
pub open spec fn payload_at(s: Seq<u8>, left: int) -> Result<Seq<u8>, Error> {
    if left < 0 || s.len() < left {
        Err(Error::InsufficientBytes)
    } else {
        Ok(s.take(left))
    }
}

/// A trait for decoding MQTT packets from a buffer.
pub trait MqttDecode<'a>: Sized + View {
    /// What decoding a packet with this fixed header gives, if the buffer goes
    /// on with `rest` and the packet with the first `left` bytes of that.
    spec fn parsed(header: FixedHeader, rest: Seq<u8>, left: int) -> Result<Self::V, Error>;

    /// Whether what the packet holds is within the limits of the library.
    spec fn within_limits(rest: Seq<u8>, left: int) -> bool;

    /// Decodes the packet from a given decoder.
    fn from_decoder(decoder: &mut MqttDecoder<'a>) -> (res: Result<Self, Error>)
        requires
            Self::within_limits(old(decoder).rest(), old(decoder).left()),
        ensures
            final(decoder).same_packet(*old(decoder)),
            final(decoder).pos() >= old(decoder).pos(),
            match (res, Self::parsed(old(decoder).header(), old(decoder).rest(), old(decoder).left())) {
                (Ok(packet), Ok(view)) => packet@ == view,
                (Err(e), Err(f)) => e == f,
                _ => false,
            },
    ;
}

/// Whether reading the packet that starts `wire` finds this packet type and
/// gives this packet.
pub open spec fn reads_back<'a, P: MqttDecode<'a>>(
    typ: PacketType,
    wire: Seq<u8>,
    packet: P::V,
) -> bool {
    match header_at(wire) {
        Ok((header, n)) => {
            &&& header.typ == typ
            &&& P::parsed(header, wire.skip(n as int), header.remaining_len as int) == Ok::<
                P::V,
                Error,
            >(packet)
        },
        Err(_) => false,
    }
}

pub(crate) proof fn lemma_first_byte(typ: u8, flags: u8)
    requires
        typ % 16 == 0,
        flags < 16,
    ensures
        (typ | flags) == typ + flags,
        (typ | flags) / 16 == typ / 16,
        (typ | flags) % 16 == flags,
{
    assert((typ | flags) == typ + flags) by (bit_vector)
        requires
            typ % 16 == 0,
            flags < 16,
    ;
}

/// Reading the fixed header of a packet gives back the packet type, the flags
/// and the length that were written, and the body follows it.
pub proof fn law_header_round_trip(typ: PacketType, flags: u8, body: Seq<u8>, rest: Seq<u8>)
    requires
        flags < 16,
        flags / 2 % 4 != 3,
        body.len() <= MAX_VARINT,
    ensures
        header_at(frame(typ.byte() | flags, body) + rest) == Ok::<(FixedHeader, nat), Error>(
            (
                FixedHeader {
                    typ,
                    dup: flags / 8 == 1,
                    qos: qos_of_code(flags / 2 % 4)->Ok_0,
                    retain: flags % 2 == 1,
                    remaining_len: body.len() as usize,
                },
                1 + varint_size(body.len()),
            ),
        ),
        (frame(typ.byte() | flags, body) + rest).skip(1 + varint_size(body.len()) as int) == body
            + rest,
        frame(typ.byte() | flags, body).len() == 1 + varint_size(body.len()) + body.len(),
{
    let first = typ.byte() | flags;
    let s = frame(first, body) + rest;
    lemma_first_byte(typ.byte(), flags);
    PacketType::law_number_round_trip(typ, 0);
    lemma_varint_size(body.len());
    law_varint_round_trip(body.len(), body + rest);
    assert(s.skip(1) =~= varint_bytes(body.len()) + (body + rest));
    assert(s[0] == first);
    assert(s.skip(1 + varint_size(body.len()) as int) =~= body + rest);
}

/// The length that the decoder finds for a packet is the length of what the
/// packet was encoded to, whatever follows it in the buffer. The decoder
/// refuses the packet only for a first byte that names no packet type or no
/// quality of service.
pub proof fn law_packet_len<P: MqttEncode>(packet: P, body: Seq<u8>, rest: Seq<u8>)
    requires
        body.len() <= MAX_VARINT,
    ensures
        ({
            let first = packet.type_bits() | packet.flag_bits();
            let wire = frame(first, body);
            match header_at(wire + rest) {
                Ok((header, n)) => {
                    &&& n + header.remaining_len == wire.len()
                    &&& header.remaining_len == body.len()
                    &&& (wire + rest).skip(n as int) == body + rest
                },
                Err(_) => PacketType::of_number(first / 16) is None || first / 2 % 4 == 3,
            }
        }),
{
    let first = packet.type_bits() | packet.flag_bits();
    let s = frame(first, body) + rest;
    lemma_varint_size(body.len());
    law_varint_round_trip(body.len(), body + rest);
    assert(s.skip(1) =~= varint_bytes(body.len()) + (body + rest));
    assert(s[0] == first);
    assert(s.skip(1 + varint_size(body.len()) as int) =~= body + rest);
}

/// A decoder starts behind the fixed header of the packet, whose length it knows,
/// and tells whether that many bytes are left.
pub proof fn law_new_decoder<'a>(
    buf: &'a [u8],
    res: Result<MqttDecoder<'a>, Error>,
    header: FixedHeader,
    offset: usize,
    len: usize,
    needed: usize,
    enough: Result<(), Error>,
)
    requires
        call_ensures(MqttDecoder::<'a>::try_new, (buf,), res),
        res is Ok ==> {
            &&& call_ensures(MqttDecoder::<'a>::fixed_header, (&res->Ok_0,), header)
            &&& call_ensures(MqttDecoder::<'a>::offset, (&res->Ok_0,), offset)
            &&& call_ensures(MqttDecoder::<'a>::packet_len, (&res->Ok_0,), len)
            &&& call_ensures(MqttDecoder::<'a>::check_remaining, (&res->Ok_0, needed), enough)
        },
    ensures
        res is Ok <==> {
            &&& buf@.len() >= 2
            &&& buf@[0] >= 16
            &&& varint_at(buf@.skip(1), 0) is Ok
            &&& buf@[0] / 2 % 4 != 3
        },
        res is Ok ==> {
            let (left, n) = varint_at(buf@.skip(1), 0)->Ok_0;
            &&& header.typ.number() == buf@[0] / 16
            &&& header.dup <==> buf@[0] / 8 % 2 == 1
            &&& header.retain <==> buf@[0] % 2 == 1
            &&& header.remaining_len == left
            &&& offset == 1 + n
            &&& len == 1 + n + left
            &&& enough is Ok <==> needed <= buf@.len() - 1 - n
            &&& enough matches Err(e) ==> e == Error::InsufficientBytes
        },
{
    if buf@.len() >= 2 {
        lemma_varint_at_bounds(buf@.skip(1), 0);
        PacketType::law_number_round_trip(PacketType::Connect, buf@[0] / 16);
    }
}

} // verus!
