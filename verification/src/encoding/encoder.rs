use vstd::prelude::*;
use vstd::string::StringSliceAdditionalSpecFns;

use super::error::Error;
use super::packets::ToPayload;
use super::properties::{list_bytes, list_pieces, Properties, Property, PropertyValue};
use super::utils::{Pid, QoS};
use super::wire::{
    concat, lemma_concat_split, lemma_varint_size, properties_bytes, slice_bytes, u16_bytes,
    u32_bytes, varint_bytes, varint_groups, varint_len, MAX_VARINT,
};
use super::FixedHeader;

verus! {

/// Maximum length of the MQTT header in bytes.
pub const MAX_MQTT_HEADER_LEN: usize = 5;

/// A struct that implements the MQTT encoder.
///
/// Until the fixed header is known, its place is kept free at the start of the
/// buffer and the rest of the packet, its body, is written behind it.
pub struct MqttEncoder<'a> {
    /// The buffer where the encoded packet will be written.
    buf: &'a mut [u8],
    /// The current offset in the buffer.
    offset: usize,
    /// The starting position of the header in the buffer.
    header_start: usize,
}

/// A whole packet: the first byte of the fixed header, the length of the body,
/// and the body.
pub open spec fn frame(first: u8, body: Seq<u8>) -> Seq<u8> {
    seq![first] + varint_bytes(body.len()) + body
}

/// Whether writing `bytes` at once takes an encoder from one state to another
/// and has this result: everything is written if it fits, and if not, nothing
/// changes.
pub open spec fn writes(
    before: MqttEncoder<'_>,
    after: MqttEncoder<'_>,
    bytes: Seq<u8>,
    res: Result<(), Error>,
) -> bool {
    &&& after.wf()
    &&& after.capacity() == before.capacity()
    &&& after.headless() == before.headless()
    &&& if bytes.len() <= before.room() {
        &&& res == Ok::<(), Error>(())
        &&& after.written() == before.written() + bytes
    } else {
        &&& res == Err::<(), Error>(Error::BufferSize)
        &&& after.written() == before.written()
        &&& after.buffer() == before.buffer()
    }
}

/// Whether writing `bytes` piece by piece may take an encoder from one state to
/// another and have this result: everything is written if it fits, and if not,
/// as many of the pieces as do, behind what was written before.
pub open spec fn appends(
    before: MqttEncoder<'_>,
    after: MqttEncoder<'_>,
    bytes: Seq<u8>,
    res: Result<(), Error>,
) -> bool {
    &&& after.wf()
    &&& after.capacity() == before.capacity()
    &&& after.headless() == before.headless()
    &&& if bytes.len() <= before.room() {
        &&& res == Ok::<(), Error>(())
        &&& after.written() == before.written() + bytes
    } else {
        &&& res == Err::<(), Error>(Error::BufferSize)
        &&& before.written().is_prefix_of(after.written())
        &&& after.written().is_prefix_of(before.written() + bytes)
    }
}

/// What has been written between two states of an encoder.
pub open spec fn payload_part(before: MqttEncoder<'_>, after: MqttEncoder<'_>) -> Seq<u8> {
    after.written().skip(before.written().len() as int)
}

impl<'a> MqttEncoder<'a> {
    /// Whether the positions in the buffer are in order. Every encoder that has
    /// been made is well-formed and stays so.
    pub closed spec fn wf(&self) -> bool {
        &&& self.header_start == MAX_MQTT_HEADER_LEN || self.header_start == 0
        &&& self.header_start <= self.offset
        &&& self.offset <= self.buf@.len() || self.offset == self.header_start
    }

    /// The length of the buffer.
    pub open spec fn capacity(&self) -> nat {
        self.buffer().len()
    }

    /// The buffer that the encoder writes to. Its final contents are those
    /// that the encoder leaves behind.
    pub closed spec fn target(&self) -> &'a mut [u8] {
        self.buf
    }

    /// What the buffer holds.
    pub open spec fn buffer(&self) -> Seq<u8> {
        (*self.target())@
    }

    /// Whether the fixed header has not been written yet.
    pub closed spec fn headless(&self) -> bool {
        self.header_start == MAX_MQTT_HEADER_LEN
    }

    /// The bytes written so far: the body as long as the fixed header has not
    /// been written, and the whole packet after that.
    pub closed spec fn written(&self) -> Seq<u8> {
        if self.offset <= self.buf@.len() {
            self.buf@.subrange(self.header_start as int, self.offset as int)
        } else {
            Seq::empty()
        }
    }

    /// The number of bytes that can still be written.
    pub open spec fn room(&self) -> nat {
        let used = self.written().len() + if self.headless() {
            MAX_MQTT_HEADER_LEN as nat
        } else {
            0
        };
        if used <= self.capacity() {
            (self.capacity() - used) as nat
        } else {
            0
        }
    }

    /// Creates a new `MqttEncoder` with the given buffer.
    pub fn new(buf: &'a mut [u8]) -> (encoder: Self)
        ensures
            encoder.wf(),
            encoder.capacity() == old(buf)@.len(),
            encoder.buffer() == old(buf)@,
            (*final(encoder.target()))@ == final(buf)@,
            encoder.headless(),
            encoder.written() == Seq::<u8>::empty(),
    {
        let encoder = MqttEncoder {
            buf,
            offset: MAX_MQTT_HEADER_LEN,
            header_start: MAX_MQTT_HEADER_LEN,
        };
        assert(encoder.written() =~= Seq::<u8>::empty());
        encoder
    }

    /// Returns a slice of the buffer containing the encoded packet.
    pub fn packet_bytes(&self) -> (bytes: &[u8])
        requires
            self.wf(),
            self.headless() ==> self.capacity() >= MAX_MQTT_HEADER_LEN,
        ensures
            bytes@ == self.written(),
    {
        &self.buf[self.header_start..self.offset]
    }

    /// Consumes the encoder, returning the encoded packet as a slice of the
    /// original buffer with the buffer's lifetime.
    pub fn into_packet_bytes(self) -> (bytes: &'a [u8])
        requires
            self.wf(),
            self.headless() ==> self.capacity() >= MAX_MQTT_HEADER_LEN,
        ensures
            bytes@ == self.written(),
            (*final(self.target()))@ == self.buffer(),
    {
        let start: usize = self.header_start;
        let end: usize = self.offset;
        &self.buf[start..end]
    }

    /// Once an encoder is not used any more, its buffer stays as it is.
    pub proof fn law_buffer_is_left_behind(encoder: MqttEncoder<'a>)
        requires
            has_resolved(encoder),
        ensures
            (*final(encoder.target()))@ == encoder.buffer(),
    {
    }

    /// Returns the number of bytes used in the buffer.
    pub fn used_size(&self) -> (n: usize)
        requires
            self.wf(),
        ensures
            n == self.written().len() + if self.headless() {
                MAX_MQTT_HEADER_LEN as nat
            } else {
                0
            },
            self.capacity() >= MAX_MQTT_HEADER_LEN ==> n <= self.capacity(),
    {
        self.offset
    }

    /// Checks if there is enough space in the buffer to write the specified number of bytes.
    pub(crate) fn check_remaining(&self, len: usize) -> (res: Result<(), Error>)
        requires
            self.wf(),
        ensures
            res == if len <= self.room() {
                Ok::<(), Error>(())
            } else {
                Err(Error::BufferSize)
            },
    {
        let remaining: usize = if self.offset <= self.buf.len() {
            self.buf.len() - self.offset
        } else {
            0
        };
        if remaining < len {
            Err(Error::BufferSize)
        } else {
            Ok(())
        }
    }

    /// Encodes a single byte into the buffer.
    pub(crate) fn write_u8(&mut self, v: u8) -> (res: Result<(), Error>)
        requires
            old(self).wf(),
        ensures
            writes(*old(self), *final(self), seq![v], res),
            (*final(final(self).target()))@ == (*final(old(self).target()))@,
    {
        self.check_remaining(1)?;
        let at: usize = self.offset;
        self.buf[at] = v;
        self.offset = at + 1;
        assert(self.written() =~= old(self).written() + seq![v]);
        Ok(())
    }

    /// Encodes a 16-bit unsigned integer into the buffer.
    pub(crate) fn write_u16(&mut self, v: u16) -> (res: Result<(), Error>)
        requires
            old(self).wf(),
        ensures
            writes(*old(self), *final(self), u16_bytes(v), res),
            (*final(final(self).target()))@ == (*final(old(self).target()))@,
    {
        self.check_remaining(2)?;
        self.write_u8((v / 256) as u8)?;
        self.write_u8((v % 256) as u8)?;
        assert(self.written() =~= old(self).written() + u16_bytes(v));
        Ok(())
    }

    /// Encodes a 32-bit unsigned integer into the buffer.
    pub(crate) fn write_u32(&mut self, v: u32) -> (res: Result<(), Error>)
        requires
            old(self).wf(),
        ensures
            writes(*old(self), *final(self), u32_bytes(v), res),
            (*final(final(self).target()))@ == (*final(old(self).target()))@,
    {
        self.check_remaining(4)?;
        self.write_u8((v / 0x1000000) as u8)?;
        self.write_u8((v / 0x10000 % 256) as u8)?;
        self.write_u8((v / 0x100 % 256) as u8)?;
        self.write_u8((v % 256) as u8)?;
        assert(self.written() =~= old(self).written() + u32_bytes(v));
        Ok(())
    }

    /// Encodes a variable length integer.
    pub(crate) fn write_varint(&mut self, len: u32) -> (res: Result<(), Error>)
        requires
            old(self).wf(),
        ensures
            appends(*old(self), *final(self), varint_bytes(len as nat), res),
            (*final(final(self).target()))@ == (*final(old(self).target()))@,
    {
        let ghost before = *self;
        let ghost whole = varint_bytes(len as nat);
        let mut left: u32 = len;
        let mut i: usize = 0;
        let ghost mut done = Seq::<u8>::empty();
        assert(whole =~= done + varint_groups(left as nat, 4));
        assert(before.written() =~= before.written() + done);
        while i < 4
            invariant_except_break
                i < 4 ==> whole == done + varint_groups(left as nat, (4 - i) as nat),
                i == 4 ==> whole == done,
            invariant
                i <= 4,
                before == *old(self),
                self.wf(),
                self.capacity() == before.capacity(),
                self.headless() == before.headless(),
                (*final(self.target()))@ == (*final(before.target()))@,
                done.len() <= before.room(),
                self.written() == before.written() + done,
                whole == varint_bytes(len as nat),
            ensures
                whole == done,
            decreases 4 - i,
        {
            let more: bool = left >= 128;
            let byte: u8 = if more {
                (128 + left % 128) as u8
            } else {
                left as u8
            };
            let ghost groups = varint_groups(left as nat, (4 - i) as nat);
            assert(groups[0] == byte);
            assert(whole.len() == done.len() + groups.len());
            let ghost mid = *self;
            match self.write_u8(byte) {
                Ok(_) => {},
                Err(e) => {
                    assert(before.written().is_prefix_of(self.written()));
                    return Err(e);
                },
            }
            proof {
                if more {
                    assert(whole =~= done.push(byte) + varint_groups(
                        (left / 128) as nat,
                        (3 - i) as nat,
                    ));
                } else {
                    assert(whole =~= done.push(byte));
                }
                assert(mid.written() + seq![byte] =~= before.written() + done.push(byte));
                done = done.push(byte);
            }
            if !more {
                break;
            }
            left = left / 128;
            i = i + 1;
        }
        Ok(())
    }

    /// Writes bytes as they are.
    pub(crate) fn write_raw(&mut self, v: &[u8]) -> (res: Result<(), Error>)
        requires
            old(self).wf(),
        ensures
            writes(*old(self), *final(self), v@, res),
            (*final(final(self).target()))@ == (*final(old(self).target()))@,
    {
        self.check_remaining(v.len())?;
        let start: usize = self.offset;
        let total: usize = self.buf.len();
        let mut i: usize = 0;
        let ghost before = *self;
        if v.len() == 0 {
            assert(before.written() =~= before.written() + v@);
            return Ok(());
        }
        while i < v.len()
            invariant
                i <= v@.len(),
                start + v@.len() <= total,
                self.buf@.len() == total,
                before.buf@.len() == total,
                self.offset == before.offset,
                self.offset == start,
                self.header_start == before.header_start,
                (*final(self.target()))@ == (*final(before.target()))@,
                forall|k: int| 0 <= k < start ==> self.buf@[k] == before.buf@[k],
                forall|k: int| 0 <= k < i ==> self.buf@[start + k] == v@[k],
                before.wf(),
            decreases v@.len() - i,
        {
            self.buf[start + i] = v[i];
            i = i + 1;
        }
        self.offset = start + i;
        assert(self.written() =~= before.written() + v@);
        Ok(())
    }

    /// Encodes a byte slice into the buffer.
    pub(crate) fn write_slice(&mut self, v: &[u8]) -> (res: Result<(), Error>)
        requires
            old(self).wf(),
        ensures
            writes(*old(self), *final(self), slice_bytes(v@), res),
            (*final(final(self).target()))@ == (*final(old(self).target()))@,
    {
        match v.len().checked_add(2) {
            Some(len) => self.check_remaining(len)?,
            None => {
                assert(slice_bytes(v@).len() > self.buf.len());
                return Err(Error::BufferSize);
            },
        }

        // Write a u16 length first as big-endian
        self.write_u16((v.len() % 0x10000) as u16)?;

        // Write the payload slice
        self.write_raw(v)?;
        assert(self.written() =~= old(self).written() + slice_bytes(v@));
        Ok(())
    }

    /// Encodes a string into the buffer.
    pub(crate) fn write_str(&mut self, v: &str) -> (res: Result<(), Error>)
        requires
            old(self).wf(),
        ensures
            writes(*old(self), *final(self), slice_bytes(v.spec_bytes()), res),
            (*final(final(self).target()))@ == (*final(old(self).target()))@,
    {
        self.write_slice(v.as_bytes())
    }

    /// Encodes a single MQTTv5 property into the buffer.
    pub(crate) fn write_property(&mut self, v: &Property<'_>) -> (res: Result<(), Error>)
        requires
            old(self).wf(),
        ensures
            appends(*old(self), *final(self), v@.bytes(), res),
            (*final(final(self).target()))@ == (*final(old(self).target()))@,
    {
        let (identifier, value) = v.parts();
        self.write_u8(identifier.as_code())?;
        self.write_value(value)?;
        assert(self.written() =~= old(self).written() + v@.bytes());
        Ok(())
    }

    /// Encodes the value of a property into the buffer.
    fn write_value(&mut self, v: PropertyValue<'_>) -> (res: Result<(), Error>)
        requires
            old(self).wf(),
        ensures
            appends(*old(self), *final(self), v@.bytes(), res),
            (*final(final(self).target()))@ == (*final(old(self).target()))@,
    {
        match v {
            PropertyValue::Byte(v) => self.write_u8(v),
            PropertyValue::TwoByteInteger(v) => self.write_u16(v),
            PropertyValue::FourByteInteger(v) => self.write_u32(v),
            PropertyValue::VariableByteInteger(v) => self.write_varint(v),
            PropertyValue::Utf8String(v) => self.write_str(v),
            PropertyValue::BinaryData(v) => self.write_slice(v),
            PropertyValue::Utf8StringPair(k, v) => {
                self.write_str(k)?;
                self.write_str(v)?;
                assert(self.written() =~= old(self).written() + (slice_bytes(k.spec_bytes())
                    + slice_bytes(v.spec_bytes())));
                Ok(())
            },
        }
    }

    /// Encodes a list of MQTTv5 properties into the buffer.
    fn write_property_list(&mut self, properties: &[Property<'_>]) -> (res: Result<(), Error>)
        requires
            old(self).wf(),
        ensures
            appends(*old(self), *final(self), list_bytes(properties@), res),
            (*final(final(self).target()))@ == (*final(old(self).target()))@,
    {
        let ghost before = *self;
        let ghost pieces = list_pieces(properties@);
        proof {
            lemma_concat_split(pieces, 0);
        }
        assert(before.written() =~= before.written() + concat(pieces.take(0)));
        let mut i: usize = 0;
        while i < properties.len()
            invariant
                i <= properties@.len(),
                before == *old(self),
                self.wf(),
                pieces == list_pieces(properties@),
                self.capacity() == before.capacity(),
                self.headless() == before.headless(),
                (*final(self.target()))@ == (*final(before.target()))@,
                concat(pieces.take(i as int)).len() <= before.room(),
                self.written() == before.written() + concat(pieces.take(i as int)),
            decreases properties@.len() - i,
        {
            proof {
                lemma_concat_split(pieces, i as int);
            }
            match self.write_property(&properties[i]) {
                Ok(_) => {},
                Err(e) => {
                    return Err(e);
                },
            }
            assert(self.written() =~= before.written() + concat(pieces.take(i + 1)));
            i = i + 1;
        }
        proof {
            lemma_concat_split(pieces, i as int);
        }
        Ok(())
    }

    /// Encodes MQTTv5 properties into the buffer.
    pub(crate) fn write_properties(&mut self, v: &Properties<'_>) -> (res: Result<(), Error>)
        requires
            old(self).wf(),
            v.valid(),
        ensures
            appends(*old(self), *final(self), properties_bytes(v.block()), res),
            (*final(final(self).target()))@ == (*final(old(self).target()))@,
    {
        self.write_varint(v.size() as u32)?;
        let ghost mid = *self;
        assert(mid.written() + v.block() =~= old(self).written() + properties_bytes(v.block()));
        match v {
            Properties::Slice(properties) => self.write_property_list(properties)?,
            Properties::DataBlock(data) => self.write_raw(data)?,
            Properties::CorrelatedSlice { correlation, properties } => {
                self.write_property(correlation)?;
                self.write_property_list(properties)?;
                assert(self.written() =~= mid.written() + v.block());
            },
        }
        Ok(())
    }

    /// Encodes a payload into the buffer.
    pub(crate) fn write_payload<P: ToPayload>(&mut self, payload: &P) -> (res: Result<(), Error>)
        requires
            old(self).wf(),
            payload.ready(),
        ensures
            final(self).wf(),
            final(self).capacity() == old(self).capacity(),
            final(self).headless() == old(self).headless(),
            (*final(final(self).target()))@ == (*final(old(self).target()))@,
            match res {
                Ok(_) => {
                    &&& final(self).written().len() >= old(self).written().len()
                    &&& final(self).written().len() - old(self).written().len() <= old(self).room()
                    &&& final(self).written() == old(self).written() + payload_part(
                        *old(self),
                        *final(self),
                    )
                    &&& payload.yields(
                        old(self).room(),
                        Ok(payload_part(*old(self), *final(self))),
                    )
                },
                Err(e) => {
                    &&& final(self).written() == old(self).written()
                    &&& payload.yields(old(self).room(), Err(e))
                },
            },
            exists|b: &mut [u8], out: Result<usize, Error>|
                {
                    &&& #[trigger] call_ensures(P::serialize, (payload, b), out)
                    &&& (*b)@.len() == old(self).room()
                    &&& match out {
                        Ok(n) => {
                            &&& res is Ok
                            &&& n <= (*b)@.len() == (*final(b))@.len()
                            &&& payload_part(*old(self), *final(self)) == (*final(b))@.take(
                                n as int,
                            )
                        },
                        Err(e) => res == Err::<(), Error>(e),
                    }
                },
    {
        let ghost before = *self;
        let total: usize = self.buf.len();
        let start: usize = if self.offset <= total {
            self.offset
        } else {
            total
        };
        let (head, tail): (&mut [u8], &mut [u8]) = self.buf.split_at_mut(start);
        let ghost kept = head@;
        let res: Result<usize, Error> = payload.serialize(tail);
        let ghost filled = tail@;
        assert(self.buf@ =~= kept + filled);
        match res {
            Ok(n) => {
                if self.offset <= total {
                    self.offset = start + n;
                }
                let ghost part = self.buf@.subrange(start as int, start + n as int);
                assert(self.written() =~= before.written() + part);
                assert(payload_part(before, *self) =~= part);
                assert(part =~= filled.take(n as int));
                Ok(())
            },
            Err(e) => {
                assert(self.written() =~= before.written());
                Err(e)
            },
        }
    }

    /// Finalizes the fixed header of the packet by writing the remaining length and packet type.
    ///
    /// This function must be called after all other data has been encoded.
    pub(crate) fn finalize_fixed_header<H: FixedHeader>(&mut self, v: &H) -> (res: Result<
        (),
        Error,
    >)
        requires
            old(self).wf(),
            old(self).headless(),
        ensures
            final(self).wf(),
            final(self).capacity() == old(self).capacity(),
            (*final(final(self).target()))@ == (*final(old(self).target()))@,
            if old(self).capacity() < MAX_MQTT_HEADER_LEN {
                &&& res == Err::<(), Error>(Error::BufferSize)
                &&& *final(self) == *old(self)
            } else if old(self).written().len() > MAX_VARINT {
                &&& res == Err::<(), Error>(Error::InvalidLength)
                &&& *final(self) == *old(self)
            } else {
                &&& res == Ok::<(), Error>(())
                &&& !final(self).headless()
                &&& final(self).written() == frame(
                    v.type_bits() | v.flag_bits(),
                    old(self).written(),
                )
                &&& final(self).buffer().take(final(self).written().len() as int)
                    == final(self).written()
            },
    {
        if self.buf.len() < MAX_MQTT_HEADER_LEN {
            return Err(Error::BufferSize);
        }
        let ghost before = *self;
        let remaining_len: usize = self.offset - MAX_MQTT_HEADER_LEN;
        if remaining_len > MAX_VARINT {
            return Err(Error::InvalidLength);
        }
        let len_size: usize = varint_len(remaining_len);
        let header_len: usize = len_size + 1;
        let first: u8 = v.packet_type() | v.flags();
        let ghost body = self.written();

        // The body moves down to where the header will end.
        let mut i: usize = 0;
        while i < remaining_len
            invariant
                i <= remaining_len,
                2 <= header_len <= MAX_MQTT_HEADER_LEN,
                remaining_len + MAX_MQTT_HEADER_LEN == before.offset,
                before.offset <= before.buf@.len(),
                self.buf@.len() == before.buf@.len(),
                self.offset == before.offset,
                self.header_start == MAX_MQTT_HEADER_LEN,
                before.header_start == MAX_MQTT_HEADER_LEN,
                (*final(self.target()))@ == (*final(before.target()))@,
                forall|k: int| i <= k < remaining_len ==> #[trigger] self.buf@[5 + k]
                    == before.buf@[5 + k],
                forall|k: int| 0 <= k < i ==> #[trigger] self.buf@[header_len + k] == before.buf@[5
                    + k],
                body == before.written(),
            decreases remaining_len - i,
        {
            let byte: u8 = self.buf[MAX_MQTT_HEADER_LEN + i];
            assert(byte == before.buf@[5 + i]);
            self.buf[header_len + i] = byte;
            i = i + 1;
        }
        let ghost moved = self.buf@;
        self.buf[0] = first;
        let mut left: usize = remaining_len;
        let mut j: usize = 0;
        proof {
            lemma_varint_size(remaining_len as nat);
        }
        let ghost length = varint_bytes(remaining_len as nat);
        assert(length.skip(0) =~= length);
        while j < len_size
            invariant_except_break
                length.skip(j as int) == varint_groups(left as nat, (4 - j) as nat),
                j == 0 ==> left <= MAX_VARINT,
                j == 1 ==> left < 2097152,
                j == 2 ==> left < 16384,
                j == 3 ==> left < 128,
            invariant
                j <= len_size,
                len_size == length.len(),
                len_size <= 4,
                header_len == len_size + 1,
                before.offset >= MAX_MQTT_HEADER_LEN,
                self.buf@.len() == before.buf@.len(),
                before.buf@.len() >= MAX_MQTT_HEADER_LEN,
                self.offset == before.offset,
                before.offset <= before.buf@.len(),
                self.header_start == MAX_MQTT_HEADER_LEN,
                before.header_start == MAX_MQTT_HEADER_LEN,
                (*final(self.target()))@ == (*final(before.target()))@,
                self.buf@[0] == first,
                forall|k: int| 0 <= k < j ==> #[trigger] self.buf@[1 + k] == length[k],
                forall|k: int| header_len <= k < moved.len() ==> self.buf@[k] == moved[k],
                moved.len() == before.buf@.len(),
            ensures
                j == len_size,
            decreases len_size - j,
        {
            assert(length[j as int] == length.skip(j as int)[0]);
            proof {
                reveal_with_fuel(varint_groups, 2);
            }
            let byte: u8 = if left >= 128 {
                (128 + left % 128) as u8
            } else {
                left as u8
            };
            self.buf[1 + j] = byte;
            assert(length.skip(j as int).skip(1) =~= length.skip(j + 1));
            if left < 128 {
                assert(j + 1 == len_size);
                j = j + 1;
                break;
            }
            assert(length.skip(j as int).skip(1) =~= varint_groups(
                (left / 128) as nat,
                (3 - j) as nat,
            ));
            left = left / 128;
            j = j + 1;
        }
        self.header_start = 0;
        self.offset = header_len + remaining_len;
        proof {
            let whole = frame(first, body);
            assert forall|k: int| 0 <= k < whole.len() implies self.written()[k] == whole[k] by {
                if k == 0 {
                } else if k < header_len {
                    assert(self.buf@[1 + (k - 1)] == length[k - 1]);
                } else {
                    assert(moved[header_len + (k - header_len)] == before.buf@[5 + (k
                        - header_len)]);
                    assert(body[k - header_len] == before.buf@[5 + (k - header_len)]);
                }
            }
            assert(self.written() =~= whole);
            assert(self.buffer().take(whole.len() as int) =~= whole);
        }
        Ok(())
    }
}

/// A trait for encoding MQTT packets into a buffer.
pub trait MqttEncode: FixedHeader + Sized {
    /// Whether MQTT can represent the packet: its lengths and integers are in range.
    spec fn encodable(&self) -> bool;

    /// Whether encoding the body into a buffer of this length may give this
    /// body, or this error.
    spec fn encodes_to(&self, capacity: nat, body: Result<Seq<u8>, Error>) -> bool;

    /// The most bytes that the packet can take.
    spec fn size_bound(&self) -> nat;

    /// Encodes the packet into the given encoder.
    fn to_buffer(&self, encoder: &mut MqttEncoder<'_>) -> (res: Result<(), Error>)
        requires
            old(encoder).wf(),
            self.encodable(),
            old(encoder).headless(),
            old(encoder).written() == Seq::<u8>::empty(),
        ensures
            final(encoder).wf(),
            final(encoder).capacity() == old(encoder).capacity(),
            (*final(final(encoder).target()))@ == (*final(old(encoder).target()))@,
            res is Ok ==> final(encoder).buffer().take(final(encoder).written().len() as int)
                == final(encoder).written(),
            match res {
                Ok(_) => !final(encoder).headless() && exists|body: Seq<u8>|
                    self.encodes_to(old(encoder).capacity(), Ok(body)) && body.len() <= MAX_VARINT
                        && final(encoder).written() == #[trigger] frame(
                        self.type_bits() | self.flag_bits(),
                        body,
                    ),
                Err(e) => final(encoder).headless() && self.encodes_to(
                    old(encoder).capacity(),
                    Err(e),
                ),
            },
    ;

    /// Returns the maximum packet size in bytes.
    fn max_packet_size(&self) -> (n: usize)
        requires
            self.encodable(),
            self.size_bound() <= usize::MAX,
        ensures
            n == self.size_bound(),
    ;

    /// Sets the packet identifier for the packet.
    ///
    /// This is only used for packets that have a packet identifier.
    fn set_pid(&mut self, pid: Pid)
        default_ensures
            *final(self) == *old(self),
    {
    }

    /// Returns the quality of service (QoS) of the packet.
    ///
    /// This is only used for packets that have a QoS.
    fn get_qos(&self) -> (qos: Option<QoS>)
        default_ensures
            qos == None::<QoS>,
    {
        None
    }
}

/// The result of encoding a body that is always the same into a buffer of some
/// length: it has to fit there, and its length has to fit in the fixed header.
pub open spec fn bounded(body: Seq<u8>, capacity: nat) -> Result<Seq<u8>, Error> {
    if MAX_MQTT_HEADER_LEN + body.len() > capacity {
        Err(Error::BufferSize)
    } else if body.len() > MAX_VARINT {
        Err(Error::InvalidLength)
    } else {
        Ok(body)
    }
}

/// A packet takes at least two bytes more than its body, and at most the five
/// bytes that `max_packet_size` counts for the fixed header.
pub proof fn law_frame_size(first: u8, body: Seq<u8>)
    ensures
        body.len() + 2 <= frame(first, body).len() <= body.len() + MAX_MQTT_HEADER_LEN,
{
    lemma_varint_size(body.len());
}

/// A buffer as long as `max_packet_size` says is long enough for any packet
/// whose body is always the same.
pub proof fn law_max_packet_size_is_enough(body: Seq<u8>, capacity: nat)
    requires
        body.len() <= MAX_VARINT,
        MAX_MQTT_HEADER_LEN + body.len() <= capacity,
    ensures
        bounded(body, capacity) == Ok::<Seq<u8>, Error>(body),
{
}

/// What is written at once is written behind what was written before, if there
/// is room for it, and the room gets smaller by as much. If there is none, that
/// is an error and nothing changes.
pub proof fn law_writing_goes_on_behind(
    before: MqttEncoder<'_>,
    after: MqttEncoder<'_>,
    bytes: Seq<u8>,
    res: Result<(), Error>,
)
    requires
        writes(before, after, bytes, res),
    ensures
        res is Ok <==> bytes.len() <= before.room(),
        res matches Err(e) ==> e == Error::BufferSize,
        res is Ok ==> after.written().len() == before.written().len() + bytes.len(),
        res is Ok ==> after.written().take(before.written().len() as int) == before.written(),
        res is Ok ==> after.written().skip(before.written().len() as int) == bytes,
        res is Ok ==> after.room() + bytes.len() == before.room() || bytes.len() == 0,
        res is Err ==> after.written() == before.written() && after.room() == before.room(),
        after.capacity() == before.capacity(),
        appends(before, after, bytes, res),
{
    if res is Ok {
        let n = before.written().len() as int;
        assert(after.written().take(n) =~= before.written());
        assert(after.written().skip(n) =~= bytes);
    } else {
        assert(before.written().is_prefix_of(after.written()));
        assert(after.written().is_prefix_of(before.written() + bytes));
    }
}

/// A new encoder has written nothing, and has room for all of the buffer but the
/// five bytes that a fixed header takes at most. What it has written can be read.
pub proof fn law_new_encoder<'a>(
    buf: &'a mut [u8],
    encoder: MqttEncoder<'a>,
    used: usize,
    bytes: &[u8],
)
    requires
        call_ensures(MqttEncoder::<'a>::new, (buf,), encoder),
        call_ensures(MqttEncoder::<'a>::used_size, (&encoder,), used),
        old(buf)@.len() >= 5,
        call_ensures(MqttEncoder::<'a>::packet_bytes, (&encoder,), bytes),
    ensures
        encoder.written().len() == 0,
        encoder.capacity() == old(buf)@.len(),
        encoder.room() == old(buf)@.len() - 5,
        encoder.buffer() == old(buf)@,
        used == 5,
        bytes@.len() == 0,
{
}

} // verus!
