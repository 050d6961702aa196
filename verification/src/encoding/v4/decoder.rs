use vstd::prelude::*;
use vstd::string::StringSliceAdditionalSpecFns;

use super::utils::Error;
use crate::encoding::error::Error as WireError;
use crate::encoding::utils::{qos_of_code, QoS};
use crate::encoding::wire::{lemma_varint_at_bounds, read_varint_at, u16_of, utf8_str, varint_at};

verus! {

/// Packet type variant, without the associated data.
#[derive(Debug, Copy, Clone, PartialEq, Eq, Hash, Structural)]
pub enum PacketType {
    Connect,
    Connack,
    Publish,
    Puback,
    Pubrec,
    Pubrel,
    Pubcomp,
    Subscribe,
    Suback,
    Unsubscribe,
    Unsuback,
    Pingreq,
    Pingresp,
    Disconnect,
}

/// The first byte of a packet.
#[derive(Debug, Clone, Copy, PartialEq, Eq, Structural)]
pub struct Header {
    pub typ: PacketType,
    pub dup: bool,
    pub qos: QoS,
    pub retain: bool,
}

/// The packet type with some number, and the flags that it demands, if any.
pub open spec fn type_of(number: u8) -> Option<(PacketType, Option<u8>)> {
    match number {
        1 => Some((PacketType::Connect, Some(0u8))),
        2 => Some((PacketType::Connack, Some(0u8))),
        3 => Some((PacketType::Publish, None)),
        4 => Some((PacketType::Puback, Some(0u8))),
        5 => Some((PacketType::Pubrec, Some(0u8))),
        6 => Some((PacketType::Pubrel, Some(2u8))),
        7 => Some((PacketType::Pubcomp, Some(0u8))),
        8 => Some((PacketType::Subscribe, Some(2u8))),
        9 => Some((PacketType::Suback, Some(0u8))),
        10 => Some((PacketType::Unsubscribe, Some(2u8))),
        11 => Some((PacketType::Unsuback, Some(0u8))),
        12 => Some((PacketType::Pingreq, Some(0u8))),
        13 => Some((PacketType::Pingresp, Some(0u8))),
        14 => Some((PacketType::Disconnect, Some(0u8))),
        _ => None,
    }
}

/// What the first byte of a packet tells.
pub open spec fn header_of(hd: u8) -> Result<Header, Error> {
    match type_of(hd / 16) {
        None => Err(Error::InvalidHeader),
        Some((typ, flags)) => if flags is Some && flags != Some((hd % 16) as u8) {
            Err(Error::InvalidHeader)
        } else {
            match qos_of_code(hd / 2 % 4) {
                Err(_) => Err(Error::InvalidQos(hd / 2 % 4)),
                Ok(qos) => Ok(
                    Header { typ, dup: hd / 8 % 2 == 1, qos, retain: hd % 2 == 1 },
                ),
            }
        },
    }
}

impl Header {
    pub fn new(hd: u8) -> (res: Result<Header, Error>)
        ensures
            res == header_of(hd),
    {
        let flags: u8 = hd % 16;
        let (typ, flags_ok) = match hd / 16 {
            1 => (PacketType::Connect, flags == 0),
            2 => (PacketType::Connack, flags == 0),
            3 => (PacketType::Publish, true),
            4 => (PacketType::Puback, flags == 0),
            5 => (PacketType::Pubrec, flags == 0),
            6 => (PacketType::Pubrel, flags == 2),
            7 => (PacketType::Pubcomp, flags == 0),
            8 => (PacketType::Subscribe, flags == 2),
            9 => (PacketType::Suback, flags == 0),
            10 => (PacketType::Unsubscribe, flags == 2),
            11 => (PacketType::Unsuback, flags == 0),
            12 => (PacketType::Pingreq, flags == 0),
            13 => (PacketType::Pingresp, flags == 0),
            14 => (PacketType::Disconnect, flags == 0),
            _ => (PacketType::Connect, false),
        };
        if !flags_ok {
            return Err(Error::InvalidHeader);
        }
        match QoS::from_u8(hd / 2 % 4) {
            Ok(qos) => Ok(Header { typ, dup: hd / 8 % 2 == 1, qos, retain: hd % 2 == 1 }),
            Err(e) => Err(e),
        }
    }
}

/// What reading a fixed header at the start of `s` gives: the header, the
/// number of bytes that it takes and that of those that follow it. There is
/// none if `s` does not hold the whole packet.
pub open spec fn full_header_at(s: Seq<u8>) -> Result<Option<(Header, nat, nat)>, Error> {
    match varint_at(s.skip(1), 0) {
        Err(WireError::InsufficientBytes) => Ok(None),
        Err(_) => Err(Error::InvalidHeader),
        Ok((len, n)) => if s.len() < 1 + n + len {
            Ok(None)
        } else {
            match header_of(s[0]) {
                Err(e) => Err(e),
                Ok(header) => Ok(Some((header, 1 + n, len))),
            }
        },
    }
}

/// Read the parsed header and remaining_len from the buffer. Only return Some() and advance the
/// buffer position if there is enough data in the buffer to read the full packet.
pub fn read_header(buf: &[u8], offset: &mut usize) -> (res: Result<Option<(Header, usize)>, Error>)
    ensures
        *old(offset) >= buf@.len() ==> res == Ok::<Option<(Header, usize)>, Error>(None)
            && *final(offset) == *old(offset),
        *old(offset) < buf@.len() ==> match (
            res,
            full_header_at(buf@.skip(*old(offset) as int)),
        ) {
            (Ok(Some((header, len))), Ok(Some((view, n, m)))) => {
                &&& header == view
                &&& len == m
                &&& *final(offset) == *old(offset) + n
            },
            (Ok(None), Ok(None)) => *final(offset) == *old(offset),
            (Err(e), Err(f)) => e == f && *final(offset) == *old(offset),
            _ => false,
        },
{
    if *offset >= buf.len() {
        return Ok(None);
    }
    let ghost s = buf@.skip(*offset as int);
    assert(s.skip(1) =~= buf@.skip(*offset + 1));
    match read_varint_at(buf, *offset + 1) {
        Err(WireError::InsufficientBytes) => Ok(None),
        Err(_) => Err(Error::InvalidHeader),
        Ok((len, n)) => {
            if buf.len() - *offset - 1 - n < len {
                // Won't be able to read full packet
                return Ok(None);
            }
            match Header::new(buf[*offset]) {
                Err(e) => Err(e),
                Ok(header) => {
                    *offset = *offset + 1 + n;
                    Ok(Some((header, len)))
                },
            }
        },
    }
}

/// What reading a byte string at the start of `s` gives.
pub open spec fn bytes_at(s: Seq<u8>) -> Result<Seq<u8>, Error> {
    if s.len() < 2 || s.len() - 2 < u16_of(s[0], s[1]) {
        Err(Error::InvalidLength)
    } else {
        Ok(s.subrange(2, 2 + u16_of(s[0], s[1])))
    }
}

/// How far reading a byte string or a string at the start of `s` moves on,
/// whether or not it can be read: over its length, if that is there, and over
/// its bytes, if all of them are.
pub open spec fn bytes_passed(s: Seq<u8>) -> nat {
    if s.len() < 2 {
        0
    } else if s.len() - 2 < u16_of(s[0], s[1]) {
        2
    } else {
        2 + u16_of(s[0], s[1]) as nat
    }
}

/// What reading a string at the start of `s` gives: its UTF-8 bytes.
pub open spec fn string_at(s: Seq<u8>) -> Result<Seq<u8>, Error> {
    match bytes_at(s) {
        Err(e) => Err(e),
        Ok(bytes) => if vstd::utf8::valid_utf8(bytes) {
            Ok(bytes)
        } else {
            Err(Error::InvalidString)
        },
    }
}

pub(crate) fn read_bytes<'a>(buf: &'a [u8], offset: &mut usize) -> (res: Result<&'a [u8], Error>)
    requires
        *old(offset) <= buf@.len(),
    ensures
        *final(offset) <= buf@.len(),
        *final(offset) == *old(offset) + bytes_passed(buf@.skip(*old(offset) as int)),
        match (res, bytes_at(buf@.skip(*old(offset) as int))) {
            (Ok(bytes), Ok(view)) => {
                &&& bytes@ == view
                &&& *final(offset) == *old(offset) + 2 + view.len()
            },
            (Err(e), Err(f)) => e == f,
            _ => false,
        },
{
    let ghost s = buf@.skip(*offset as int);
    if buf.len() - *offset < 2 {
        return Err(Error::InvalidLength);
    }
    let len: usize = buf[*offset] as usize * 256 + buf[*offset + 1] as usize;
    *offset = *offset + 2;
    if len > buf.len() - *offset {
        Err(Error::InvalidLength)
    } else {
        let bytes: &'a [u8] = &buf[*offset..*offset + len];
        assert(bytes@ =~= s.subrange(2, 2 + len as int));
        *offset = *offset + len;
        Ok(bytes)
    }
}

pub(crate) fn read_str<'a>(buf: &'a [u8], offset: &mut usize) -> (res: Result<&'a str, Error>)
    requires
        *old(offset) <= buf@.len(),
    ensures
        *final(offset) <= buf@.len(),
        *final(offset) == *old(offset) + bytes_passed(buf@.skip(*old(offset) as int)),
        match (res, string_at(buf@.skip(*old(offset) as int))) {
            (Ok(s), Ok(view)) => {
                &&& s.spec_bytes() == view
                &&& *final(offset) == *old(offset) + 2 + view.len()
            },
            (Err(e), Err(f)) => e == f,
            _ => false,
        },
{
    let bytes: &'a [u8] = read_bytes(buf, offset)?;
    match utf8_str(bytes) {
        Some(s) => Ok(s),
        None => Err(Error::InvalidString),
    }
}

/// The first byte of a packet holds the number of its type in the upper half.
/// Below that stand, of a PUBLISH packet, whether it is a duplicate, its quality
/// of service and whether it is retained, and of any other packet the flags that
/// MQTT demands.
pub proof fn law_first_byte_is_read(hd: u8)
    ensures
        header_of(hd) is Ok <==> {
            let number = hd / 16;
            &&& 1 <= number <= 14
            &&& if number == 3 {
                hd / 2 % 4 != 3
            } else if number == 6 || number == 8 || number == 10 {
                hd % 16 == 2
            } else {
                hd % 16 == 0
            }
        },
        header_of(hd) matches Ok(header) ==> {
            &&& hd / 16 == match header.typ {
                PacketType::Connect => 1int,
                PacketType::Connack => 2,
                PacketType::Publish => 3,
                PacketType::Puback => 4,
                PacketType::Pubrec => 5,
                PacketType::Pubrel => 6,
                PacketType::Pubcomp => 7,
                PacketType::Subscribe => 8,
                PacketType::Suback => 9,
                PacketType::Unsubscribe => 10,
                PacketType::Unsuback => 11,
                PacketType::Pingreq => 12,
                PacketType::Pingresp => 13,
                PacketType::Disconnect => 14,
            }
            &&& header.dup <==> hd / 8 % 2 == 1
            &&& hd / 2 % 4 == match header.qos {
                QoS::AtMostOnce => 0int,
                QoS::AtLeastOnce => 1,
                QoS::ExactlyOnce => 2,
            }
            &&& header.retain <==> hd % 2 == 1
        },
        header_of(hd) matches Err(e) ==> e == if hd / 16 == 3 {
            Error::InvalidQos(3)
        } else {
            Error::InvalidHeader
        },
{
}

/// A fixed header is read if and only if the whole packet is there: its first
/// byte, its length and as many bytes as that says. A length of more than four
/// bytes and a first byte that cannot be are errors.
pub proof fn law_full_header_is_read(s: Seq<u8>)
    ensures
        match varint_at(s.skip(1), 0) {
            Err(WireError::InsufficientBytes) => full_header_at(s) == Ok::<
                Option<(Header, nat, nat)>,
                Error,
            >(None),
            Err(_) => full_header_at(s) == Err::<Option<(Header, nat, nat)>, Error>(
                Error::InvalidHeader,
            ),
            Ok((len, n)) => {
                &&& s.len() < 1 + n + len ==> full_header_at(s) == Ok::<
                    Option<(Header, nat, nat)>,
                    Error,
                >(None)
                &&& s.len() >= 1 + n + len ==> match (header_of(s[0]), full_header_at(s)) {
                    (Ok(header), Ok(Some((found, start, left)))) => {
                        &&& found == header
                        &&& start == 1 + n
                        &&& left == len
                    },
                    (Err(e), Err(f)) => e == f,
                    _ => false,
                }
            },
        },
{
}

/// A byte string is read if its length and all of its bytes are there, and a
/// string is if they are UTF-8, too. What is read stands behind its length.
pub proof fn law_strings_are_read(s: Seq<u8>)
    ensures
        bytes_at(s) == if 2 <= s.len() && 2 + s[0] * 256 + s[1] <= s.len() {
            Ok(s.subrange(2, 2 + s[0] * 256 + s[1]))
        } else {
            Err(Error::InvalidLength)
        },
        string_at(s) is Ok <==> bytes_at(s) is Ok && vstd::utf8::valid_utf8(bytes_at(s)->Ok_0),
        string_at(s) is Ok ==> string_at(s) == bytes_at(s),
        string_at(s) matches Err(e) ==> e == if bytes_at(s) is Ok {
            Error::InvalidString
        } else {
            Error::InvalidLength
        },
        bytes_passed(s) == if s.len() < 2 {
            0
        } else if bytes_at(s) is Err {
            2
        } else {
            2 + s[0] * 256 + s[1]
        },
{
}

/// A fixed header is read at the offset, which moves behind it if and only if the
/// whole packet is there and its first byte can be.
pub proof fn law_header_is_read_at_the_offset(
    buf: &[u8],
    offset: &mut usize,
    res: Result<Option<(Header, usize)>, Error>,
    first: Result<Header, Error>,
)
    requires
        call_ensures(read_header, (buf, offset), res),
        *old(offset) < buf@.len(),
        call_ensures(Header::new, (buf@[*old(offset) as int],), first),
    ensures
        ({
            let at = *old(offset) as int;
            let length = varint_at(buf@.skip(at + 1), 0);
            let (len, n) = length->Ok_0;
            let whole = length is Ok && at + 1 + n + len <= buf@.len();
            &&& res matches Ok(Some((header, left))) ==> {
                &&& whole
                &&& first matches Ok(found) && found == header
                &&& left == len
                &&& *final(offset) == at + 1 + n
            }
            &&& whole ==> (res is Ok <==> first is Ok) && res != Ok::<
                Option<(Header, usize)>,
                Error,
            >(None)
            &&& !whole ==> !(res is Ok && res->Ok_0 is Some)
            &&& length == Err::<(nat, nat), WireError>(WireError::InsufficientBytes) ==> res == Ok::<
                Option<(Header, usize)>,
                Error,
            >(None)
            &&& length is Ok && !whole ==> res == Ok::<Option<(Header, usize)>, Error>(None)
            &&& !(res is Ok && res->Ok_0 is Some) ==> *final(offset) == at
        }),
{
    let at = *old(offset) as int;
    assert(buf@.skip(at).skip(1) =~= buf@.skip(at + 1));
    lemma_varint_at_bounds(buf@.skip(at + 1), 0);
}

} // verus!
