use vstd::prelude::*;
use vstd::string::StringSliceAdditionalSpecFns;
use vstd::utf8::encode_utf8;

use super::decoder::{bytes_at, bytes_passed, read_bytes, read_str, string_at};
use super::encoder::{
    check_remaining, lemma_stops_at_the_end, lemma_written_in_turn, write_bytes, write_length,
    write_raw, write_string, write_u16, write_u8, written_at,
};
use super::utils::Error;
use crate::encoding::packets::connect::{optional_bytes, optional_str_bytes};
use crate::encoding::packets::Protocol;
use crate::encoding::utils::{qos_code, qos_of_code, QoS};
use crate::encoding::wire::{
    law_u16_round_trip, slice_bytes, u16_bytes, u16_of, varint_bytes, MAX_VARINT,
};
use crate::pubsub::channel::splice;
use crate::topic_filter::same;

verus! {

/// Message that the server should publish when the client disconnects.
///
/// Sent by the client in the `Connect` packet.
#[derive(Debug, Clone, Copy, PartialEq)]
pub struct LastWill<'a> {
    pub topic: &'a str,
    pub message: &'a [u8],
    pub qos: QoS,
    pub retain: bool,
}

/// Sucess value of a `Connack` packet.
#[derive(Debug, Clone, Copy, PartialEq, Eq, Structural)]
pub enum ConnectReturnCode {
    Accepted,
    RefusedProtocolVersion,
    RefusedIdentifierRejected,
    ServerUnavailable,
    BadUsernamePassword,
    NotAuthorized,
}

impl ConnectReturnCode {
    /// The number of the return code.
    pub open spec fn code(self) -> u8 {
        match self {
            ConnectReturnCode::Accepted => 0,
            ConnectReturnCode::RefusedProtocolVersion => 1,
            ConnectReturnCode::RefusedIdentifierRejected => 2,
            ConnectReturnCode::ServerUnavailable => 3,
            ConnectReturnCode::BadUsernamePassword => 4,
            ConnectReturnCode::NotAuthorized => 5,
        }
    }

    /// Returns the number of the return code.
    pub fn as_u8(&self) -> (code: u8)
        ensures
            code == self.code(),
    {
        match *self {
            ConnectReturnCode::Accepted => 0,
            ConnectReturnCode::RefusedProtocolVersion => 1,
            ConnectReturnCode::RefusedIdentifierRejected => 2,
            ConnectReturnCode::ServerUnavailable => 3,
            ConnectReturnCode::BadUsernamePassword => 4,
            ConnectReturnCode::NotAuthorized => 5,
        }
    }

    /// Makes a return code out of its number.
    pub fn from_u8(byte: u8) -> (res: Result<ConnectReturnCode, Error>)
        ensures
            match res {
                Ok(code) => code.code() == byte,
                Err(e) => byte > 5 && e == Error::InvalidConnectReturnCode(byte),
            },
    {
        match byte {
            0 => Ok(ConnectReturnCode::Accepted),
            1 => Ok(ConnectReturnCode::RefusedProtocolVersion),
            2 => Ok(ConnectReturnCode::RefusedIdentifierRejected),
            3 => Ok(ConnectReturnCode::ServerUnavailable),
            4 => Ok(ConnectReturnCode::BadUsernamePassword),
            5 => Ok(ConnectReturnCode::NotAuthorized),
            n => Err(Error::InvalidConnectReturnCode(n)),
        }
    }
}

/// Connect packet.
#[derive(Debug, Clone, PartialEq)]
pub struct Connect<'a> {
    pub protocol: Protocol,
    pub keep_alive: u16,
    pub client_id: &'a str,
    pub clean_session: bool,
    pub last_will: Option<LastWill<'a>>,
    pub username: Option<&'a str>,
    pub password: Option<&'a [u8]>,
}

/// Connack packet.
#[derive(Debug, Clone, Copy, PartialEq, Eq, Structural)]
pub struct Connack {
    pub session_present: bool,
    pub code: ConnectReturnCode,
}

/// A will, with strings as their UTF-8 bytes.
#[verifier::ext_equal]
pub ghost struct WillView {
    pub topic: Seq<u8>,
    pub message: Seq<u8>,
    pub qos: QoS,
    pub retain: bool,
}

/// A `Connect` packet, with strings as their UTF-8 bytes.
#[verifier::ext_equal]
pub ghost struct ConnectView {
    pub protocol: Protocol,
    pub keep_alive: u16,
    pub client_id: Seq<u8>,
    pub clean_session: bool,
    pub last_will: Option<WillView>,
    pub username: Option<Seq<u8>>,
    pub password: Option<Seq<u8>>,
}

impl<'a> View for LastWill<'a> {
    type V = WillView;

    open spec fn view(&self) -> WillView {
        WillView {
            topic: self.topic.spec_bytes(),
            message: self.message@,
            qos: self.qos,
            retain: self.retain,
        }
    }
}

impl<'a> View for Connect<'a> {
    type V = ConnectView;

    open spec fn view(&self) -> ConnectView {
        ConnectView {
            protocol: self.protocol,
            keep_alive: self.keep_alive,
            client_id: self.client_id.spec_bytes(),
            clean_session: self.clean_session,
            last_will: match self.last_will {
                Some(will) => Some(will@),
                None => None,
            },
            username: match self.username {
                Some(username) => Some(username.spec_bytes()),
                None => None,
            },
            password: match self.password {
                Some(password) => Some(password@),
                None => None,
            },
        }
    }
}

/// Why a `Connect` packet cannot be read.
pub ghost enum ConnectFault {
    /// The protocol with this name and this number is not known.
    Protocol(Seq<u8>, u8),
    Other(Error),
}

impl ConnectFault {
    /// Whether an error reports this fault.
    pub open spec fn reported_by(self, error: Error) -> bool {
        match self {
            ConnectFault::Protocol(name, level) => error matches Error::InvalidProtocol(text, number)
                && encode_utf8(text@) == name && number == level,
            ConnectFault::Other(fault) => error == fault,
        }
    }
}

/// The protocol with this name and this number.
pub open spec fn protocol_of(name: Seq<u8>, level: u8) -> Option<Protocol> {
    if level == 3 && name == Protocol::MQIsdp.name_bytes() {
        Some(Protocol::MQIsdp)
    } else if level == 4 && name == Protocol::MQTT311.name_bytes() {
        Some(Protocol::MQTT311)
    } else if level == 5 && name == Protocol::MQTT5.name_bytes() {
        Some(Protocol::MQTT5)
    } else {
        None
    }
}

/// What reading a protocol at the start of `s` gives, and the number of bytes
/// that it takes.
pub open spec fn protocol_at(s: Seq<u8>) -> Result<(Protocol, nat), ConnectFault> {
    match string_at(s) {
        Err(e) => Err(ConnectFault::Other(e)),
        Ok(name) => {
            let level = s[2 + name.len() as int];
            match protocol_of(name, level) {
                None => Err(ConnectFault::Protocol(name, level)),
                Some(protocol) => Ok((protocol, 3 + name.len())),
            }
        },
    }
}

/// How far reading a protocol at the start of `s` moves on, whether or not it
/// is known.
pub open spec fn protocol_passed(s: Seq<u8>) -> nat {
    match string_at(s) {
        Err(_) => bytes_passed(s),
        Ok(name) => 3 + name.len(),
    }
}

impl Protocol {
    /// Reads a protocol at `offset`.
    pub(crate) fn from_buffer(buf: &[u8], offset: &mut usize) -> (res: Result<Self, Error>)
        requires
            *old(offset) <= buf@.len(),
            string_at(buf@.skip(*old(offset) as int)) matches Ok(name) ==> 2 + name.len() < buf@.len()
                - *old(offset),
        ensures
            *final(offset) <= buf@.len(),
            *final(offset) == *old(offset) + protocol_passed(buf@.skip(*old(offset) as int)),
            match (res, protocol_at(buf@.skip(*old(offset) as int))) {
                (Ok(protocol), Ok((view, n))) => protocol == view && *final(offset) == *old(offset)
                    + n,
                (Err(e), Err(fault)) => fault.reported_by(e),
                _ => false,
            },
    {
        let name: &str = read_str(buf, offset)?;
        let level: u8 = buf[*offset];
        *offset = *offset + 1;
        let known: Option<Protocol> = match level {
            3 => Some(Protocol::MQIsdp),
            4 => Some(Protocol::MQTT311),
            5 => Some(Protocol::MQTT5),
            _ => None,
        };
        if let Some(protocol) = known {
            if same(name.as_bytes(), protocol.name().as_bytes()) {
                return Ok(protocol);
            }
        }
        Err(Error::InvalidProtocol(name.to_owned(), level))
    }

    /// Writes the protocol at `offset`.
    pub(crate) fn to_buffer(&self, buf: &mut [u8], offset: &mut usize) -> (res: Result<(), Error>)
        requires
            *old(offset) <= old(buf)@.len(),
        ensures
            written_at(
                old(buf)@,
                *old(offset),
                final(buf)@,
                *final(offset),
                slice_bytes(self.name_bytes()) + seq![self.level()],
                res,
            ),
    {
        let total: usize = buf.len();
        let ghost before = buf@;
        let ghost start = *offset;
        proof {
            lemma_stops_at_the_end(
                slice_bytes(self.name_bytes()),
                seq![self.level()],
                total - start,
            );
        }
        write_string(buf, offset, self.name())?;
        let ghost middle = buf@;
        let res: Result<(), Error> = write_u8(buf, offset, u8::from(*self));
        proof {
            lemma_written_in_turn(
                before,
                start,
                middle,
                slice_bytes(self.name_bytes()),
                buf@,
                *offset,
                seq![self.level()],
                res,
            );
        }
        res
    }
}

/// What reading a string that may be missing at the start of `s` gives, and
/// what follows it.
pub open spec fn optional_string_at(present: bool, s: Seq<u8>) -> Result<
    (Option<Seq<u8>>, Seq<u8>),
    Error,
> {
    if present {
        match string_at(s) {
            Err(e) => Err(e),
            Ok(text) => Ok((Some(text), s.skip(2 + text.len() as int))),
        }
    } else {
        Ok((None, s))
    }
}

/// What reading a byte string that may be missing at the start of `s` gives,
/// and what follows it.
pub open spec fn optional_bytes_at(present: bool, s: Seq<u8>) -> Result<
    (Option<Seq<u8>>, Seq<u8>),
    Error,
> {
    if present {
        match bytes_at(s) {
            Err(e) => Err(e),
            Ok(bytes) => Ok((Some(bytes), s.skip(2 + bytes.len() as int))),
        }
    } else {
        Ok((None, s))
    }
}

/// What reading the will at the start of `s` gives, if the connect flags tell
/// that there is one, and what follows it.
pub open spec fn will_at(flags: u8, s: Seq<u8>) -> Result<(Option<WillView>, Seq<u8>), Error> {
    if flags / 4 % 2 == 1 {
        match string_at(s) {
            Err(e) => Err(e),
            Ok(topic) => {
                let rest = s.skip(2 + topic.len() as int);
                match bytes_at(rest) {
                    Err(e) => Err(e),
                    Ok(message) => match qos_of_code(flags / 8 % 4) {
                        Err(_) => Err(Error::InvalidQos(flags / 8 % 4)),
                        Ok(qos) => Ok(
                            (
                                Some(
                                    WillView {
                                        topic,
                                        message,
                                        qos,
                                        retain: flags / 32 % 2 == 1,
                                    },
                                ),
                                rest.skip(2 + message.len() as int),
                            ),
                        ),
                    },
                }
            },
        }
    } else {
        Ok((None, s))
    }
}

/// What reading the part of a `Connect` packet from the client identifier on
/// gives, and what follows it.
pub open spec fn connect_payload_at(
    protocol: Protocol,
    flags: u8,
    keep_alive: u16,
    s: Seq<u8>,
) -> Result<(ConnectView, Seq<u8>), Error> {
    match string_at(s) {
        Err(e) => Err(e),
        Ok(client_id) => match will_at(flags, s.skip(2 + client_id.len() as int)) {
            Err(e) => Err(e),
            Ok((last_will, rest)) => match optional_string_at(flags / 128 == 1, rest) {
                Err(e) => Err(e),
                Ok((username, rest)) => match optional_bytes_at(flags / 64 % 2 == 1, rest) {
                    Err(e) => Err(e),
                    Ok((password, rest)) => Ok(
                        (
                            ConnectView {
                                protocol,
                                keep_alive,
                                client_id,
                                clean_session: flags / 2 % 2 == 1,
                                last_will,
                                username,
                                password,
                            },
                            rest,
                        ),
                    ),
                },
            },
        },
    }
}

/// What reading a `Connect` packet without its fixed header at the start of `s`
/// gives, and what follows it.
pub open spec fn connect_at(s: Seq<u8>) -> Result<(ConnectView, Seq<u8>), ConnectFault> {
    match protocol_at(s) {
        Err(fault) => Err(fault),
        Ok((protocol, n)) => match connect_payload_at(
            protocol,
            s[n as int],
            u16_of(s[n as int + 1], s[n as int + 2]),
            s.skip(n as int + 3),
        ) {
            Err(e) => Err(ConnectFault::Other(e)),
            Ok(read) => Ok(read),
        },
    }
}

/// How far reading the will at the start of `s` moves on, whether or not it can
/// be read.
pub open spec fn will_passed(flags: u8, s: Seq<u8>) -> nat {
    if flags / 4 % 2 != 1 {
        0
    } else {
        match string_at(s) {
            Err(_) => bytes_passed(s),
            Ok(topic) => 2 + topic.len() + bytes_passed(s.skip(2 + topic.len() as int)),
        }
    }
}

/// How far reading a string or a byte string that may be missing at the start
/// of `s` moves on, whether or not it can be read.
pub open spec fn optional_passed(present: bool, s: Seq<u8>) -> nat {
    if present {
        bytes_passed(s)
    } else {
        0
    }
}

/// How far reading the part of a `Connect` packet from the client identifier on
/// moves on, whether or not it can be read: it stops where the first field that
/// cannot be read does.
pub open spec fn connect_payload_passed(flags: u8, s: Seq<u8>) -> nat {
    match string_at(s) {
        Err(_) => bytes_passed(s),
        Ok(client_id) => {
            let will = s.skip(2 + client_id.len() as int);
            2 + client_id.len() + will_passed(flags, will) + match will_at(flags, will) {
                Err(_) => 0,
                Ok((_, name)) => optional_passed(flags / 128 == 1, name)
                    + match optional_string_at(flags / 128 == 1, name) {
                    Err(_) => 0,
                    Ok((_, word)) => optional_passed(flags / 64 % 2 == 1, word),
                },
            }
        },
    }
}

/// How far reading a `Connect` packet without its fixed header at the start of
/// `s` moves on, whether or not it can be read.
pub open spec fn connect_passed(s: Seq<u8>) -> nat {
    match protocol_at(s) {
        Err(_) => protocol_passed(s),
        Ok((_, n)) => n + 3 + connect_payload_passed(s[n as int], s.skip(n as int + 3)),
    }
}

/// Whether `s` goes on for long enough: behind the name of the protocol there
/// are its number, the connect flags and the keep alive interval.
pub open spec fn connect_readable(s: Seq<u8>) -> bool {
    &&& string_at(s) matches Ok(name) ==> 2 + name.len() < s.len()
    &&& protocol_at(s) matches Ok((_, n)) ==> n + 3 <= s.len()
}

/// Returns whether the body of a packet at `offset` goes on for long enough.
pub fn is_connect_readable(buf: &[u8], offset: usize) -> (res: bool)
    requires
        offset <= buf@.len(),
    ensures
        res == connect_readable(buf@.skip(offset as int)),
{
    let mut pos: usize = offset;
    if read_str(buf, &mut pos).is_err() {
        return true;
    }
    if pos >= buf.len() {
        return false;
    }
    let mut pos: usize = offset;
    match Protocol::from_buffer(buf, &mut pos) {
        Ok(_) => buf.len() - pos >= 3,
        Err(_) => true,
    }
}

fn read_will<'a>(flags: u8, buf: &'a [u8], offset: &mut usize) -> (res: Result<
    Option<LastWill<'a>>,
    Error,
>)
    requires
        *old(offset) <= buf@.len(),
    ensures
        *final(offset) <= buf@.len(),
        *final(offset) == *old(offset) + will_passed(flags, buf@.skip(*old(offset) as int)),
        match (res, will_at(flags, buf@.skip(*old(offset) as int))) {
            (Ok(None), Ok((None, rest))) => buf@.skip(*final(offset) as int) == rest,
            (Ok(Some(will)), Ok((Some(view), rest))) => {
                &&& will@ == view
                &&& buf@.skip(*final(offset) as int) == rest
            },
            (Err(e), Err(f)) => e == f,
            _ => false,
        },
{
    if flags / 4 % 2 != 1 {
        return Ok(None);
    }
    let ghost s = buf@.skip(*offset as int);
    let topic: &'a str = read_str(buf, offset)?;
    assert(buf@.skip(*offset as int) =~= s.skip(2 + topic.spec_bytes().len() as int));
    let ghost rest = buf@.skip(*offset as int);
    let message: &'a [u8] = read_bytes(buf, offset)?;
    assert(buf@.skip(*offset as int) =~= rest.skip(2 + message@.len() as int));
    let qos: QoS = QoS::from_u8(flags / 8 % 4)?;
    Ok(Some(LastWill { topic, message, qos, retain: flags / 32 % 2 == 1 }))
}

fn read_optional_str<'a>(present: bool, buf: &'a [u8], offset: &mut usize) -> (res: Result<
    Option<&'a str>,
    Error,
>)
    requires
        *old(offset) <= buf@.len(),
    ensures
        *final(offset) <= buf@.len(),
        *final(offset) == *old(offset) + optional_passed(
            present,
            buf@.skip(*old(offset) as int),
        ),
        match (res, optional_string_at(present, buf@.skip(*old(offset) as int))) {
            (Ok(None), Ok((None, rest))) => buf@.skip(*final(offset) as int) == rest,
            (Ok(Some(text)), Ok((Some(view), rest))) => {
                &&& text.spec_bytes() == view
                &&& buf@.skip(*final(offset) as int) == rest
            },
            (Err(e), Err(f)) => e == f,
            _ => false,
        },
{
    if !present {
        return Ok(None);
    }
    let ghost s = buf@.skip(*offset as int);
    let text: &'a str = read_str(buf, offset)?;
    assert(buf@.skip(*offset as int) =~= s.skip(2 + text.spec_bytes().len() as int));
    Ok(Some(text))
}

fn read_optional_bytes<'a>(present: bool, buf: &'a [u8], offset: &mut usize) -> (res: Result<
    Option<&'a [u8]>,
    Error,
>)
    requires
        *old(offset) <= buf@.len(),
    ensures
        *final(offset) <= buf@.len(),
        *final(offset) == *old(offset) + optional_passed(
            present,
            buf@.skip(*old(offset) as int),
        ),
        match (res, optional_bytes_at(present, buf@.skip(*old(offset) as int))) {
            (Ok(None), Ok((None, rest))) => buf@.skip(*final(offset) as int) == rest,
            (Ok(Some(bytes)), Ok((Some(view), rest))) => {
                &&& bytes@ == view
                &&& buf@.skip(*final(offset) as int) == rest
            },
            (Err(e), Err(f)) => e == f,
            _ => false,
        },
{
    if !present {
        return Ok(None);
    }
    let ghost s = buf@.skip(*offset as int);
    let bytes: &'a [u8] = read_bytes(buf, offset)?;
    assert(buf@.skip(*offset as int) =~= s.skip(2 + bytes@.len() as int));
    Ok(Some(bytes))
}

impl<'a> Connect<'a> {
    /// Reads a packet without its fixed header at `offset`.
    pub fn from_buffer(buf: &'a [u8], offset: &mut usize) -> (res: Result<Self, Error>)
        requires
            *old(offset) <= buf@.len(),
            connect_readable(buf@.skip(*old(offset) as int)),
        ensures
            *final(offset) <= buf@.len(),
            *final(offset) == *old(offset) + connect_passed(buf@.skip(*old(offset) as int)),
            match (res, connect_at(buf@.skip(*old(offset) as int))) {
                (Ok(connect), Ok((view, rest))) => {
                    &&& connect@ == view
                    &&& buf@.skip(*final(offset) as int) == rest
                },
                (Err(e), Err(fault)) => fault.reported_by(e),
                _ => false,
            },
    {
        let ghost s = buf@.skip(*offset as int);
        let protocol: Protocol = Protocol::from_buffer(buf, offset)?;
        let ghost n = protocol_at(s)->Ok_0.1;
        let total: usize = buf.len();
        let connect_flags: u8 = buf[*offset];
        let keep_alive: u16 = buf[*offset + 1] as u16 * 256 + buf[*offset + 2] as u16;
        *offset = *offset + 3;
        let ghost t = buf@.skip(*offset as int);
        assert(t =~= s.skip(n as int + 3));
        let client_id: &'a str = read_str(buf, offset)?;
        assert(buf@.skip(*offset as int) =~= t.skip(2 + client_id.spec_bytes().len() as int));
        let last_will: Option<LastWill<'a>> = read_will(connect_flags, buf, offset)?;
        let username: Option<&'a str> = read_optional_str(connect_flags / 128 == 1, buf, offset)?;
        let password: Option<&'a [u8]> = read_optional_bytes(
            connect_flags / 64 % 2 == 1,
            buf,
            offset,
        )?;
        Ok(
            Connect {
                protocol,
                keep_alive,
                client_id,
                clean_session: connect_flags / 2 % 2 == 1,
                last_will,
                username,
                password,
            },
        )
    }

    /// The connect flags: what the packet holds.
    pub open spec fn flags(&self) -> u8 {
        ((if self.clean_session {
            2int
        } else {
            0
        }) + (match self.last_will {
            Some(will) => 4 + 8 * qos_code(will.qos) + (if will.retain {
                32int
            } else {
                0
            }),
            None => 0,
        }) + (if self.password is Some {
            64int
        } else {
            0
        }) + (if self.username is Some {
            128int
        } else {
            0
        })) as u8
    }

    /// The length of the packet without its fixed header, if the name of the
    /// protocol has four letters.
    pub open spec fn length(&self) -> nat {
        12 + self.client_id.spec_bytes().len() + (match self.username {
            Some(username) => username.spec_bytes().len() + 2,
            None => 0,
        }) + (match self.password {
            Some(password) => password@.len() + 2,
            None => 0,
        }) + (match self.last_will {
            Some(will) => will.message@.len() + will.topic.spec_bytes().len() + 4,
            None => 0,
        })
    }

    /// Returns the length of the packet without its fixed header, if the name
    /// of the protocol has four letters.
    pub fn len(&self) -> (length: usize)
        requires
            self.length() <= usize::MAX,
        ensures
            length == self.length(),
    {
        let mut length: usize = 6 + 1 + 1;  // NOTE: protocol_name(6) + protocol_level(1) + flags(1);
        length = length + (2 + self.client_id.len());
        length = length + 2;  // keep alive
        if let Some(username) = self.username {
            length = length + username.len();
            length = length + 2;
        }
        if let Some(password) = self.password {
            length = length + password.len();
            length = length + 2;
        }
        if let Some(last_will) = &self.last_will {
            length = length + last_will.message.len();
            length = length + last_will.topic.len();
            length = length + 4;
        }
        length
    }

    /// Returns the length of the packet without its fixed header, as `len` does,
    /// however long the strings are.
    pub(crate) fn wide_len(&self) -> (length: u128)
        ensures
            length == self.length(),
    {
        let mut length: u128 = 12 + self.client_id.as_bytes().len() as u128;
        if let Some(username) = self.username {
            length = length + username.as_bytes().len() as u128 + 2;
        }
        if let Some(password) = self.password {
            length = length + password.len() as u128 + 2;
        }
        if let Some(last_will) = &self.last_will {
            length = length + last_will.message.len() as u128;
            length = length + last_will.topic.as_bytes().len() as u128 + 4;
        }
        length
    }

    /// The packet without its fixed header.
    pub open spec fn body(&self) -> Seq<u8> {
        (slice_bytes(self.protocol.name_bytes()) + seq![self.protocol.level()]) + (seq![
            self.flags(),
        ] + (u16_bytes(self.keep_alive) + (slice_bytes(self.client_id.spec_bytes()) + (
        self.will_bytes() + (optional_str_bytes(self.username) + optional_bytes(
            self.password,
        ))))))
    }

    /// The will as it stands in the packet.
    pub open spec fn will_bytes(&self) -> Seq<u8> {
        match self.last_will {
            Some(will) => slice_bytes(will.topic.spec_bytes()) + slice_bytes(will.message@),
            None => seq![],
        }
    }

    /// The whole packet.
    pub open spec fn wire(&self) -> Seq<u8> {
        (seq![0x10u8] + varint_bytes(self.length())) + self.body()
    }

    fn flags_byte(&self) -> (flags: u8)
        ensures
            flags == self.flags(),
    {
        let mut connect_flags: u8 = 0;
        if self.clean_session {
            connect_flags = connect_flags + 2;
        }
        if self.username.is_some() {
            connect_flags = connect_flags + 128;
        }
        if self.password.is_some() {
            connect_flags = connect_flags + 64;
        }
        if let Some(last_will) = &self.last_will {
            connect_flags = connect_flags + 4;
            connect_flags = connect_flags + 8 * last_will.qos.as_u8();
            if last_will.retain {
                connect_flags = connect_flags + 32;
            }
        }
        connect_flags
    }

    fn write_will(&self, buf: &mut [u8], offset: &mut usize) -> (res: Result<(), Error>)
        requires
            *old(offset) <= old(buf)@.len(),
        ensures
            written_at(
                old(buf)@,
                *old(offset),
                final(buf)@,
                *final(offset),
                self.will_bytes(),
                res,
            ),
    {
        let total: usize = buf.len();
        let ghost before = buf@;
        let ghost start = *offset;
        if let Some(last_will) = &self.last_will {
            proof {
                lemma_stops_at_the_end(
                    slice_bytes(last_will.topic.spec_bytes()),
                    slice_bytes(last_will.message@),
                    total - start,
                );
            }
            write_string(buf, offset, last_will.topic)?;
            let ghost middle = buf@;
            let res: Result<(), Error> = write_bytes(buf, offset, last_will.message);
            proof {
                lemma_written_in_turn(
                    before,
                    start,
                    middle,
                    slice_bytes(last_will.topic.spec_bytes()),
                    buf@,
                    *offset,
                    slice_bytes(last_will.message@),
                    res,
                );
            }
            res
        } else {
            assert(buf@ =~= splice(before, start as int, seq![]));
            Ok(())
        }
    }

    fn write_credentials(&self, buf: &mut [u8], offset: &mut usize) -> (res: Result<(), Error>)
        requires
            *old(offset) <= old(buf)@.len(),
        ensures
            written_at(
                old(buf)@,
                *old(offset),
                final(buf)@,
                *final(offset),
                optional_str_bytes(self.username) + optional_bytes(self.password),
                res,
            ),
    {
        let total: usize = buf.len();
        let ghost before = buf@;
        let ghost start = *offset;
        proof {
            lemma_stops_at_the_end(
                optional_str_bytes(self.username),
                optional_bytes(self.password),
                total - start,
            );
        }
        if let Some(username) = self.username {
            write_string(buf, offset, username)?;
        } else {
            assert(buf@ =~= splice(before, start as int, seq![]));
        }
        let ghost middle = buf@;
        let ghost second = *offset;
        let res: Result<(), Error> = if let Some(password) = self.password {
            write_bytes(buf, offset, password)
        } else {
            assert(buf@ =~= splice(middle, second as int, seq![]));
            Ok(())
        };
        proof {
            lemma_written_in_turn(
                before,
                start,
                middle,
                optional_str_bytes(self.username),
                buf@,
                *offset,
                optional_bytes(self.password),
                res,
            );
        }
        res
    }

    fn write_payload(&self, buf: &mut [u8], offset: &mut usize) -> (res: Result<(), Error>)
        requires
            *old(offset) <= old(buf)@.len(),
        ensures
            written_at(
                old(buf)@,
                *old(offset),
                final(buf)@,
                *final(offset),
                slice_bytes(self.client_id.spec_bytes()) + (self.will_bytes() + (
                optional_str_bytes(self.username) + optional_bytes(self.password))),
                res,
            ),
    {
        let total: usize = buf.len();
        let ghost before = buf@;
        let ghost start = *offset;
        let ghost id = slice_bytes(self.client_id.spec_bytes());
        let ghost credentials = optional_str_bytes(self.username) + optional_bytes(self.password);
        proof {
            lemma_stops_at_the_end(id, self.will_bytes() + credentials, total - start);
        }
        write_string(buf, offset, self.client_id)?;
        let ghost middle = buf@;
        let ghost second = *offset;
        let res: Result<(), Error> = self.write_will(buf, offset);
        if res.is_err() {
            proof {
                lemma_stops_at_the_end(id + self.will_bytes(), credentials, total - start);
                assert(id + self.will_bytes() + credentials =~= id + (self.will_bytes()
                    + credentials));
                lemma_written_in_turn(
                    before,
                    start,
                    middle,
                    id,
                    buf@,
                    *offset,
                    self.will_bytes(),
                    res,
                );
            }
            return res;
        }
        let ghost third = buf@;
        let res: Result<(), Error> = self.write_credentials(buf, offset);
        proof {
            lemma_written_in_turn(
                middle,
                second,
                third,
                self.will_bytes(),
                buf@,
                *offset,
                credentials,
                res,
            );
            lemma_written_in_turn(
                before,
                start,
                middle,
                id,
                buf@,
                *offset,
                self.will_bytes() + credentials,
                res,
            );
        }
        res
    }

    fn write_body(&self, buf: &mut [u8], offset: &mut usize) -> (res: Result<(), Error>)
        requires
            *old(offset) <= old(buf)@.len(),
        ensures
            written_at(old(buf)@, *old(offset), final(buf)@, *final(offset), self.body(), res),
    {
        let total: usize = buf.len();
        let ghost b0 = buf@;
        let ghost o0 = *offset;
        let ghost protocol = slice_bytes(self.protocol.name_bytes()) + seq![self.protocol.level()];
        let ghost flags = seq![self.flags()];
        let ghost keep_alive = u16_bytes(self.keep_alive);
        let ghost payload = slice_bytes(self.client_id.spec_bytes()) + (self.will_bytes() + (
        optional_str_bytes(self.username) + optional_bytes(self.password)));
        proof {
            lemma_stops_at_the_end(protocol, flags + (keep_alive + payload), total - o0);
        }
        self.protocol.to_buffer(buf, offset)?;
        let ghost b1 = buf@;
        let ghost o1 = *offset;
        let res: Result<(), Error> = write_u8(buf, offset, self.flags_byte());
        if res.is_err() {
            proof {
                lemma_written_in_turn(b0, o0, b1, protocol, buf@, *offset, flags, res);
                lemma_stops_at_the_end(protocol + flags, keep_alive + payload, total - o0);
                assert(protocol + flags + (keep_alive + payload) =~= self.body());
            }
            return res;
        }
        let ghost b2 = buf@;
        let ghost o2 = *offset;
        let res: Result<(), Error> = write_u16(buf, offset, self.keep_alive);
        if res.is_err() {
            proof {
                lemma_written_in_turn(b1, o1, b2, flags, buf@, *offset, keep_alive, res);
                lemma_written_in_turn(
                    b0,
                    o0,
                    b1,
                    protocol,
                    buf@,
                    *offset,
                    flags + keep_alive,
                    res,
                );
                lemma_stops_at_the_end(protocol + (flags + keep_alive), payload, total - o0);
                assert(protocol + (flags + keep_alive) + payload =~= self.body());
            }
            return res;
        }
        let ghost b3 = buf@;
        let res: Result<(), Error> = self.write_payload(buf, offset);
        proof {
            lemma_written_in_turn(b2, o2, b3, keep_alive, buf@, *offset, payload, res);
            lemma_written_in_turn(b1, o1, b2, flags, buf@, *offset, keep_alive + payload, res);
            lemma_written_in_turn(
                b0,
                o0,
                b1,
                protocol,
                buf@,
                *offset,
                flags + (keep_alive + payload),
                res,
            );
        }
        res
    }

    /// Writes the packet at `offset`. Returns how many bytes its fixed header
    /// announces.
    pub fn to_buffer(&self, buf: &mut [u8], offset: &mut usize) -> (res: Result<usize, Error>)
        requires
            *old(offset) <= old(buf)@.len(),
            self.length() < usize::MAX,
        ensures
            ({
                let room = old(buf)@.len() - *old(offset);
                let announced = 1 + varint_bytes(self.length()).len() + self.length();
                if room < self.length() + 1 {
                    &&& res == Err::<usize, Error>(Error::WriteZero)
                    &&& final(buf)@ == old(buf)@
                    &&& *final(offset) == *old(offset)
                } else if self.length() > MAX_VARINT || room < announced {
                    // Only the first byte has been written
                    &&& res == Err::<usize, Error>(
                        if self.length() > MAX_VARINT {
                            Error::InvalidLength
                        } else {
                            Error::WriteZero
                        },
                    )
                    &&& final(buf)@ == old(buf)@.update(*old(offset) as int, 0x10)
                    &&& *final(offset) == *old(offset) + 1
                } else if room < self.wire().len() {
                    // The packet goes on behind the end of the buffer
                    &&& res == Err::<usize, Error>(Error::WriteZero)
                    &&& final(buf)@ == splice(
                        old(buf)@,
                        *old(offset) as int,
                        self.wire().take(room),
                    )
                    &&& *final(offset) == old(buf)@.len()
                } else {
                    &&& res == Ok::<usize, Error>(announced as usize)
                    &&& final(buf)@ == splice(old(buf)@, *old(offset) as int, self.wire())
                    &&& *final(offset) == *old(offset) + self.wire().len()
                }
            }),
    {
        let ghost b0 = buf@;
        let ghost o0 = *offset;
        let total: usize = buf.len();
        let length: usize = self.len();
        check_remaining(buf, *offset, length + 1)?;
        proof {
            lemma_body_len(*self);
        }
        // NOTE: putting data into buffer.
        write_u8(buf, offset, 0x10)?;
        assert(buf@ =~= b0.update(o0 as int, 0x10));
        let write_len: usize = write_length(buf, offset, length)?;
        let ghost b2 = buf@;
        let ghost front = seq![0x10u8] + varint_bytes(length as nat);
        assert(b2 =~= splice(b0, o0 as int, front));
        let res: Result<(), Error> = self.write_body(buf, offset);
        proof {
            lemma_written_in_turn(b0, o0, b2, front, buf@, *offset, self.body(), res);
        }
        match res {
            // NOTE: END
            Ok(_) => Ok(write_len + 1),
            Err(e) => Err(e),
        }
    }
}

proof fn lemma_protocol_name(protocol: Protocol)
    ensures
        protocol.name_bytes().len() == if protocol == Protocol::MQIsdp {
            6nat
        } else {
            4
        },
        vstd::utf8::valid_utf8(protocol.name_bytes()),
{
    reveal_strlit("MQTT");
    reveal_strlit("MQIsdp");
    vstd::utf8::is_ascii_chars_encode_utf8(protocol.name_view());
    vstd::utf8::encode_utf8_valid_utf8(protocol.name_view());
}

pub(crate) proof fn lemma_body_len(connect: Connect<'_>)
    ensures
        connect.body().len() == connect.length() + if connect.protocol == Protocol::MQIsdp {
            2nat
        } else {
            0
        },
{
    lemma_protocol_name(connect.protocol);
}

impl Connack {
    /// The whole packet.
    pub open spec fn wire(&self) -> Seq<u8> {
        seq![
            0x20,
            2,
            if self.session_present {
                1
            } else {
                0
            },
            self.code.code(),
        ]
    }

    /// Reads a packet without its fixed header at `offset`.
    pub fn from_buffer(buf: &[u8], offset: &mut usize) -> (res: Result<Self, Error>)
        requires
            *old(offset) + 2 <= buf@.len(),
        ensures
            *final(offset) == *old(offset) + 2,
            match res {
                Ok(connack) => {
                    &&& connack.session_present == (buf@[*old(offset) as int] % 2 == 1)
                    &&& connack.code.code() == buf@[*old(offset) + 1]
                },
                Err(e) => {
                    &&& buf@[*old(offset) + 1] > 5
                    &&& e == Error::InvalidConnectReturnCode(buf@[*old(offset) + 1])
                },
            },
    {
        let total: usize = buf.len();
        let flags: u8 = buf[*offset];
        let return_code: u8 = buf[*offset + 1];
        *offset = *offset + 2;
        match ConnectReturnCode::from_u8(return_code) {
            Ok(code) => Ok(Connack { session_present: flags % 2 == 1, code }),
            Err(e) => Err(e),
        }
    }

    /// Writes the packet at `offset`. Returns the number of its bytes.
    pub fn to_buffer(&self, buf: &mut [u8], offset: &mut usize) -> (res: Result<usize, Error>)
        requires
            *old(offset) <= old(buf)@.len(),
        ensures
            if old(buf)@.len() - *old(offset) < 4 {
                &&& res == Err::<usize, Error>(Error::WriteZero)
                &&& final(buf)@ == old(buf)@
                &&& *final(offset) == *old(offset)
            } else {
                &&& res == Ok::<usize, Error>(4)
                &&& final(buf)@ == splice(old(buf)@, *old(offset) as int, self.wire())
                &&& *final(offset) == *old(offset) + 4
            },
    {
        check_remaining(buf, *offset, 4)?;
        let flags: u8 = if self.session_present {
            1
        } else {
            0
        };
        let bytes: [u8; 4] = [0x20, 2, flags, self.code.as_u8()];
        assert(bytes@ =~= self.wire());
        write_raw(buf, offset, bytes.as_slice())?;
        Ok(4)
    }
}

proof fn lemma_bytes_read_back(s: Seq<u8>, rest: Seq<u8>)
    requires
        s.len() <= 0xffff,
    ensures
        bytes_at(slice_bytes(s) + rest) == Ok::<Seq<u8>, Error>(s),
        (slice_bytes(s) + rest).skip(2 + s.len() as int) == rest,
{
    let w = slice_bytes(s) + rest;
    law_u16_round_trip(s.len() as u16);
    assert(w[0] == u16_bytes(s.len() as u16)[0]);
    assert(w[1] == u16_bytes(s.len() as u16)[1]);
    assert(w.subrange(2, 2 + s.len() as int) =~= s);
    assert(w.skip(2 + s.len() as int) =~= rest);
}

proof fn lemma_string_read_back(s: &str, rest: Seq<u8>)
    requires
        s.spec_bytes().len() <= 0xffff,
    ensures
        string_at(slice_bytes(s.spec_bytes()) + rest) == Ok::<Seq<u8>, Error>(s.spec_bytes()),
        (slice_bytes(s.spec_bytes()) + rest).skip(2 + s.spec_bytes().len() as int) == rest,
{
    lemma_bytes_read_back(s.spec_bytes(), rest);
    vstd::utf8::encode_utf8_valid_utf8(s@);
}

impl<'a> Connect<'a> {
    /// Whether every string is short enough for its length to be written.
    pub open spec fn representable(&self) -> bool {
        &&& self.client_id.spec_bytes().len() <= 0xffff
        &&& self.last_will matches Some(will) ==> will.topic.spec_bytes().len() <= 0xffff
            && will.message@.len() <= 0xffff
        &&& self.username matches Some(username) ==> username.spec_bytes().len() <= 0xffff
        &&& self.password matches Some(password) ==> password@.len() <= 0xffff
    }

    proof fn lemma_flags(self)
        ensures
            self.flags() / 2 % 2 == 1 <==> self.clean_session,
            self.flags() / 4 % 2 == 1 <==> self.last_will is Some,
            self.last_will matches Some(will) ==> qos_of_code(self.flags() / 8 % 4) == Ok::<
                QoS,
                crate::encoding::error::Error,
            >(will.qos) && (self.flags() / 32 % 2 == 1 <==> will.retain),
            self.flags() / 64 % 2 == 1 <==> self.password is Some,
            self.flags() / 128 == 1 <==> self.username is Some,
    {
    }

    proof fn lemma_credentials_read_back(self, rest: Seq<u8>)
        requires
            self.representable(),
        ensures
            ({
                let tail = optional_bytes(self.password) + rest;
                &&& optional_string_at(
                    self.username is Some,
                    optional_str_bytes(self.username) + tail,
                ) == Ok::<(Option<Seq<u8>>, Seq<u8>), Error>((self@.username, tail))
                &&& optional_bytes_at(self.password is Some, tail) == Ok::<
                    (Option<Seq<u8>>, Seq<u8>),
                    Error,
                >((self@.password, rest))
            }),
    {
        let tail = optional_bytes(self.password) + rest;
        if let Some(username) = self.username {
            lemma_string_read_back(username, tail);
        } else {
            assert(optional_str_bytes(self.username) + tail =~= tail);
        }
        if let Some(password) = self.password {
            lemma_bytes_read_back(password@, rest);
        } else {
            assert(tail =~= rest);
        }
    }

    proof fn lemma_will_reads_back(self, rest: Seq<u8>)
        requires
            self.representable(),
        ensures
            will_at(self.flags(), self.will_bytes() + rest) == Ok::<
                (Option<WillView>, Seq<u8>),
                Error,
            >((self@.last_will, rest)),
    {
        self.lemma_flags();
        if let Some(will) = self.last_will {
            let tail = slice_bytes(will.message@) + rest;
            lemma_string_read_back(will.topic, tail);
            lemma_bytes_read_back(will.message@, rest);
            assert(self.will_bytes() + rest =~= slice_bytes(will.topic.spec_bytes()) + tail);
        } else {
            assert(self.will_bytes() + rest =~= rest);
        }
    }

    /// The part of the packet from the client identifier on.
    pub open spec fn payload(&self) -> Seq<u8> {
        slice_bytes(self.client_id.spec_bytes()) + (self.will_bytes() + (optional_str_bytes(
            self.username,
        ) + optional_bytes(self.password)))
    }

    #[verifier::rlimit(40)]
    #[verifier::spinoff_prover]
    proof fn lemma_payload_reads_back(self, rest: Seq<u8>)
        requires
            self.representable(),
        ensures
            connect_payload_at(
                self.protocol,
                self.flags(),
                self.keep_alive,
                self.payload() + rest,
            ) == Ok::<(ConnectView, Seq<u8>), Error>((self@, rest)),
    {
        let username = optional_str_bytes(self.username);
        let after_username = optional_bytes(self.password) + rest;
        let after_will = username + after_username;
        let after_id = self.will_bytes() + after_will;
        assert(self.payload() + rest =~= slice_bytes(self.client_id.spec_bytes()) + after_id);
        lemma_string_read_back(self.client_id, after_id);
        self.lemma_flags();
        self.lemma_will_reads_back(after_will);
        self.lemma_credentials_read_back(rest);
    }

    proof fn lemma_start_reads_back(self, rest: Seq<u8>)
        requires
            self.representable(),
        ensures
            ({
                let s = self.body() + rest;
                let n = 3 + self.protocol.name_bytes().len();
                &&& string_at(s) == Ok::<Seq<u8>, Error>(self.protocol.name_bytes())
                &&& protocol_at(s) == Ok::<(Protocol, nat), ConnectFault>((self.protocol, n))
                &&& n + 3 <= s.len()
                &&& s[n as int] == self.flags()
                &&& u16_of(s[n as int + 1], s[n as int + 2]) == self.keep_alive
                &&& s.skip(n as int + 3) == self.payload() + rest
            }),
    {
        let name = self.protocol.name_bytes();
        let s = self.body() + rest;
        let keep_alive = u16_bytes(self.keep_alive);
        let after_name = seq![self.protocol.level(), self.flags()] + keep_alive + self.payload()
            + rest;
        lemma_protocol_name(self.protocol);
        assert(s =~= slice_bytes(name) + after_name);
        lemma_bytes_read_back(name, after_name);
        let n = 3 + name.len() as int;
        assert(s[n - 1] == after_name[0]);
        assert(s[n] == after_name[1]);
        law_u16_round_trip(self.keep_alive);
        assert(s[n + 1] == after_name[2]);
        assert(s[n + 2] == after_name[3]);
        assert(after_name[2] == keep_alive[0]);
        assert(after_name[3] == keep_alive[1]);
        assert(s.skip(n + 3) =~= self.payload() + rest);
    }

    /// Reading the body of a packet gives back what writing it wrote, with
    /// nothing read of what follows.
    pub proof fn law_round_trip(connect: Self, rest: Seq<u8>)
        requires
            connect.representable(),
        ensures
            connect_readable(connect.body() + rest),
            connect_at(connect.body() + rest) == Ok::<(ConnectView, Seq<u8>), ConnectFault>(
                (connect@, rest),
            ),
    {
        connect.lemma_start_reads_back(rest);
        connect.lemma_payload_reads_back(rest);
    }
}

impl Connack {
    /// What writing a packet wrote tells its parts.
    pub proof fn law_round_trip(connack: Self, other: Self)
        ensures
            connack.wire().len() == 4,
            connack.wire()[2] % 2 == 1 <==> connack.session_present,
            connack.wire()[3] == other.code.code() <==> connack.code == other.code,
    {
    }
}

/// The return codes are numbered from 0 to 5.
pub proof fn law_return_code_numbers()
    ensures
        ConnectReturnCode::Accepted.code() == 0,
        ConnectReturnCode::RefusedProtocolVersion.code() == 1,
        ConnectReturnCode::RefusedIdentifierRejected.code() == 2,
        ConnectReturnCode::ServerUnavailable.code() == 3,
        ConnectReturnCode::BadUsernamePassword.code() == 4,
        ConnectReturnCode::NotAuthorized.code() == 5,
{
}

/// Each bit of the connect flags tells one thing: bit 1 whether the session is
/// clean, bit 2 whether there is a will, bits 3 and 4 its quality of service and
/// bit 5 whether it is retained, bit 6 whether there is a password and bit 7
/// whether there is a user name. Bit 0 is not set.
pub proof fn law_each_flag_tells_one_thing(connect: Connect<'_>)
    ensures
        connect.flags() % 2 == 0,
        connect.flags() / 2 % 2 == 1 <==> connect.clean_session,
        connect.flags() / 4 % 2 == 1 <==> connect.last_will is Some,
        connect.last_will matches Some(will) ==> connect.flags() / 8 % 4 == match will.qos {
            QoS::AtMostOnce => 0int,
            QoS::AtLeastOnce => 1,
            QoS::ExactlyOnce => 2,
        },
        connect.last_will is None ==> connect.flags() / 8 % 8 == 0,
        connect.flags() / 32 % 2 == 1 <==> (connect.last_will is Some
            && connect.last_will->0.retain),
        connect.flags() / 64 % 2 == 1 <==> connect.password is Some,
        connect.flags() / 128 == 1 <==> connect.username is Some,
{
}

/// A CONNECT packet that can be read tells by its connect flags what it holds.
/// The number of the protocol stands in front of them and the keep alive
/// interval behind.
pub proof fn law_connect_is_read(s: Seq<u8>)
    requires
        connect_readable(s),
    ensures
        connect_at(s) matches Ok((view, rest)) ==> {
            let n = 2 + s[0] * 256 + s[1];
            let flags = s[n + 1];
            &&& n + 4 <= s.len()
            &&& s[n] == match view.protocol {
                Protocol::MQIsdp => 3u8,
                Protocol::MQTT311 => 4,
                Protocol::MQTT5 => 5,
            }
            &&& view.keep_alive == s[n + 2] * 256 + s[n + 3]
            &&& view.clean_session <==> flags / 2 % 2 == 1
            &&& view.last_will is Some <==> flags / 4 % 2 == 1
            &&& view.last_will matches Some(will) ==> {
                &&& flags / 8 % 4 == match will.qos {
                    QoS::AtMostOnce => 0int,
                    QoS::AtLeastOnce => 1,
                    QoS::ExactlyOnce => 2,
                }
                &&& will.retain <==> flags / 32 % 2 == 1
            }
            &&& view.password is Some <==> flags / 64 % 2 == 1
            &&& view.username is Some <==> flags / 128 == 1
        },
        protocol_at(s) is Err ==> connect_at(s) is Err,
        connect_at(s) is Err && protocol_at(s) is Ok ==> {
            let n = protocol_at(s)->Ok_0.1 as int;
            let id = string_at(s.skip(n + 3));
            let will = s.skip(n + 3).skip(2 + id->Ok_0.len() as int);
            id is Err || will_at(s[n], will) is Err || optional_string_at(
                s[n] / 128 == 1,
                will_at(s[n], will)->Ok_0.1,
            ) is Err || optional_bytes_at(
                s[n] / 64 % 2 == 1,
                optional_string_at(s[n] / 128 == 1, will_at(s[n], will)->Ok_0.1)->Ok_0.1,
            ) is Err
        },
{
}

/// A string behind its length, if there is one.
pub open spec fn string_if(text: Option<Seq<u8>>) -> Seq<u8> {
    match text {
        Some(text) => slice_bytes(text),
        None => Seq::empty(),
    }
}

/// The topic and the message of a will, each behind its length, if there is one.
pub open spec fn will_strings(will: Option<WillView>) -> Seq<u8> {
    match will {
        Some(will) => slice_bytes(will.topic) + slice_bytes(will.message),
        None => Seq::empty(),
    }
}

proof fn lemma_bytes_stand(s: Seq<u8>)
    ensures
        bytes_at(s) matches Ok(bytes) ==> s == slice_bytes(bytes) + s.skip(2 + bytes.len() as int)
            && bytes_passed(s) == 2 + bytes.len() <= s.len(),
{
    if let Ok(bytes) = bytes_at(s) {
        assert(s =~= slice_bytes(bytes) + s.skip(2 + bytes.len() as int));
    }
}

proof fn lemma_optional_stand(present: bool, s: Seq<u8>)
    ensures
        optional_string_at(present, s) matches Ok((text, rest)) ==> s == string_if(text) + rest
            && s.len() == optional_passed(present, s) + rest.len(),
        optional_bytes_at(present, s) matches Ok((bytes, rest)) ==> s == string_if(bytes) + rest
            && s.len() == optional_passed(present, s) + rest.len(),
{
    lemma_bytes_stand(s);
    assert(Seq::<u8>::empty() + s =~= s);
}

proof fn lemma_will_stands(flags: u8, s: Seq<u8>)
    ensures
        will_at(flags, s) matches Ok((will, rest)) ==> s == will_strings(will) + rest && s.len()
            == will_passed(flags, s) + rest.len(),
{
    if let Ok((will, rest)) = will_at(flags, s) {
        assert(Seq::<u8>::empty() + s =~= s);
        if let Some(will) = will {
            lemma_bytes_stand(s);
            let middle = s.skip(2 + will.topic.len() as int);
            lemma_bytes_stand(middle);
            assert(s =~= slice_bytes(will.topic) + slice_bytes(will.message) + rest);
        }
    }
}

/// A CONNECT packet from the client identifier on is its strings one after the
/// other, each behind its length: the client identifier, then the topic and the
/// message of the will, the user name and the password, as far as the connect
/// flags tell that they are there. What follows is not looked at.
pub proof fn law_connect_payload_is_read(
    protocol: Protocol,
    flags: u8,
    keep_alive: u16,
    s: Seq<u8>,
)
    ensures
        connect_payload_at(protocol, flags, keep_alive, s) matches Ok((view, rest)) ==> {
            &&& s == slice_bytes(view.client_id) + (will_strings(view.last_will) + (string_if(
                view.username,
            ) + (string_if(view.password) + rest)))
            &&& s.len() == connect_payload_passed(flags, s) + rest.len()
            &&& view.protocol == protocol
            &&& view.keep_alive == keep_alive
        },
{
    if let Ok((view, rest)) = connect_payload_at(protocol, flags, keep_alive, s) {
        let after_id = s.skip(2 + view.client_id.len() as int);
        lemma_bytes_stand(s);
        lemma_will_stands(flags, after_id);
        let after_will = will_at(flags, after_id)->Ok_0.1;
        lemma_optional_stand(flags / 128 == 1, after_will);
        let after_name = optional_string_at(flags / 128 == 1, after_will)->Ok_0.1;
        lemma_optional_stand(flags / 64 % 2 == 1, after_name);
    }
}

/// The name and the number of each version of the protocol.
pub proof fn law_protocol_names()
    ensures
        Protocol::MQTT311.name_bytes() == seq![0x4du8, 0x51, 0x54, 0x54],
        Protocol::MQTT5.name_bytes() == seq![0x4du8, 0x51, 0x54, 0x54],
        Protocol::MQIsdp.name_bytes() == seq![0x4du8, 0x51, 0x49, 0x73, 0x64, 0x70],
        Protocol::MQIsdp.level() == 3,
        Protocol::MQTT311.level() == 4,
        Protocol::MQTT5.level() == 5,
{
    reveal_strlit("MQTT");
    reveal_strlit("MQIsdp");
    vstd::utf8::is_ascii_chars_encode_utf8(Protocol::MQTT311.name_view());
    vstd::utf8::is_ascii_chars_encode_utf8(Protocol::MQIsdp.name_view());
    assert(Protocol::MQTT311.name_bytes() =~= seq![0x4du8, 0x51, 0x54, 0x54]);
    assert(Protocol::MQIsdp.name_bytes() =~= seq![0x4du8, 0x51, 0x49, 0x73, 0x64, 0x70]);
}

/// A CONNECT packet that is written stands at the offset, starting with 0x10 and
/// its length, and the rest of the buffer is as it was.
pub proof fn law_connect_is_written<'a>(
    connect: &Connect<'a>,
    buf: &mut [u8],
    offset: &mut usize,
    res: Result<usize, Error>,
    i: int,
)
    requires
        *old(offset) <= old(buf)@.len(),
        connect.length() < usize::MAX,
        call_ensures(Connect::<'a>::to_buffer, (connect, buf, offset), res),
        0 <= i < old(buf)@.len(),
    ensures
        ({
            let start = *old(offset) as int;
            let end = *final(offset) as int;
            let header = 1 + varint_bytes(connect.length()).len() as int;
            let total = header + connect.body().len();
            &&& final(buf)@.len() == old(buf)@.len()
            &&& res is Ok <==> connect.length() <= 268435455 && total <= old(buf)@.len() - start
            &&& i < start ==> final(buf)@[i] == old(buf)@[i]
            &&& i >= end ==> final(buf)@[i] == old(buf)@[i]
            &&& res matches Err(e) ==> e == if connect.length() > 268435455 && connect.length()
                < old(buf)@.len() - start {
                Error::InvalidLength
            } else {
                Error::WriteZero
            }
            &&& res is Ok ==> {
                &&& end == start + total
                &&& final(buf)@[start] == 0x10
                &&& final(buf)@.subrange(start + 1, start + header) == varint_bytes(
                    connect.length(),
                )
                &&& final(buf)@.subrange(start + header, end) == connect.body()
                &&& connect.protocol != Protocol::MQIsdp ==> res->Ok_0 == total
            }
        }),
{
    let start = *old(offset) as int;
    let header = 1 + varint_bytes(connect.length()).len() as int;
    lemma_body_len(*connect);
    lemma_spliced(old(buf)@, start, connect.wire(), i);
    if res is Ok {
        let end = *final(offset) as int;
        assert(final(buf)@.subrange(start + 1, start + header) =~= varint_bytes(connect.length()));
        assert(final(buf)@.subrange(start + header, end) =~= connect.body());
    }
}

proof fn lemma_spliced(s: Seq<u8>, start: int, part: Seq<u8>, i: int)
    requires
        0 <= start,
        0 <= i < s.len(),
    ensures
        start + part.len() <= s.len() ==> splice(s, start, part).len() == s.len(),
        start + part.len() <= s.len() ==> splice(s, start, part)[i] == if start <= i < start
            + part.len() {
            part[i - start]
        } else {
            s[i]
        },
{
}

/// What is read where a CONNECT packet without its fixed header stands is that
/// packet, whatever follows it.
pub proof fn law_connect_is_read_back<'a, 'r>(
    connect: Connect<'a>,
    bytes: &'r [u8],
    pos: &mut usize,
    rest: Seq<u8>,
    res: Result<Connect<'r>, Error>,
)
    requires
        connect.representable(),
        *old(pos) <= bytes@.len(),
        bytes@.skip(*old(pos) as int) == connect.body() + rest,
        call_ensures(Connect::<'r>::from_buffer, (bytes, pos), res),
    ensures
        res matches Ok(read) && read.protocol == connect.protocol && read.keep_alive
            == connect.keep_alive && read.client_id.spec_bytes() == connect.client_id.spec_bytes()
            && read.clean_session == connect.clean_session,
        match (res->Ok_0.last_will, connect.last_will) {
            (Some(will), Some(written)) => {
                &&& will.topic.spec_bytes() == written.topic.spec_bytes()
                &&& will.message@ == written.message@
                &&& will.qos == written.qos
                &&& will.retain == written.retain
            },
            (None, None) => true,
            _ => false,
        },
        match (res->Ok_0.username, connect.username) {
            (Some(username), Some(written)) => username.spec_bytes() == written.spec_bytes(),
            (None, None) => true,
            _ => false,
        },
        match (res->Ok_0.password, connect.password) {
            (Some(password), Some(written)) => password@ == written@,
            (None, None) => true,
            _ => false,
        },
        *final(pos) == *old(pos) + connect.body().len(),
{
    Connect::law_round_trip(connect, rest);
    assert(bytes@.skip(*final(pos) as int).len() == rest.len());
}

/// A CONNACK packet is four bytes: 0x20, 2, whether there is a session and the
/// number of the return code. What is read behind the first two is the packet.
pub proof fn law_connack_is_written<'r>(
    connack: &Connack,
    buf: &mut [u8],
    offset: &mut usize,
    written: Result<usize, Error>,
    bytes: &'r [u8],
    pos: &mut usize,
    read: Result<Connack, Error>,
    i: int,
)
    requires
        *old(offset) <= old(buf)@.len(),
        call_ensures(Connack::to_buffer, (connack, buf, offset), written),
        *old(pos) + 2 <= bytes@.len(),
        call_ensures(Connack::from_buffer, (bytes, pos), read),
        0 <= i < old(buf)@.len(),
    ensures
        ({
            let start = *old(offset) as int;
            let at = *old(pos) as int;
            &&& written is Ok <==> start + 4 <= old(buf)@.len()
            &&& written matches Err(e) ==> e == Error::WriteZero && final(buf)@ == old(buf)@
            &&& written is Ok ==> {
                &&& written->Ok_0 == 4
                &&& *final(offset) == start + 4
                &&& final(buf)@.subrange(start, start + 2) == seq![0x20u8, 2]
                &&& final(buf)@[start + 2] == if connack.session_present {
                    1int
                } else {
                    0
                }
                &&& final(buf)@[start + 3] == connack.code.code()
                &&& i < start || start + 4 <= i ==> final(buf)@[i] == old(buf)@[i]
            }
            &&& *final(pos) == at + 2
            &&& read is Ok <==> bytes@[at + 1] <= 5
            &&& read matches Ok(found) ==> {
                &&& found.session_present <==> bytes@[at] % 2 == 1
                &&& found.code.code() == bytes@[at + 1]
            }
            &&& read matches Err(e) ==> e == Error::InvalidConnectReturnCode(bytes@[at + 1])
        }),
{
    if written is Ok {
        assert(final(buf)@.subrange(*old(offset) as int, *old(offset) + 2) =~= seq![0x20u8, 2]);
    }
}

/// The length of a CONNECT packet is that of what follows its fixed header, for
/// any protocol with a name of four letters.
pub proof fn law_connect_length<'a>(connect: Connect<'a>, length: usize)
    requires
        connect.protocol != Protocol::MQIsdp,
        connect.length() <= usize::MAX,
        call_ensures(Connect::<'a>::len, (&connect,), length),
    ensures
        length == connect.body().len(),
{
    lemma_body_len(connect);
}

/// A protocol is told by its name and its number together, and no other pair of
/// them is one. What is no protocol is reported with both.
pub proof fn law_protocols_are_read(name: Seq<u8>, level: u8, s: Seq<u8>)
    ensures
        protocol_of(name, level) == Some(Protocol::MQIsdp) <==> level == 3 && name
            == Protocol::MQIsdp.name_bytes(),
        protocol_of(name, level) == Some(Protocol::MQTT311) <==> level == 4 && name
            == Protocol::MQTT311.name_bytes(),
        protocol_of(name, level) == Some(Protocol::MQTT5) <==> level == 5 && name
            == Protocol::MQTT5.name_bytes(),
        protocol_at(s) matches Ok((protocol, n)) ==> {
            &&& string_at(s) matches Ok(text) && text == protocol.name_bytes() && n == 3
                + text.len()
            &&& s[n - 1] == protocol.level()
        },
        string_at(s) matches Ok(text) ==> (protocol_at(s) is Err ==> protocol_at(s) == Err::<
            (Protocol, nat),
            ConnectFault,
        >(ConnectFault::Protocol(text, s[2 + text.len() as int]))),
        string_at(s) matches Err(e) ==> protocol_at(s) == Err::<(Protocol, nat), ConnectFault>(
            ConnectFault::Other(e),
        ),
{
}

} // verus!
