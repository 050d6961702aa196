use vstd::prelude::*;
use vstd::string::StringSliceAdditionalSpecFns;

use super::PacketType;
use crate::encoding::encoder::{
    appends, bounded, frame, MqttEncode, MqttEncoder, MAX_MQTT_HEADER_LEN,
};
use crate::encoding::error::Error;
use crate::encoding::properties::Properties;
use crate::encoding::utils::{qos_code, QoS};
use crate::encoding::wire::{
    law_properties_round_trip, law_u16_round_trip, lemma_varint_size, properties_at,
    properties_bytes, slice_bytes, u16_bytes, varint_len, MAX_VARINT,
};
use crate::encoding::FixedHeader;

verus! {

/// Protocol version.
///
/// Sent in `Connect` packet.
#[derive(Debug, Clone, Copy, PartialEq, Eq, Structural)]
pub enum Protocol {
    /// MQIsdp, aka SCADA are pre-standardisation names of MQTT. It should mostly conform to MQTT
    /// 3.1.1, but you should watch out for implementation discrepancies.
    MQIsdp,
    /// MQTT 3.1.1 is the most commonly implemented version.
    MQTT311,
    /// MQTT 5.
    MQTT5,
}

impl Protocol {
    /// The number of the protocol version.
    pub open spec fn level(self) -> u8 {
        match self {
            Protocol::MQIsdp => 3,
            Protocol::MQTT311 => 4,
            Protocol::MQTT5 => 5,
        }
    }

    /// The name of the protocol version.
    pub open spec fn name_view(self) -> Seq<char> {
        match self {
            Protocol::MQTT311 | Protocol::MQTT5 => "MQTT"@,
            Protocol::MQIsdp => "MQIsdp"@,
        }
    }

    /// The UTF-8 bytes of the name of the protocol version.
    pub open spec fn name_bytes(self) -> Seq<u8> {
        vstd::utf8::encode_utf8(self.name_view())
    }

    /// Returns the name of the protocol version.
    pub fn name(&self) -> (name: &'static str)
        ensures
            name@ == self.name_view(),
    {
        match self {
            Protocol::MQTT311 | Protocol::MQTT5 => "MQTT",
            Protocol::MQIsdp => "MQIsdp",
        }
    }
}

impl From<Protocol> for u8 {
    fn from(protocol: Protocol) -> (level: u8) {
        match protocol {
            Protocol::MQIsdp => 3,
            Protocol::MQTT311 => 4,
            Protocol::MQTT5 => 5,
        }
    }
}

impl vstd::std_specs::convert::FromSpecImpl<Protocol> for u8 {
    open spec fn obeys_from_spec() -> bool {
        true
    }

    open spec fn from_spec(protocol: Protocol) -> u8 {
        protocol.level()
    }
}

impl TryFrom<u8> for Protocol {
    type Error = Error;

    fn try_from(level: u8) -> (res: Result<Self, Error>) {
        match level {
            3 => Ok(Protocol::MQIsdp),
            4 => Ok(Protocol::MQTT311),
            5 => Ok(Protocol::MQTT5),
            _ => Err(Error::UnsupportedPacket),
        }
    }
}

impl vstd::std_specs::convert::TryFromSpecImpl<u8> for Protocol {
    open spec fn obeys_try_from_spec() -> bool {
        true
    }

    open spec fn try_from_spec(level: u8) -> Result<Self, Error> {
        match level {
            3 => Ok(Protocol::MQIsdp),
            4 => Ok(Protocol::MQTT311),
            5 => Ok(Protocol::MQTT5),
            _ => Err(Error::UnsupportedPacket),
        }
    }
}

/// Message that the server should publish when the client disconnects.
///
/// Sent by the client in the `Connect` packet.
#[derive(Debug, Clone, Copy, PartialEq)]
pub struct LastWill<'a> {
    pub topic: &'a str,
    pub data: &'a [u8],
    pub qos: QoS,
    pub retained: bool,
    pub properties: Properties<'a>,
}

impl<'a> LastWill<'a> {
    /// The will as it stands in a `Connect` packet.
    pub open spec fn bytes(self) -> Seq<u8> {
        properties_bytes(self.properties.block()) + slice_bytes(self.topic.spec_bytes())
            + slice_bytes(self.data@)
    }

    /// The bits of the connect flags that tell of the will.
    pub open spec fn flags(self) -> int {
        4 + 8 * qos_code(self.qos) + if self.retained {
            32int
        } else {
            0
        }
    }
}

/// Connect packet.
#[derive(Debug, Clone, PartialEq)]
pub struct Connect<'a> {
    pub protocol: Protocol,
    /// Any properties associated with the CONNECT request.
    pub properties: Properties<'a>,
    /// Specifies the keep-alive interval of the connection in seconds.
    pub keep_alive: u16,
    /// The ID of the client that is connecting. May be an empty string to automatically allocate
    /// an ID from the broker.
    pub client_id: &'a str,
    /// An optional authentication message used by the server.
    pub username: Option<&'a str>,
    pub password: Option<&'a [u8]>,
    /// An optional will message to be transmitted whenever the connection is lost.
    pub last_will: Option<LastWill<'a>>,
    /// Specified true there is no session state being taken in to the MQTT connection.
    pub clean_start: bool,
}

/// A byte string that may be missing.
pub open spec fn optional_bytes(s: Option<&[u8]>) -> Seq<u8> {
    match s {
        Some(s) => slice_bytes(s@),
        None => seq![],
    }
}

/// A string that may be missing.
pub open spec fn optional_str_bytes(s: Option<&str>) -> Seq<u8> {
    match s {
        Some(s) => slice_bytes(s.spec_bytes()),
        None => seq![],
    }
}

impl<'a> Connect<'a> {
    /// The connect flags: what the packet holds.
    pub open spec fn connect_flags(&self) -> u8 {
        ((if self.clean_start {
            2int
        } else {
            0
        }) + (match self.last_will {
            Some(will) => will.flags(),
            None => 0,
        }) + (if self.password is Some {
            64int
        } else {
            0
        }) + (if self.username is Some {
            128int
        } else {
            0
        })) as u8
    }

    /// The part of the packet before the client identifier.
    pub open spec fn variable_header(&self) -> Seq<u8> {
        slice_bytes(self.protocol.name_bytes()) + seq![
            self.protocol.level(),
            self.connect_flags(),
        ] + u16_bytes(self.keep_alive) + properties_bytes(self.properties.block())
    }

    /// The part of the packet from the client identifier on.
    pub open spec fn payload(&self) -> Seq<u8> {
        slice_bytes(self.client_id.spec_bytes()) + (match self.last_will {
            Some(will) => will.bytes(),
            None => seq![],
        }) + optional_str_bytes(self.username) + optional_bytes(self.password)
    }

    /// The packet without its fixed header.
    pub open spec fn body(&self) -> Seq<u8> {
        self.variable_header() + self.payload()
    }
}

impl<'a> LastWill<'a> {
    fn write(&self, encoder: &mut MqttEncoder<'_>) -> (res: Result<(), Error>)
        requires
            old(encoder).wf(),
            self.properties.valid(),
        ensures
            appends(*old(encoder), *final(encoder), self.bytes(), res),
            (*final(final(encoder).target()))@ == (*final(old(encoder).target()))@,
    {
        encoder.write_properties(&self.properties)?;
        encoder.write_str(self.topic)?;
        encoder.write_slice(self.data)?;
        assert(encoder.written() =~= old(encoder).written() + self.bytes());
        Ok(())
    }
}

impl<'a> Connect<'a> {
    fn flags_byte(&self) -> (flags: u8)
        ensures
            flags == self.connect_flags(),
    {
        let mut connect_flags: u8 = 0;
        if self.clean_start {
            connect_flags = connect_flags + 2;
        }
        if let Some(last_will) = &self.last_will {
            connect_flags = connect_flags + 4;
            connect_flags = connect_flags + 8 * u8::from(last_will.qos);
            if last_will.retained {
                connect_flags = connect_flags + 32;
            }
        }
        if self.password.is_some() {
            connect_flags = connect_flags + 64;
        }
        if self.username.is_some() {
            connect_flags = connect_flags + 128;
        }
        connect_flags
    }

    #[verifier::rlimit(30)]
    #[verifier::spinoff_prover]
    fn write_variable_header(&self, encoder: &mut MqttEncoder<'_>) -> (res: Result<(), Error>)
        requires
            old(encoder).wf(),
            self.properties.valid(),
        ensures
            appends(*old(encoder), *final(encoder), self.variable_header(), res),
            (*final(final(encoder).target()))@ == (*final(old(encoder).target()))@,
    {
        encoder.write_str(self.protocol.name())?;
        encoder.write_u8(u8::from(self.protocol))?;
        encoder.write_u8(self.flags_byte())?;
        encoder.write_u16(self.keep_alive)?;
        encoder.write_properties(&self.properties)?;
        assert(encoder.written() =~= old(encoder).written() + self.variable_header());
        Ok(())
    }

    #[verifier::rlimit(40)]
    fn write_payload(&self, encoder: &mut MqttEncoder<'_>) -> (res: Result<(), Error>)
        requires
            old(encoder).wf(),
            self.last_will matches Some(will) ==> will.properties.valid(),
        ensures
            appends(*old(encoder), *final(encoder), self.payload(), res),
            (*final(final(encoder).target()))@ == (*final(old(encoder).target()))@,
    {
        encoder.write_str(self.client_id)?;
        if let Some(last_will) = &self.last_will {
            last_will.write(encoder)?;
        }
        if let Some(username) = self.username {
            encoder.write_str(username)?;
        }
        if let Some(password) = self.password {
            encoder.write_slice(password)?;
        }
        assert(encoder.written() =~= old(encoder).written() + self.payload());
        Ok(())
    }
}

impl<'a> FixedHeader for Connect<'a> {
    open spec fn type_bits(&self) -> u8 {
        PacketType::Connect.byte()
    }

    open spec fn flag_bits(&self) -> u8 {
        0
    }

    fn flags(&self) -> (flags: u8) {
        0
    }

    fn packet_type(&self) -> (typ: u8) {
        u8::from(PacketType::Connect)
    }
}

impl<'a> MqttEncode for Connect<'a> {
    open spec fn encodable(&self) -> bool {
        &&& self.properties.valid()
        &&& self.last_will matches Some(will) ==> will.properties.valid()
    }

    open spec fn encodes_to(&self, capacity: nat, body: Result<Seq<u8>, Error>) -> bool {
        body == bounded(self.body(), capacity)
    }

    open spec fn size_bound(&self) -> nat {
        MAX_MQTT_HEADER_LEN as nat + self.body().len()
    }

    fn to_buffer(&self, encoder: &mut MqttEncoder<'_>) -> (res: Result<(), Error>)
        ensures
            res is Ok ==> final(encoder).written() == frame(
                PacketType::Connect.byte() | 0,
                self.body(),
            ),
    {
        self.write_variable_header(encoder)?;
        self.write_payload(encoder)?;
        assert(encoder.written() =~= self.body());
        encoder.finalize_fixed_header(self)
    }

    fn max_packet_size(&self) -> (n: usize) {
        proof {
            lemma_varint_size(self.properties.block().len());
            if let Some(will) = self.last_will {
                lemma_varint_size(will.properties.block().len());
            }
        }
        let mut length: usize = 2 + self.protocol.name().len() + 1 + 1;
        length = length + 2;  // keep alive
        length = length + varint_len(self.properties.size());
        length = length + self.properties.size();
        length = length + 2 + self.client_id.len();
        if let Some(last_will) = &self.last_will {
            length = length + varint_len(last_will.properties.size());
            length = length + last_will.properties.size();
            length = length + 2 + last_will.topic.len();
            length = length + 2 + last_will.data.len();
        }
        if let Some(username) = self.username {
            length = length + 2 + username.len();
        }
        if let Some(password) = self.password {
            length = length + 2 + password.len();
        }
        length + MAX_MQTT_HEADER_LEN
    }
}

/// A will as a reader of the packet finds it.
pub ghost struct WillView {
    pub properties: Seq<u8>,
    pub topic: Seq<u8>,
    pub data: Seq<u8>,
    pub qos: u8,
    pub retained: bool,
}

/// A CONNECT packet as a reader of it finds it, with strings as their UTF-8
/// bytes and properties as they stand on the wire.
pub ghost struct ConnectView {
    pub protocol: Seq<u8>,
    pub level: u8,
    pub clean_start: bool,
    pub keep_alive: int,
    pub properties: Seq<u8>,
    pub client_id: Seq<u8>,
    pub last_will: Option<WillView>,
    pub username: Option<Seq<u8>>,
    pub password: Option<Seq<u8>>,
}

impl<'a> View for LastWill<'a> {
    type V = WillView;

    open spec fn view(&self) -> WillView {
        WillView {
            properties: self.properties.block(),
            topic: self.topic.spec_bytes(),
            data: self.data@,
            qos: match self.qos {
                QoS::AtMostOnce => 0,
                QoS::AtLeastOnce => 1,
                QoS::ExactlyOnce => 2,
            },
            retained: self.retained,
        }
    }
}

impl<'a> View for Connect<'a> {
    type V = ConnectView;

    open spec fn view(&self) -> ConnectView {
        ConnectView {
            protocol: vstd::utf8::encode_utf8(
                if self.protocol == Protocol::MQIsdp {
                    "MQIsdp"@
                } else {
                    "MQTT"@
                },
            ),
            level: match self.protocol {
                Protocol::MQIsdp => 3,
                Protocol::MQTT311 => 4,
                Protocol::MQTT5 => 5,
            },
            clean_start: self.clean_start,
            keep_alive: self.keep_alive as int,
            properties: self.properties.block(),
            client_id: self.client_id.spec_bytes(),
            last_will: match self.last_will {
                Some(will) => Some(will@),
                None => None,
            },
            username: match self.username {
                Some(username) => Some(username.spec_bytes()),
                None => None,
            },
            password: match self.password {
                Some(password) => Some(password@),
                None => None,
            },
        }
    }
}

/// A length-prefixed field at the start of `s`, and what follows it.
#[verifier::opaque]
pub open spec fn field_at(s: Seq<u8>) -> Option<(Seq<u8>, Seq<u8>)> {
    let end = 2 + s[0] * 256 + s[1];
    if s.len() < 2 || s.len() < end {
        None
    } else {
        Some((s.subrange(2, end), s.skip(end)))
    }
}

/// A length-prefixed field at the start of `s`, if it is there at all, and what
/// follows it.
pub open spec fn field_if(present: bool, s: Seq<u8>) -> Option<(Option<Seq<u8>>, Seq<u8>)> {
    if present {
        match field_at(s) {
            None => None,
            Some((field, rest)) => Some((Some(field), rest)),
        }
    } else {
        Some((None, s))
    }
}

/// A property block with its length in front of it at the start of `s`, and
/// what follows it.
#[verifier::opaque]
pub open spec fn block_at(s: Seq<u8>) -> Option<(Seq<u8>, Seq<u8>)> {
    match properties_at(s) {
        Err(_) => None,
        Ok((block, n)) => Some((block, s.skip(n as int))),
    }
}

/// The will at the start of `s`, if bit 2 of the connect flags is set, and what
/// follows it. Bits 3 and 4 are its quality of service, and bit 5 tells whether
/// it is retained.
pub open spec fn will_if(flags: u8, s: Seq<u8>) -> Option<(Option<WillView>, Seq<u8>)> {
    if flags / 4 % 2 == 0 {
        Some((None, s))
    } else {
        match block_at(s) {
            None => None,
            Some((properties, rest)) => match field_at(rest) {
                None => None,
                Some((topic, rest)) => match field_at(rest) {
                    None => None,
                    Some((data, rest)) => Some(
                        (
                            Some(
                                WillView {
                                    properties,
                                    topic,
                                    data,
                                    qos: flags / 8 % 4,
                                    retained: flags / 32 % 2 == 1,
                                },
                            ),
                            rest,
                        ),
                    ),
                },
            },
        }
    }
}

/// What a CONNECT packet holds from the client identifier on.
#[verifier::ext_equal]
pub ghost struct PayloadView {
    pub client_id: Seq<u8>,
    pub last_will: Option<WillView>,
    pub username: Option<Seq<u8>>,
    pub password: Option<Seq<u8>>,
}

/// The part of a CONNECT packet from the client identifier on at the start of
/// `s`, and what follows it. Bit 2 of the connect flags tells of a will, bit 6
/// of a password and bit 7 of a user name.
#[verifier::opaque]
pub open spec fn payload_found(flags: u8, s: Seq<u8>) -> Option<(PayloadView, Seq<u8>)> {
    match field_at(s) {
        None => None,
        Some((client_id, rest)) => match will_if(flags, rest) {
            None => None,
            Some((last_will, rest)) => match field_if(flags / 128 == 1, rest) {
                None => None,
                Some((username, rest)) => match field_if(flags / 64 % 2 == 1, rest) {
                    None => None,
                    Some((password, rest)) => Some(
                        (PayloadView { client_id, last_will, username, password }, rest),
                    ),
                },
            },
        },
    }
}

/// The CONNECT packet, without its fixed header, at the start of `s`, and what
/// follows it. Bit 1 of the connect flags tells of a clean start.
pub open spec fn connect_found(s: Seq<u8>) -> Option<(ConnectView, Seq<u8>)> {
    match field_at(s) {
        None => None,
        Some((protocol, t)) => match block_at(t.skip(4)) {
            None => None,
            Some((properties, rest)) => match payload_found(t[1], rest) {
                None => None,
                Some((payload, rest)) => Some(
                    (
                        ConnectView {
                            protocol,
                            level: t[0],
                            clean_start: t[1] / 2 % 2 == 1,
                            keep_alive: t[2] * 256 + t[3],
                            properties,
                            client_id: payload.client_id,
                            last_will: payload.last_will,
                            username: payload.username,
                            password: payload.password,
                        },
                        rest,
                    ),
                ),
            },
        },
    }
}

proof fn lemma_header_len(name: Seq<u8>, fixed: Seq<u8>, keep_alive: u16, block: Seq<u8>)
    ensures
        (slice_bytes(name) + fixed + u16_bytes(keep_alive) + properties_bytes(block)).len() == 4
            + name.len() + fixed.len() + properties_bytes(block).len(),
{
}

proof fn lemma_regrouped(a: Seq<u8>, b: Seq<u8>, c: Seq<u8>, d: Seq<u8>, rest: Seq<u8>)
    ensures
        a + b + c + d + rest == a + (b + (c + (d + rest))),
{
    assert(a + b + c + d + rest =~= a + (b + (c + (d + rest))));
}

proof fn lemma_joined_len(a: Seq<u8>, b: Seq<u8>, c: Seq<u8>, d: Seq<u8>)
    ensures
        (a + b + c + d).len() == a.len() + b.len() + c.len() + d.len(),
{
}

/// The length of the will, the user name and the password in a CONNECT packet,
/// as far as they are there.
pub open spec fn optional_len(
    last_will: Option<LastWill<'_>>,
    username: Option<&str>,
    password: Option<&[u8]>,
) -> nat {
    (match last_will {
        Some(will) => 4 + properties_bytes(will.properties.block()).len()
            + will.topic.spec_bytes().len() + will.data@.len(),
        None => 0,
    }) + (match username {
        Some(username) => 2 + username.spec_bytes().len(),
        None => 0,
    }) + (match password {
        Some(password) => 2 + password@.len(),
        None => 0,
    })
}

proof fn lemma_optional_len(connect: Connect<'_>)
    ensures
        connect.will_bytes().len() + optional_str_bytes(connect.username).len() + optional_bytes(
            connect.password,
        ).len() == optional_len(connect.last_will, connect.username, connect.password),
{
}

pub(crate) proof fn lemma_connect_len(connect: Connect<'_>)
    ensures
        connect.body().len() == 8 + connect.protocol.name_bytes().len() + properties_bytes(
            connect.properties.block(),
        ).len() + connect.client_id.spec_bytes().len() + optional_len(
            connect.last_will,
            connect.username,
            connect.password,
        ),
{
    let fixed = seq![connect.protocol.level(), connect.connect_flags()];
    assert(fixed.len() == 2);
    lemma_header_len(
        connect.protocol.name_bytes(),
        fixed,
        connect.keep_alive,
        connect.properties.block(),
    );
    lemma_joined_len(
        slice_bytes(connect.client_id.spec_bytes()),
        connect.will_bytes(),
        optional_str_bytes(connect.username),
        optional_bytes(connect.password),
    );
    lemma_optional_len(connect);
    assert(slice_bytes(connect.client_id.spec_bytes()).len() == 2
        + connect.client_id.spec_bytes().len());
    assert(connect.body().len() == connect.variable_header().len() + connect.payload().len());
}

proof fn lemma_short_name(protocol: Protocol)
    ensures
        protocol.name_bytes().len() <= 6,
{
    reveal_strlit("MQTT");
    reveal_strlit("MQIsdp");
    vstd::utf8::is_ascii_chars_encode_utf8(protocol.name_view());
}

pub(crate) proof fn lemma_field_found(bytes: Seq<u8>, rest: Seq<u8>)
    requires
        bytes.len() <= 0xffff,
    ensures
        field_at(slice_bytes(bytes) + rest) == Some((bytes, rest)),
{
    reveal(field_at);
    let s = slice_bytes(bytes) + rest;
    law_u16_round_trip(bytes.len() as u16);
    assert(s[0] == u16_bytes(bytes.len() as u16)[0]);
    assert(s[1] == u16_bytes(bytes.len() as u16)[1]);
    assert(s[0] * 256 + s[1] == bytes.len());
    assert(s.subrange(2, 2 + bytes.len() as int) =~= bytes);
    assert(s.skip(2 + bytes.len() as int) =~= rest);
}

pub(crate) proof fn lemma_block_found(block: Seq<u8>, rest: Seq<u8>)
    requires
        block.len() <= MAX_VARINT,
    ensures
        block_at(properties_bytes(block) + rest) == Some((block, rest)),
{
    reveal(block_at);
    law_properties_round_trip(block, rest);
    assert((properties_bytes(block) + rest).skip(properties_bytes(block).len() as int) =~= rest);
}

impl<'a> Connect<'a> {
    /// Whether every string is short enough for its length to be written.
    pub open spec fn representable(&self) -> bool {
        &&& self.client_id.spec_bytes().len() <= 0xffff
        &&& self.last_will matches Some(will) ==> will.topic.spec_bytes().len() <= 0xffff
            && will.data@.len() <= 0xffff
        &&& self.username matches Some(username) ==> username.spec_bytes().len() <= 0xffff
        &&& self.password matches Some(password) ==> password@.len() <= 0xffff
    }

    /// Each bit of the connect flags tells one thing: bit 1 whether the session
    /// starts clean, bit 2 whether there is a will, bits 3 and 4 its quality of
    /// service and bit 5 whether it is retained, bit 6 whether there is a
    /// password and bit 7 whether there is a user name. Bit 0 is not set.
    pub proof fn law_each_flag_tells_one_thing(connect: Self)
        ensures
            connect.connect_flags() % 2 == 0,
            connect.connect_flags() / 2 % 2 == 1 <==> connect.clean_start,
            connect.connect_flags() / 4 % 2 == 1 <==> connect.last_will is Some,
            connect.last_will matches Some(will) ==> connect.connect_flags() / 8 % 4 == match will.qos {
                QoS::AtMostOnce => 0int,
                QoS::AtLeastOnce => 1,
                QoS::ExactlyOnce => 2,
            },
            connect.last_will is None ==> connect.connect_flags() / 8 % 8 == 0,
            connect.connect_flags() / 32 % 2 == 1 <==> (connect.last_will is Some
                && connect.last_will->0.retained),
            connect.connect_flags() / 64 % 2 == 1 <==> connect.password is Some,
            connect.connect_flags() / 128 == 1 <==> connect.username is Some,
    {
    }

    /// The will as it stands in the packet, if there is one.
    pub open spec fn will_bytes(&self) -> Seq<u8> {
        match self.last_will {
            Some(will) => will.bytes(),
            None => seq![],
        }
    }

    proof fn lemma_will_found(self, rest: Seq<u8>)
        requires
            self.last_will matches Some(will) ==> will.properties.block().len() <= MAX_VARINT,
            self.representable(),
        ensures
            will_if(self.connect_flags(), self.will_bytes() + rest) == Some(
                (self@.last_will, rest),
            ),
    {
        Self::law_each_flag_tells_one_thing(self);
        let s = self.will_bytes() + rest;
        if let Some(w) = self.last_will {
            let data = slice_bytes(w.data@) + rest;
            let topic = slice_bytes(w.topic.spec_bytes()) + data;
            assert(s =~= properties_bytes(w.properties.block()) + topic);
            lemma_block_found(w.properties.block(), topic);
            lemma_field_found(w.topic.spec_bytes(), data);
            lemma_field_found(w.data@, rest);
        } else {
            assert(s =~= rest);
        }
    }

    proof fn lemma_credentials_found(self, rest: Seq<u8>)
        requires
            self.representable(),
        ensures
            ({
                let flags = self.connect_flags();
                let password = optional_bytes(self.password) + rest;
                let username = optional_str_bytes(self.username) + password;
                &&& field_if(flags / 128 == 1, username) == Some((self@.username, password))
                &&& field_if(flags / 64 % 2 == 1, password) == Some((self@.password, rest))
            }),
    {
        let password = optional_bytes(self.password) + rest;
        let username = optional_str_bytes(self.username) + password;
        Self::law_each_flag_tells_one_thing(self);
        if let Some(name) = self.username {
            lemma_field_found(name.spec_bytes(), password);
        } else {
            assert(username =~= password);
        }
        if let Some(word) = self.password {
            lemma_field_found(word@, rest);
        } else {
            assert(password =~= rest);
        }
    }

    /// A reader of the packet finds every field of it as it was set, whatever
    /// follows the packet.
    pub proof fn law_round_trip(connect: Self, rest: Seq<u8>)
        requires
            connect.encodable(),
            connect.representable(),
        ensures
            connect_found(connect.body() + rest) == Some((connect@, rest)),
    {
        Self::lemma_found(connect, rest);
    }

    #[verifier::spinoff_prover]
    proof fn lemma_payload_found(self, rest: Seq<u8>)
        requires
            self.last_will matches Some(will) ==> will.properties.block().len() <= MAX_VARINT,
            self.representable(),
        ensures
            payload_found(self.connect_flags(), self.payload() + rest) == Some(
                (
                    PayloadView {
                        client_id: self@.client_id,
                        last_will: self@.last_will,
                        username: self@.username,
                        password: self@.password,
                    },
                    rest,
                ),
            ),
    {
        reveal(payload_found);
        let password = optional_bytes(self.password) + rest;
        let username = optional_str_bytes(self.username) + password;
        let will = self.will_bytes() + username;
        lemma_regrouped(
            slice_bytes(self.client_id.spec_bytes()),
            self.will_bytes(),
            optional_str_bytes(self.username),
            optional_bytes(self.password),
            rest,
        );
        lemma_field_found(self.client_id.spec_bytes(), will);
        self.lemma_will_found(username);
        self.lemma_credentials_found(rest);
    }

    #[verifier::spinoff_prover]
    pub(crate) proof fn lemma_found(connect: Self, rest: Seq<u8>)
        requires
            connect.properties.block().len() <= MAX_VARINT,
            connect.last_will matches Some(will) ==> will.properties.block().len() <= MAX_VARINT,
            connect.representable(),
        ensures
            connect_found(connect.body() + rest) == Some((connect@, rest)),
    {
        let s = connect.body() + rest;
        let name = connect.protocol.name_bytes();
        let block = connect.properties.block();
        let after_block = connect.payload() + rest;
        let after_name = seq![connect.protocol.level(), connect.connect_flags()] + u16_bytes(
            connect.keep_alive,
        ) + properties_bytes(block) + after_block;
        lemma_short_name(connect.protocol);
        assert(s =~= slice_bytes(name) + after_name);
        lemma_field_found(name, after_name);
        law_u16_round_trip(connect.keep_alive);
        assert(after_name[2] == u16_bytes(connect.keep_alive)[0]);
        assert(after_name[3] == u16_bytes(connect.keep_alive)[1]);
        assert(after_name.skip(4) =~= properties_bytes(block) + after_block);
        lemma_block_found(block, after_block);
        connect.lemma_payload_found(rest);
        Self::law_each_flag_tells_one_thing(connect);
    }
}

/// Each version of the protocol is told by its number again, and no other number
/// is one.
pub proof fn law_protocol_levels(
    protocol: Protocol,
    level: u8,
    number: u8,
    res: Result<Protocol, Error>,
)
    requires
        call_ensures(<u8 as From<Protocol>>::from, (protocol,), level),
        call_ensures(<Protocol as TryFrom<u8>>::try_from, (number,), res),
    ensures
        protocol == Protocol::MQIsdp ==> level == 3,
        protocol == Protocol::MQTT311 ==> level == 4,
        protocol == Protocol::MQTT5 ==> level == 5,
        number == level ==> res == Ok::<Protocol, Error>(protocol),
        res is Ok <==> 3 <= number <= 5,
        res matches Err(e) ==> e == Error::UnsupportedPacket,
{
}

} // verus!
