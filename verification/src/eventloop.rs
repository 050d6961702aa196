//! An event loop for MQTT 3.1.1 that never blocks: what to do next, and the
//! buffer that packets are received into.
use vstd::prelude::*;
use vstd::string::StringSliceAdditionalSpecFns;

use crate::collections::ByteBuffer;
use crate::crate_config::RX_BUF_LEN;
use crate::encoding::encoder::frame;
use crate::encoding::error::Error as WireError;
use crate::encoding::packets::Protocol;
use crate::encoding::utils::{law_qos_numbers, qos_of_code, QoS};
use crate::encoding::v4::connect::{
    connect_readable, is_connect_readable, lemma_body_len, protocol_at, Connect, LastWill,
};
use crate::encoding::v4::decoder::{
    full_header_at, header_of, read_header, read_str, string_at, Header, PacketType,
};
use crate::encoding::v4::utils::Error;
use crate::encoding::wire::{
    law_u16_round_trip, law_varint_round_trip, lemma_varint_at_bounds, lemma_varint_size,
    read_varint_at, slice_bytes, u16_of, varint_at, varint_bytes, MAX_VARINT,
};
use crate::options::MqttOptions;
use crate::packet::lemma_varint_is_final;
use crate::pubsub::channel::splice;

verus! {

/// A packet of `mqttrs`, which the event loop hands on as it is.
#[verifier::external_type_specification]
#[verifier::external_body]
pub struct ExPacket<'a>(mqttrs::Packet<'a>);

/// Why a packet cannot be decoded.
#[derive(Debug, Clone, PartialEq, Eq)]
pub enum CodecError {
    /// Not enough space in the write buffer.
    WriteZero,
    /// Tried to encode or decode a ProcessIdentifier==0.
    InvalidPid,
    /// Tried to decode a QoS > 2.
    InvalidQos(u8),
    /// Tried to decode a ConnectReturnCode > 5.
    InvalidConnectReturnCode(u8),
    /// Tried to decode an unknown protocol.
    InvalidProtocol(String, u8),
    /// Tried to decode an invalid fixed header (packet type, flags, or remaining_length).
    InvalidHeader,
    /// Trying to encode/decode an invalid length.
    InvalidLength,
    /// Trying to decode a non-utf8 string.
    InvalidString,
    /// Catch-all error.
    Io,
}

/// Why a packet cannot be decoded, with a string as its characters.
pub ghost enum CodecFault {
    WriteZero,
    InvalidPid,
    InvalidQos(u8),
    InvalidConnectReturnCode(u8),
    InvalidProtocol(Seq<char>, u8),
    InvalidHeader,
    InvalidLength,
    InvalidString,
    Io,
}

impl View for CodecError {
    type V = CodecFault;

    open spec fn view(&self) -> CodecFault {
        match self {
            CodecError::WriteZero => CodecFault::WriteZero,
            CodecError::InvalidPid => CodecFault::InvalidPid,
            CodecError::InvalidQos(qos) => CodecFault::InvalidQos(*qos),
            CodecError::InvalidConnectReturnCode(code) => CodecFault::InvalidConnectReturnCode(
                *code,
            ),
            CodecError::InvalidProtocol(name, level) => CodecFault::InvalidProtocol(name@, *level),
            CodecError::InvalidHeader => CodecFault::InvalidHeader,
            CodecError::InvalidLength => CodecFault::InvalidLength,
            CodecError::InvalidString => CodecFault::InvalidString,
            CodecError::Io => CodecFault::Io,
        }
    }
}

/// A packet that the event loop sends on its own account.
pub enum Outgoing<'a> {
    Connect(Connect<'a>),
    Pingreq,
}

impl<'a> Outgoing<'a> {
    /// The whole packet.
    pub open spec fn wire(self) -> Seq<u8> {
        match self {
            Outgoing::Connect(connect) => connect.wire(),
            Outgoing::Pingreq => seq![0xc0, 0],
        }
    }

    /// Whether the packet is one of MQTT 3.1.1 whose length can be counted.
    pub open spec fn countable(self) -> bool {
        self matches Outgoing::Connect(connect) ==> connect.protocol == Protocol::MQTT311
            && connect.length() < usize::MAX
    }

    /// Why the packet cannot be encoded into a buffer of this length, if it
    /// cannot.
    pub open spec fn refusal(self, capacity: nat) -> Option<CodecFault> {
        match self {
            Outgoing::Connect(connect) => if connect.protocol != Protocol::MQTT311 {
                Some(
                    CodecFault::InvalidProtocol(
                        connect.protocol.name_view(),
                        connect.protocol.level(),
                    ),
                )
            } else if capacity <= connect.length() {
                Some(CodecFault::WriteZero)
            } else if connect.length() > MAX_VARINT {
                Some(CodecFault::InvalidLength)
            } else if capacity < self.wire().len() {
                Some(CodecFault::WriteZero)
            } else {
                None
            },
            Outgoing::Pingreq => if capacity < 2 {
                Some(CodecFault::WriteZero)
            } else {
                None
            },
        }
    }

    /// What is left in a buffer that the packet cannot be encoded into: at most
    /// the first byte of the packet has been written.
    pub open spec fn left_in(self, buf: Seq<u8>) -> Seq<u8> {
        match self {
            Outgoing::Connect(connect) => if connect.protocol == Protocol::MQTT311
                && connect.length() < buf.len() {
                buf.update(0, 0x10)
            } else {
                buf
            },
            Outgoing::Pingreq => buf,
        }
    }
}

/// Calls `mqttrs::encode_slice`, which writes the packet to the start of `buf`
/// and gives its length, or fails if there is not enough space for it or it is
/// too long. It looks for space for the packet without its length first, and
/// once more when it has written the first byte.
#[verifier::external_body]
pub(crate) fn encode_slice(packet: &Outgoing<'_>, buf: &mut [u8]) -> (res: Option<usize>)
    requires
        packet.countable(),
    ensures
        match res {
            Some(n) => {
                &&& packet.refusal(old(buf)@.len()) is None
                &&& n == packet.wire().len()
                &&& final(buf)@ == splice(old(buf)@, 0, packet.wire())
            },
            None => {
                &&& packet.refusal(old(buf)@.len()) is Some
                &&& final(buf)@ == packet.left_in(old(buf)@)
            },
        },
{
    let Outgoing::Connect(Connect { keep_alive, client_id, clean_session, last_will, username, password, .. }) = *packet
        else { return mqttrs::encode_slice(&mqttrs::Packet::Pingreq, buf).ok() };
    let last_will = match last_will {
        Some(LastWill { topic, message, qos, retain }) => Some(mqttrs::LastWill { topic, message, retain, qos: match qos {
            QoS::AtMostOnce => mqttrs::QoS::AtMostOnce,
            QoS::AtLeastOnce => mqttrs::QoS::AtLeastOnce,
            QoS::ExactlyOnce => mqttrs::QoS::ExactlyOnce,
        } }),
        None => None,
    };
    let connect = mqttrs::Connect { protocol: mqttrs::Protocol::MQTT311, keep_alive, client_id, clean_session, last_will, username, password };
    mqttrs::encode_slice(&mqttrs::Packet::Connect(connect), buf).ok()
}

/// Whether topic filters with their qualities of service fill the first `left`
/// bytes of `s`.
pub open spec fn topics_readable(s: Seq<u8>, left: int) -> bool
    decreases s.len(),
{
    left > 0 ==> (string_at(s) matches Ok(topic) ==> {
        let n = 2 + topic.len() as int;
        &&& n < s.len()
        &&& qos_of_code(s[n]) is Ok ==> topics_readable(s.skip(n + 1), left - n - 1)
    })
}

/// Whether `s` starts with the protocol of MQTT 5, which `mqttrs` refuses before
/// it reads on.
pub open spec fn names_mqtt5(s: Seq<u8>) -> bool {
    &&& string_at(s) matches Ok(name) && 2 + name.len() < s.len()
    &&& protocol_at(s) matches Ok((protocol, _)) && protocol == Protocol::MQTT5
}

/// Whether the body of a packet goes on for as long as its type demands.
pub open spec fn body_readable(typ: PacketType, qos: QoS, body: Seq<u8>, len: int) -> bool {
    match typ {
        PacketType::Connect => connect_readable(body) || names_mqtt5(body),
        PacketType::Publish => string_at(body) matches Ok(topic) ==> {
            let n = 2 + topic.len();
            if qos == QoS::AtMostOnce {
                n <= len
            } else {
                n + 2 <= body.len() && (u16_of(body[n as int], body[n as int + 1]) != 0 ==> n + 2
                    <= len)
            }
        },
        PacketType::Subscribe => body.len() >= 2 && (u16_of(body[0], body[1]) != 0
            ==> topics_readable(body.skip(2), len - 2)),
        PacketType::Pingreq | PacketType::Pingresp | PacketType::Disconnect => true,
        _ => body.len() >= 2,
    }
}

/// Whether the packet at the start of `s`, if all of it is there, is one whose
/// fields lie within `s`.
pub open spec fn decodable(s: Seq<u8>) -> bool {
    s.len() > 0 ==> (full_header_at(s) matches Ok(Some((header, n, len))) ==> body_readable(
        header.typ,
        header.qos,
        s.skip(n as int),
        len as int,
    ))
}

/// Returns whether topic filters fill the next `left` bytes.
fn are_topics_readable(buf: &[u8], offset: usize, left: usize) -> (res: bool)
    requires
        offset <= buf@.len(),
        left <= buf@.len() - offset,
    ensures
        res == topics_readable(buf@.skip(offset as int), left as int),
{
    let mut pos: usize = offset;
    let mut remaining: usize = left;
    while remaining > 0
        invariant
            pos <= buf@.len(),
            remaining <= buf@.len() - pos,
            topics_readable(buf@.skip(offset as int), left as int) == topics_readable(
                buf@.skip(pos as int),
                remaining as int,
            ),
        decreases remaining,
    {
        let ghost s = buf@.skip(pos as int);
        let before: usize = pos;
        if read_str(buf, &mut pos).is_err() {
            return true;
        }
        if pos >= buf.len() {
            return false;
        }
        let qos: u8 = buf[pos];
        let n: usize = pos - before;
        assert(s[n as int] == qos);
        if QoS::from_u8(qos).is_err() {
            return true;
        }
        pos = pos + 1;
        assert(s.skip(n as int + 1) =~= buf@.skip(pos as int));
        if remaining <= n {
            assert(topics_readable(buf@.skip(pos as int), remaining - n - 1));
            return true;
        }
        remaining = remaining - n - 1;
    }
    true
}

/// Returns whether the body of a packet at `offset` starts with the protocol of
/// MQTT 5.
fn is_mqtt5(buf: &[u8], offset: usize) -> (res: bool)
    requires
        offset <= buf@.len(),
    ensures
        res == names_mqtt5(buf@.skip(offset as int)),
{
    let mut pos: usize = offset;
    if read_str(buf, &mut pos).is_err() || pos >= buf.len() {
        return false;
    }
    let mut pos: usize = offset;
    match Protocol::from_buffer(buf, &mut pos) {
        Ok(protocol) => protocol == Protocol::MQTT5,
        Err(_) => false,
    }
}

/// Returns whether the body of a packet goes on for as long as its type
/// demands.
fn is_body_readable(typ: PacketType, qos: QoS, buf: &[u8], offset: usize, len: usize) -> (res: bool)
    requires
        offset <= buf@.len(),
        len <= buf@.len() - offset,
    ensures
        res == body_readable(typ, qos, buf@.skip(offset as int), len as int),
{
    let ghost body = buf@.skip(offset as int);
    let total: usize = buf.len() - offset;
    match typ {
        PacketType::Connect => is_connect_readable(buf, offset) || is_mqtt5(buf, offset),
        PacketType::Publish => {
            let mut pos: usize = offset;
            if read_str(buf, &mut pos).is_err() {
                return true;
            }
            let n: usize = pos - offset;
            match qos {
                QoS::AtMostOnce => n <= len,
                _ => {
                    if total - n < 2 {
                        return false;
                    }
                    assert(body[n as int] == buf@[pos as int]);
                    assert(body[n as int + 1] == buf@[pos as int + 1]);
                    (buf[pos] == 0 && buf[pos + 1] == 0) || (n <= len && len - n >= 2)
                },
            }
        },
        PacketType::Subscribe => {
            if total < 2 {
                return false;
            }
            assert(body.skip(2) =~= buf@.skip(offset as int + 2));
            if buf[offset] == 0 && buf[offset + 1] == 0 {
                return true;
            }
            if len < 2 {
                return true;
            }
            are_topics_readable(buf, offset + 2, len - 2)
        },
        PacketType::Pingreq | PacketType::Pingresp | PacketType::Disconnect => true,
        _ => total >= 2,
    }
}

/// Returns whether the packet at the start of `buf`, if all of it is there, is
/// one whose fields lie within `buf`.
pub fn is_decodable(buf: &[u8]) -> (res: bool)
    ensures
        res == decodable(buf@),
{
    let mut offset: usize = 0;
    assert(buf@.skip(0) =~= buf@);
    proof {
        lemma_varint_at_bounds(buf@.skip(1), 0);
    }
    match read_header(buf, &mut offset) {
        Ok(Some((header, len))) => is_body_readable(header.typ, header.qos, buf, offset, len),
        _ => true,
    }
}

/// Whether `s` does not hold the whole of the packet that it starts with.
pub open spec fn incomplete(s: Seq<u8>) -> bool {
    s.len() == 0 || full_header_at(s) == Ok::<Option<(Header, nat, nat)>, Error>(None)
}

/// What `mqttrs::decode_slice` makes of a buffer that starts with a whole
/// packet: the packet, or why it is malformed.
pub uninterp spec fn decoded(buf: Seq<u8>) -> Result<mqttrs::Packet<'static>, CodecFault>;

/// Whether decoding the packet at the start of `s` gives this result, where
/// `outcome` is what a whole packet gives.
pub open spec fn decodes_to(
    s: Seq<u8>,
    outcome: Result<mqttrs::Packet<'static>, CodecFault>,
    res: Result<Option<mqttrs::Packet<'_>>, CodecError>,
) -> bool {
    match res {
        Ok(None) => incomplete(s),
        Ok(Some(packet)) => !incomplete(s) && full_header_at(s) is Ok && outcome == Ok::<
            mqttrs::Packet<'static>,
            CodecFault,
        >(packet),
        Err(e) => !incomplete(s) && match full_header_at(s) {
            Err(Error::InvalidQos(qos)) => e@ == CodecFault::InvalidQos(qos),
            Err(_) => e@ == CodecFault::InvalidHeader,
            Ok(_) => outcome == Err::<mqttrs::Packet<'static>, CodecFault>(e@),
        },
    }
}

/// Calls `mqttrs::decode_slice`, which decodes the packet at the start of
/// `buf`, if all of it is there. It fails if the fixed header is malformed.
/// What it makes of the rest of the packet has a name only.
#[verifier::external_body]
pub(crate) fn decode_slice(buf: &[u8]) -> (res: Result<Option<mqttrs::Packet<'_>>, CodecError>)
    requires
        decodable(buf@),
    ensures
        decodes_to(buf@, decoded(buf@), res),
{
    mqttrs::decode_slice(buf).map_err(|e| match e {
        mqttrs::Error::WriteZero => CodecError::WriteZero,
        mqttrs::Error::InvalidPid => CodecError::InvalidPid,
        mqttrs::Error::InvalidQos(qos) => CodecError::InvalidQos(qos),
        mqttrs::Error::InvalidConnectReturnCode(code) => CodecError::InvalidConnectReturnCode(code),
        mqttrs::Error::InvalidProtocol(name, level) => CodecError::InvalidProtocol(name, level),
        mqttrs::Error::InvalidHeader => CodecError::InvalidHeader,
        mqttrs::Error::InvalidLength => CodecError::InvalidLength,
        mqttrs::Error::InvalidString(_) => CodecError::InvalidString,
        mqttrs::Error::IoError(_, _) => CodecError::Io,
    })
}

/// A placeholder that keeps a buffer and constructs a packet incrementally.
/// Given that the network never blocks, its packet construction won't block
/// either.
pub struct PacketBuffer {
    end: usize,
    buffer: ByteBuffer,
}

/// What a `PacketBuffer` holds.
#[verifier::ext_equal]
pub ghost struct BufferView {
    /// The bytes that have been received and not been decoded yet.
    pub received: Seq<u8>,
    /// The rest of the buffer.
    pub fresh: Seq<u8>,
}

/// A sequence of zeros.
pub open spec fn zeros(n: nat) -> Seq<u8> {
    Seq::new(n, |i: int| 0u8)
}

impl View for PacketBuffer {
    type V = BufferView;

    closed spec fn view(&self) -> BufferView {
        BufferView {
            received: self.buffer@.take(self.end as int),
            fresh: self.buffer@.skip(self.end as int),
        }
    }
}

/// The length of a packet, as the bytes behind its first one tell.
pub open spec fn packet_span(s: Seq<u8>) -> nat {
    match varint_at(s.skip(1), 0) {
        Ok((len, n)) => 1 + n + len,
        Err(_) => 0,
    }
}

impl PacketBuffer {
    /// Whether the buffer is well formed: all of it is there.
    pub closed spec fn wf(&self) -> bool {
        &&& self.buffer@.len() == RX_BUF_LEN
        &&& self.end <= RX_BUF_LEN
    }

    pub fn new() -> (buf: Self)
        ensures
            buf.wf(),
            buf@ == (BufferView { received: Seq::empty(), fresh: zeros(RX_BUF_LEN as nat) }),
    {
        let mut buf = PacketBuffer { end: 0, buffer: ByteBuffer::new() };
        buf.init();
        buf
    }

    /// Fills the buffer with all 0s
    pub fn init(&mut self)
        ensures
            final(self).wf(),
            final(self)@ == (BufferView {
                received: Seq::empty(),
                fresh: zeros(RX_BUF_LEN as nat),
            }),
    {
        self.end = 0;
        self.buffer.truncate(0);
        let _ = self.buffer.resize(RX_BUF_LEN, 0);
        assert(self@.received =~= Seq::<u8>::empty());
        assert(self@.fresh =~= zeros(RX_BUF_LEN as nat));
    }

    /// Returns a remaining fresh part of the buffer.
    pub fn buffer(&mut self) -> (fresh: &mut [u8])
        requires
            old(self).wf(),
        ensures
            fresh@ == old(self)@.fresh,
            final(fresh)@.len() == fresh@.len() ==> {
                &&& final(self).wf()
                &&& final(self)@ == (BufferView { fresh: final(fresh)@, ..old(self)@ })
            },
    {
        let ghost before = self.buffer@;
        let ghost end = self.end as int;
        proof {
            assert forall|head: Seq<u8>, tail: Seq<u8>|
                head.len() == end implies (#[trigger] (head + tail)).take(end) == head && (head
                + tail).skip(end) == tail by {
                assert((head + tail).take(end) =~= head);
                assert((head + tail).skip(end) =~= tail);
            }
        }
        let all: &mut [u8] = self.buffer.as_mut_slice();
        let (_, fresh) = all.split_at_mut(self.end);
        fresh
    }

    /// Takes note that `len` bytes were received into the fresh part of the
    /// buffer.
    pub fn receive(&mut self, len: usize)
        requires
            old(self).wf(),
            len <= old(self)@.fresh.len(),
        ensures
            final(self).wf(),
            final(self)@ == (BufferView {
                received: old(self)@.received + old(self)@.fresh.take(len as int),
                fresh: old(self)@.fresh.skip(len as int),
            }),
    {
        self.end = self.end + len;
        assert(self@.received =~= old(self)@.received + old(self)@.fresh.take(len as int));
        assert(self@.fresh =~= old(self)@.fresh.skip(len as int));
    }

    /// After decoding a packet, overwrite the used bytes by shifting the buffer
    /// by its length.
    pub fn rotate(&mut self, length: usize)
        requires
            old(self).wf(),
            length <= old(self)@.received.len(),
        ensures
            final(self).wf(),
            final(self)@ == (BufferView {
                received: old(self)@.received.skip(length as int),
                fresh: old(self)@.fresh + zeros(length as nat),
            }),
    {
        let ghost before = self.buffer@;
        let bytes: &mut [u8] = self.buffer.as_mut_slice();
        let mut i: usize = length;
        while i < RX_BUF_LEN
            invariant
                length <= i <= RX_BUF_LEN,
                bytes@.len() == RX_BUF_LEN == before.len(),
                forall|j: int| 0 <= j < i - length ==> bytes@[j] == before[j + length],
                forall|j: int| i <= j < RX_BUF_LEN ==> bytes@[j] == before[j],
            decreases RX_BUF_LEN - i,
        {
            let byte: u8 = bytes[i];
            bytes[i - length] = byte;
            i = i + 1;
        }
        self.end = self.end - length;
        self.buffer.truncate(RX_BUF_LEN - length);
        let _ = self.buffer.resize(RX_BUF_LEN, 0);
        assert(self@.received =~= old(self)@.received.skip(length as int));
        assert(self@.fresh =~= old(self)@.fresh + zeros(length as nat));
    }

    /// Returns whether the packet that has been received, if all of it has
    /// been, is one whose fields lie within what has been received.
    pub fn is_decodable(&self) -> (res: bool)
        requires
            self.wf(),
        ensures
            res == decodable(self@.received),
    {
        let received: &[u8] = vstd::slice::slice_subrange(self.buffer.as_slice(), 0, self.end);
        assert(received@ =~= self@.received);
        is_decodable(received)
    }

    /// Decodes the packet that has been received, if all of it has been.
    pub fn decode(&self) -> (res: Result<Option<mqttrs::Packet<'_>>, CodecError>)
        requires
            self.wf(),
            decodable(self@.received),
        ensures
            decodes_to(self@.received, decoded(self@.received), res),
            res is Ok && res->Ok_0 is Some ==> 2 <= packet_span(self@.received)
                <= self@.received.len(),
    {
        let received: &[u8] = vstd::slice::slice_subrange(self.buffer.as_slice(), 0, self.end);
        assert(received@ =~= self@.received);
        proof {
            lemma_varint_at_bounds(received@.skip(1), 0);
        }
        decode_slice(received)
    }

    /// Returns the length of the packet at the start of the buffer.
    pub fn packet_length(&self) -> (len: usize)
        requires
            self.wf(),
            2 <= packet_span(self@.received) <= self@.received.len(),
        ensures
            len == packet_span(self@.received),
    {
        let received: &[u8] = vstd::slice::slice_subrange(self.buffer.as_slice(), 0, self.end);
        assert(received@ =~= self@.received);
        match read_varint_at(received, 1) {
            Ok((len, n)) => 1 + n + len,
            Err(_) => 0,
        }
    }

    /// Cleans up after an attempt to decode a packet: all of the buffer if the
    /// packet was malformed, what the packet took if there was one, and nothing
    /// if it is not complete yet.
    pub fn clean_up(&mut self, is_err: Option<bool>)
        requires
            old(self).wf(),
            is_err == Some(false) ==> 2 <= packet_span(old(self)@.received)
                <= old(self)@.received.len(),
        ensures
            final(self).wf(),
            final(self)@ == match is_err {
                None => old(self)@,
                Some(true) => BufferView {
                    received: Seq::empty(),
                    fresh: zeros(RX_BUF_LEN as nat),
                },
                Some(false) => BufferView {
                    received: old(self)@.received.skip(packet_span(old(self)@.received) as int),
                    fresh: old(self)@.fresh + zeros(packet_span(old(self)@.received)),
                },
            },
    {
        if let Some(is_err) = is_err {
            if is_err {
                self.init();
            } else {
                let length: usize = self.packet_length();
                self.rotate(length);
            }
        }
    }
}

/// How far the connection to the broker has come.
#[derive(Debug, Clone, Copy, PartialEq, Eq, Structural)]
pub enum MqttConnectionStatus {
    Handshake,
    Connected,
    Disconnected,
}

/// Errors of the network.
#[derive(Debug, Clone, Copy, PartialEq, Eq, Structural)]
pub enum NetworkError {
    Read,
    Write,
    NoSocket,
    SocketOpen,
    SocketConnect,
    SocketClosed,
    DnsLookupFailed,
}

/// Errors of the event loop.
#[derive(Debug, Clone, PartialEq, Eq)]
pub enum EventError {
    Encoding(CodecError),
    Network(NetworkError),
    Timeout,
}

/// Current state of the connection
pub struct MqttState {
    pub connection_status: MqttConnectionStatus,
    /// Whether a ping has yet to be answered
    pub await_pingresp: bool,
    /// The number of publications that have yet to be acknowledged
    pub outgoing_pub: usize,
}

/// The request that is handled next, if there is any.
#[derive(Debug, Clone, Copy, PartialEq, Eq, Structural)]
pub enum NextRequest {
    Nothing,
    Publish(QoS),
    Other,
}

/// What the event loop does next.
#[derive(Debug, Clone, Copy, PartialEq, Eq, Structural)]
pub enum Selection {
    /// Handle a request.
    Request,
    /// Handle keepalive ping.
    Ping,
    /// Handle an incoming packet.
    Receive,
}

/// What has been found out about the network.
#[derive(Debug, Clone, Copy, PartialEq, Eq, Structural)]
pub enum NetworkEvent {
    /// The network is to be connected. `socket` tells whether there is a
    /// socket, and if so, whether it is connected, as far as it can tell.
    Start { socket: Option<Option<bool>> },
    /// Whether a socket could be opened.
    Opened(bool),
    /// Whether the address of the broker could be looked up.
    LookedUp(bool),
    /// Whether the socket could be connected.
    Connected(bool),
}

/// What is to be done to connect the network.
#[derive(Debug, Clone, Copy, PartialEq, Eq, Structural)]
pub enum NetworkAction {
    /// Nothing, the network is connected.
    Done,
    /// Open a socket.
    Open,
    /// Look the address of the broker up.
    LookUp,
    /// Connect the socket.
    Connect,
    /// Give up.
    Fail(NetworkError),
    /// Drop the socket, and give up.
    Drop(NetworkError),
    /// Close the socket, and give up.
    Close(NetworkError),
}

/// What has happened while the connection to the broker is made.
pub enum ConnectEvent {
    /// The connection is to be made. `timed_out` tells whether the timer has
    /// run out.
    Start { timed_out: bool },
    /// Whether the request to connect could be sent.
    Sent(Result<(), EventError>),
    /// What has been received: `Ok(None)` if nothing that matters, `Ok(Some(..))`
    /// if something, and whether it is the acceptance of the connection.
    Received(Result<Option<bool>, EventError>),
    /// Nothing has been received yet.
    Pending,
}

/// What is to be done to make the connection to the broker.
pub enum ConnectAction<'b> {
    /// Nothing. Whether the connection has just been made.
    Done(bool),
    /// Send the request to connect.
    Send(Connect<'b>),
    /// Start the timer with this many milliseconds, and try again later.
    StartTimer(u32),
    /// Receive what the broker has sent.
    Receive,
    /// Try again later.
    WouldBlock,
    /// Close the socket, and give up.
    Close(EventError),
}

/// How long the broker may take to answer the request to connect, in
/// milliseconds.
pub const HANDSHAKE_TIMEOUT_MS: u32 = 50000;

/// How long the event loop waits after it has sent a packet while it is not
/// connected, in milliseconds.
pub const DISCONNECTED_TIMEOUT_MS: u32 = 5000;

pub struct EventLoop<'b> {
    /// Current state of the connection
    pub state: MqttState,
    /// Options of the current mqtt connection
    pub options: MqttOptions<'b>,
    pub rx_buf: PacketBuffer,
}

/// The request to connect that the options ask for.
pub open spec fn connect_request<'b>(options: MqttOptions<'b>) -> Connect<'b> {
    Connect {
        protocol: Protocol::MQTT311,
        keep_alive: (options@.keep_alive_ms / 1000) as u16,
        client_id: options@.client_id,
        clean_session: options@.clean_session,
        last_will: options@.last_will,
        username: match options@.credentials {
            Some((username, _)) => Some(username),
            None => None,
        },
        password: match options@.credentials {
            Some((_, password)) => Some(password),
            None => None,
        },
    }
}

impl<'b> EventLoop<'b> {
    pub fn new(options: MqttOptions<'b>) -> (event_loop: Self)
        ensures
            event_loop.options == options,
            event_loop.state.connection_status == MqttConnectionStatus::Disconnected,
            !event_loop.state.await_pingresp,
            event_loop.state.outgoing_pub == 0,
            event_loop.rx_buf.wf(),
            event_loop.rx_buf@.received == Seq::<u8>::empty(),
    {
        EventLoop {
            state: MqttState {
                connection_status: MqttConnectionStatus::Disconnected,
                await_pingresp: false,
                outgoing_pub: 0,
            },
            options,
            rx_buf: PacketBuffer::new(),
        }
    }

    /// Returns whether the next request is to be handled now. A publication
    /// that is not acknowledged always is. Everything else has to wait while too
    /// many publications have yet to be acknowledged.
    pub fn should_handle_request(&self, next: NextRequest) -> (res: bool)
        ensures
            res == match next {
                NextRequest::Nothing => false,
                NextRequest::Publish(QoS::AtMostOnce) => true,
                _ => self.state.outgoing_pub < self.options@.inflight,
            },
    {
        let qos_space: bool = self.state.outgoing_pub < self.options.inflight();
        match next {
            NextRequest::Nothing => false,
            NextRequest::Publish(QoS::AtMostOnce) => true,
            _ => qos_space,
        }
    }

    /// Selects an event from the client's requests, incoming packets from the
    /// broker and keepalive ping cycle.
    pub fn select_event(&self, next: NextRequest, timed_out: bool) -> (selection: Selection)
        ensures
            selection == if next == NextRequest::Publish(QoS::AtMostOnce) || (next
                != NextRequest::Nothing && self.state.outgoing_pub < self.options@.inflight) {
                Selection::Request
            } else if timed_out {
                Selection::Ping
            } else {
                Selection::Receive
            },
    {
        if self.should_handle_request(next) {
            Selection::Request
        } else if timed_out {
            Selection::Ping
        } else {
            Selection::Receive
        }
    }

    /// Encodes a packet for being sent.
    pub fn encode(packet: &Outgoing<'_>, buf: &mut [u8]) -> (res: Result<usize, EventError>)
        ensures
            match (res, packet.refusal(old(buf)@.len())) {
                (Ok(n), None) => {
                    &&& n == packet.wire().len()
                    &&& n <= old(buf)@.len()
                    &&& final(buf)@ == splice(old(buf)@, 0, packet.wire())
                },
                (Err(EventError::Encoding(e)), Some(fault)) => {
                    &&& e@ == fault
                    &&& final(buf)@ == packet.left_in(old(buf)@)
                },
                _ => false,
            },
    {
        let capacity: usize = buf.len();
        let mut fault: CodecError = CodecError::WriteZero;
        if let Outgoing::Connect(connect) = packet {
            if connect.protocol != Protocol::MQTT311 {
                let name: String = connect.protocol.name().to_owned();
                let level: u8 = u8::from(connect.protocol);
                return Err(EventError::Encoding(CodecError::InvalidProtocol(name, level)));
            }
            let length: u128 = connect.wide_len();
            if length >= usize::MAX as u128 {
                return Err(EventError::Encoding(fault));
            }
            if length > MAX_VARINT as u128 && length < capacity as u128 {
                fault = CodecError::InvalidLength;
            }
        }
        match encode_slice(packet, buf) {
            Some(n) => Ok(n),
            None => Err(EventError::Encoding(fault)),
        }
    }

    /// Returns how long the connection may be idle after a packet has been
    /// sent, in milliseconds.
    pub fn idle_timeout_ms(&self) -> (ms: u32)
        ensures
            ms == if self.state.connection_status == MqttConnectionStatus::Disconnected {
                DISCONNECTED_TIMEOUT_MS
            } else {
                self.options@.keep_alive_ms
            },
    {
        match self.state.connection_status {
            MqttConnectionStatus::Disconnected => DISCONNECTED_TIMEOUT_MS,
            _ => self.options.keep_alive_ms(),
        }
    }

    /// Takes note that the connection is closed.
    pub fn disconnect(&mut self)
        ensures
            *final(self) == (EventLoop {
                state: MqttState {
                    connection_status: MqttConnectionStatus::Disconnected,
                    ..old(self).state
                },
                ..*old(self)
            }),
    {
        self.state.connection_status = MqttConnectionStatus::Disconnected;
    }

    /// Decides what to do next to connect the network.
    pub fn network_connect(&mut self, event: NetworkEvent) -> (action: NetworkAction)
        ensures
            final(self).options == old(self).options,
            final(self).rx_buf == old(self).rx_buf,
            final(self).state == (MqttState {
                connection_status: if action == NetworkAction::Open
                    || event == NetworkEvent::LookedUp(false) {
                    MqttConnectionStatus::Disconnected
                } else {
                    old(self).state.connection_status
                },
                ..old(self).state
            }),
            action == match event {
                NetworkEvent::Start { socket: Some(Some(true)) } => NetworkAction::Done,
                NetworkEvent::Start { socket: Some(None) } => NetworkAction::Drop(
                    NetworkError::SocketClosed,
                ),
                NetworkEvent::Start { .. } => NetworkAction::Open,
                NetworkEvent::Opened(true) => NetworkAction::LookUp,
                NetworkEvent::Opened(false) => NetworkAction::Fail(NetworkError::SocketOpen),
                NetworkEvent::LookedUp(true) => NetworkAction::Connect,
                // Make sure to cleanup socket, in case we fail DNS lookup for some reason
                NetworkEvent::LookedUp(false) => NetworkAction::Close(
                    NetworkError::DnsLookupFailed,
                ),
                NetworkEvent::Connected(true) => NetworkAction::Done,
                NetworkEvent::Connected(false) => NetworkAction::Fail(NetworkError::SocketConnect),
            },
    {
        match event {
            NetworkEvent::Start { socket } => match socket {
                Some(Some(true)) => NetworkAction::Done,
                Some(None) => NetworkAction::Drop(NetworkError::SocketClosed),
                _ => {
                    self.state.connection_status = MqttConnectionStatus::Disconnected;
                    NetworkAction::Open
                },
            },
            NetworkEvent::Opened(opened) => if opened {
                NetworkAction::LookUp
            } else {
                NetworkAction::Fail(NetworkError::SocketOpen)
            },
            NetworkEvent::LookedUp(found) => if found {
                NetworkAction::Connect
            } else {
                self.disconnect();
                NetworkAction::Close(NetworkError::DnsLookupFailed)
            },
            NetworkEvent::Connected(connected) => if connected {
                NetworkAction::Done
            } else {
                NetworkAction::Fail(NetworkError::SocketConnect)
            },
        }
    }

    /// Decides what to do next to make the connection to the broker.
    pub fn mqtt_connect(&mut self, event: ConnectEvent) -> (action: ConnectAction<'b>)
        ensures
            final(self).options == old(self).options,
            final(self).rx_buf == old(self).rx_buf,
            after_connect(old(self).state, old(self).options, event, final(self).state, action),
    {
        match event {
            ConnectEvent::Start { timed_out } => match self.state.connection_status {
                MqttConnectionStatus::Connected => ConnectAction::Done(false),
                MqttConnectionStatus::Disconnected => {
                    self.state.await_pingresp = false;
                    self.state.outgoing_pub = 0;
                    let (username, password) = self.options.credentials();
                    let keep_alive: u16 = (#[verifier::truncate] (
                    (self.options.keep_alive_ms() / 1000) as u16));
                    ConnectAction::Send(
                        Connect {
                            protocol: Protocol::MQTT311,
                            keep_alive,
                            client_id: self.options.client_id(),
                            clean_session: self.options.clean_session(),
                            last_will: self.options.last_will(),
                            username,
                            password,
                        },
                    )
                },
                MqttConnectionStatus::Handshake => if timed_out {
                    self.disconnect();
                    ConnectAction::Close(EventError::Timeout)
                } else {
                    ConnectAction::Receive
                },
            },
            ConnectEvent::Sent(sent) => match sent {
                Ok(_) => {
                    self.state.connection_status = MqttConnectionStatus::Handshake;
                    ConnectAction::StartTimer(HANDSHAKE_TIMEOUT_MS)
                },
                Err(e) => {
                    self.disconnect();
                    ConnectAction::Close(e)
                },
            },
            ConnectEvent::Received(received) => match received {
                Ok(None) => ConnectAction::WouldBlock,
                Ok(Some(accepted)) => {
                    if accepted {
                        self.state.connection_status = MqttConnectionStatus::Connected;
                    }
                    ConnectAction::Done(accepted)
                },
                Err(e) => {
                    self.disconnect();
                    ConnectAction::Close(e)
                },
            },
            ConnectEvent::Pending => ConnectAction::WouldBlock,
        }
    }
}

/// What an event changes while the connection to the broker is made, and what
/// is to be done about it.
pub open spec fn after_connect<'b>(
    state: MqttState,
    options: MqttOptions<'b>,
    event: ConnectEvent,
    after: MqttState,
    action: ConnectAction<'b>,
) -> bool {
    let closed = MqttState { connection_status: MqttConnectionStatus::Disconnected, ..state };
    match event {
        ConnectEvent::Start { timed_out } => match state.connection_status {
            MqttConnectionStatus::Connected => after == state && action
                == ConnectAction::<'b>::Done(false),
            MqttConnectionStatus::Disconnected => {
                &&& after == (MqttState { await_pingresp: false, outgoing_pub: 0, ..state })
                &&& action == ConnectAction::Send(connect_request(options))
            },
            MqttConnectionStatus::Handshake => if timed_out {
                after == closed && action == ConnectAction::<'b>::Close(EventError::Timeout)
            } else {
                after == state && action is Receive
            },
        },
        ConnectEvent::Sent(Ok(_)) => {
            &&& after == (MqttState {
                connection_status: MqttConnectionStatus::Handshake,
                ..state
            })
            &&& action == ConnectAction::<'b>::StartTimer(HANDSHAKE_TIMEOUT_MS)
        },
        ConnectEvent::Received(Ok(Some(accepted))) => {
            &&& after == if accepted {
                MqttState { connection_status: MqttConnectionStatus::Connected, ..state }
            } else {
                state
            }
            &&& action == ConnectAction::<'b>::Done(accepted)
        },
        ConnectEvent::Received(Ok(None)) | ConnectEvent::Pending => after == state
            && action is WouldBlock,
        ConnectEvent::Sent(Err(e)) | ConnectEvent::Received(Err(e)) => after == closed && action
            == ConnectAction::<'b>::Close(e),
    }
}

/// Cleaning up after a packet leaves what was received after it, whatever that
/// is.
pub proof fn law_packets_are_received_in_order(first: Seq<u8>, second: Seq<u8>)
    requires
        2 <= packet_span(first) == first.len(),
    ensures
        packet_span(first + second) == first.len(),
        (first + second).skip(packet_span(first + second) as int) == second,
{
    assert((first + second).skip(1) =~= first.skip(1) + second);
    lemma_varint_is_final(first.skip(1), second, 0);
    assert((first + second).skip(first.len() as int) =~= second);
}

/// A packet takes its first byte, its length and as many bytes as that says. It
/// is complete if and only if all of them have been received, whatever follows.
pub proof fn law_packets_are_complete_at_their_end(
    first: u8,
    body: Seq<u8>,
    rest: Seq<u8>,
    n: int,
)
    requires
        body.len() <= MAX_VARINT,
        0 <= n <= frame(first, body).len() + rest.len(),
        header_of(first) is Ok,
    ensures
        ({
            let s = (frame(first, body) + rest).take(n);
            &&& incomplete(s) <==> n < frame(first, body).len()
            &&& !incomplete(s) ==> packet_span(s) == frame(first, body).len()
        }),
{
    let wire = frame(first, body) + rest;
    let s = wire.take(n);
    let len = varint_bytes(body.len());
    lemma_varint_size(body.len());
    if n > 0 {
        assert(s[0] == first);
        let m = 1 + len.len() as int;
        if n >= m {
            let tail = s.skip(m);
            assert(s.skip(1) =~= len + tail);
            law_varint_round_trip(body.len(), tail);
        } else {
            let given = s.skip(1);
            let missing = len.skip(n - 1) + (body + rest);
            law_varint_round_trip(body.len(), body + rest);
            assert(given + missing =~= len + (body + rest));
            if varint_at(given, 0) != Err::<(nat, nat), WireError>(WireError::InsufficientBytes) {
                lemma_varint_is_final(given, missing, 0);
                lemma_varint_at_bounds(given, 0);
            }
        }
    }
}

/// A packet whose fields are looked at beyond its end is one of few kinds: one
/// with a packet identifier and no room for it, a PUBLISH packet whose topic or
/// packet identifier goes beyond it, a SUBSCRIBE packet that ends within a topic
/// filter, and a CONNECT packet that ends before its keep alive interval.
pub proof fn law_decodable_packets(s: Seq<u8>)
    ensures
        incomplete(s) ==> decodable(s),
        full_header_at(s) is Err ==> decodable(s),
        s.len() > 0 ==> (full_header_at(s) matches Ok(Some((header, n, len))) ==> {
            let body = s.skip(n as int);
            let topic = string_at(body);
            let m = 2 + topic->Ok_0.len() as int;
            match header.typ {
                PacketType::Pingreq | PacketType::Pingresp | PacketType::Disconnect => decodable(s),
                PacketType::Connack
                | PacketType::Puback
                | PacketType::Pubrec
                | PacketType::Pubrel
                | PacketType::Pubcomp
                | PacketType::Suback
                | PacketType::Unsubscribe
                | PacketType::Unsuback => decodable(s) <==> s.len() >= n + 2,
                PacketType::Publish => {
                    &&& topic is Err ==> decodable(s)
                    &&& topic is Ok && header.qos == QoS::AtMostOnce ==> (decodable(s) <==> m
                        <= len)
                    &&& topic is Ok && header.qos != QoS::AtMostOnce ==> (decodable(s) <==> m + 2
                        <= body.len() && (m + 2 <= len || (body[m] == 0 && body[m + 1] == 0)))
                },
                PacketType::Subscribe => {
                    &&& body.len() < 2 ==> !decodable(s)
                    &&& body.len() >= 2 && body[0] == 0 && body[1] == 0 ==> decodable(s)
                    &&& body.len() >= 2 && (body[0] != 0 || body[1] != 0) ==> (decodable(s)
                        <==> topics_readable(body.skip(2), len - 2))
                },
                PacketType::Connect => {
                    &&& topic is Err ==> decodable(s)
                    &&& topic is Ok && body.len() <= m ==> !decodable(s)
                    &&& topic is Ok && body.len() >= m + 4 ==> decodable(s)
                    &&& topic is Ok && m < body.len() < m + 4 ==> (decodable(s) <==> protocol_at(
                        body,
                    ) is Err || protocol_at(body)->Ok_0.0 == Protocol::MQTT5)
                },
            }
        }),
{
}

/// Topic filters are looked at one by one, each with its quality of service
/// behind it, until nothing is left or one of them cannot be read. Only that a
/// quality of service is missing goes beyond the bytes.
pub proof fn law_topics_are_looked_at_one_by_one(s: Seq<u8>, left: int, topic: Seq<u8>, qos: u8)
    requires
        topic.len() <= 0xffff,
        vstd::utf8::valid_utf8(topic),
    ensures
        left <= 0 ==> topics_readable(s, left),
        string_at(s) is Err ==> topics_readable(s, left),
        left > 0 ==> !topics_readable(slice_bytes(topic), left),
        left > 0 && qos <= 2 ==> topics_readable(slice_bytes(topic) + seq![qos] + s, left)
            == topics_readable(s, left - 3 - topic.len()),
        qos > 2 ==> topics_readable(slice_bytes(topic) + seq![qos] + s, left),
{
    let all = slice_bytes(topic) + seq![qos] + s;
    let n = 2 + topic.len() as int;
    law_u16_round_trip(topic.len() as u16);
    assert(all.subrange(2, n) =~= topic);
    assert(slice_bytes(topic).subrange(2, n) =~= topic);
    assert(all.skip(n + 1) =~= s);
    assert(all[n] == qos);
    law_qos_numbers(QoS::AtMostOnce, qos);
}

/// What is encoded stands at the start of the buffer and the rest of that is as
/// it was. A ping is two bytes. A CONNECT packet is one of MQTT 3.1.1, and
/// starts with 0x10 and its length.
pub proof fn law_encode(
    packet: &Outgoing<'_>,
    buf: &mut [u8],
    res: Result<usize, EventError>,
    i: int,
)
    requires
        call_ensures(EventLoop::encode, (packet, buf), res),
        0 <= i < old(buf)@.len(),
    ensures
        final(buf)@.len() == old(buf)@.len(),
        packet is Pingreq ==> (res is Ok <==> old(buf)@.len() >= 2),
        packet is Pingreq && res is Ok ==> {
            &&& res->Ok_0 == 2
            &&& final(buf)@.subrange(0, 2) == seq![0xc0u8, 0]
            &&& i >= 2 ==> final(buf)@[i] == old(buf)@[i]
        },
        packet is Pingreq && res is Err ==> (res->Err_0 matches EventError::Encoding(e) && e
            is WriteZero) && final(buf)@ == old(buf)@,
        *packet matches Outgoing::Connect(connect) ==> {
            let header = 1 + varint_bytes(connect.length()).len() as int;
            let total = header + connect.length();
            &&& res is Ok <==> connect.protocol == Protocol::MQTT311 && connect.length()
                <= 268435455 && total <= old(buf)@.len()
            &&& res is Ok ==> {
                &&& res->Ok_0 == total
                &&& final(buf)@[0] == 0x10
                &&& final(buf)@.subrange(1, header) == varint_bytes(connect.length())
                &&& final(buf)@.subrange(header, total) == connect.body()
                &&& i >= total ==> final(buf)@[i] == old(buf)@[i]
            }
            &&& res matches Err(e) ==> (e matches EventError::Encoding(fault) && match fault {
                CodecError::InvalidProtocol(name, level) => {
                    &&& connect.protocol != Protocol::MQTT311
                    &&& name@ == connect.protocol.name_view()
                    &&& level == connect.protocol.level()
                },
                CodecError::InvalidLength => connect.protocol == Protocol::MQTT311
                    && connect.length() > 268435455 && connect.length() < old(buf)@.len(),
                CodecError::WriteZero => connect.protocol == Protocol::MQTT311 && old(buf)@.len()
                    < total && (connect.length() <= 268435455 || old(buf)@.len()
                    <= connect.length()),
                _ => false,
            })
            &&& res is Err && i > 0 ==> final(buf)@[i] == old(buf)@[i]
        },
{
    match *packet {
        Outgoing::Pingreq => {
            if res is Ok {
                assert(final(buf)@.subrange(0, 2) =~= seq![0xc0u8, 0]);
            }
        },
        Outgoing::Connect(connect) => {
            let header = 1 + varint_bytes(connect.length()).len() as int;
            if connect.protocol == Protocol::MQTT311 {
                lemma_body_len(connect);
                if res is Ok {
                    let wire = connect.wire();
                    assert(final(buf)@.subrange(1, header) =~= varint_bytes(connect.length()));
                    assert(final(buf)@.subrange(header, wire.len() as int) =~= connect.body());
                }
            }
        },
    }
}

/// What is received goes behind what was received before, and what has been
/// decoded leaves. No other byte that was received is lost or moves past
/// another. After a malformed packet all of them are dropped.
pub proof fn law_received_bytes_stay_in_order(
    buffer: &mut PacketBuffer,
    len: usize,
    other: &mut PacketBuffer,
    is_err: Option<bool>,
)
    requires
        old(buffer).wf(),
        len <= old(buffer)@.fresh.len(),
        call_ensures(PacketBuffer::receive, (buffer, len), ()),
        old(other).wf(),
        is_err == Some(false) ==> 2 <= packet_span(old(other)@.received)
            <= old(other)@.received.len(),
        call_ensures(PacketBuffer::clean_up, (other, is_err), ()),
    ensures
        final(buffer)@.received + final(buffer)@.fresh == old(buffer)@.received + old(
            buffer,
        )@.fresh,
        final(buffer)@.received.len() == old(buffer)@.received.len() + len,
        is_err is None ==> final(other)@ == old(other)@,
        is_err == Some(true) ==> final(other)@.received.len() == 0,
        is_err == Some(false) ==> old(other)@.received == old(other)@.received.take(
            packet_span(old(other)@.received) as int,
        ) + final(other)@.received,
        final(other)@.received.len() + final(other)@.fresh.len() == old(other)@.received.len()
            + old(other)@.fresh.len() || final(other)@.fresh.len() == RX_BUF_LEN,
{
    assert(final(buffer)@.received + final(buffer)@.fresh =~= old(buffer)@.received + old(
        buffer,
    )@.fresh);
    if is_err == Some(false) {
        assert(old(other)@.received =~= old(other)@.received.take(
            packet_span(old(other)@.received) as int,
        ) + final(other)@.received);
    }
}

/// A publication that is not acknowledged is always handled at once. Any other
/// request waits while as many publications as the options allow have yet to be
/// acknowledged. Without a request to handle the connection is pinged if the
/// timer has run out, and else something is received.
pub proof fn law_select_event<'b>(
    event_loop: &EventLoop<'b>,
    next: NextRequest,
    timed_out: bool,
    handled: bool,
    selection: Selection,
)
    requires
        call_ensures(EventLoop::<'b>::should_handle_request, (event_loop, next), handled),
        call_ensures(EventLoop::<'b>::select_event, (event_loop, next, timed_out), selection),
    ensures
        selection is Request <==> handled,
        selection is Ping <==> !handled && timed_out,
        selection is Receive <==> !handled && !timed_out,
        handled ==> next !is Nothing,
        next == NextRequest::Publish(QoS::AtMostOnce) ==> handled,
        next !is Nothing && event_loop.state.outgoing_pub < event_loop.options@.inflight
            ==> handled,
        handled && event_loop.state.outgoing_pub >= event_loop.options@.inflight ==> next
            == NextRequest::Publish(QoS::AtMostOnce),
{
}

/// The connection may be idle for as long as the options say, but only for five
/// seconds while it is not made.
pub proof fn law_idle_timeout<'b>(event_loop: &EventLoop<'b>, ms: u32)
    requires
        call_ensures(EventLoop::<'b>::idle_timeout_ms, (event_loop,), ms),
    ensures
        event_loop.state.connection_status is Disconnected ==> ms == 5000,
        !(event_loop.state.connection_status is Disconnected) ==> ms
            == event_loop.options@.keep_alive_ms,
{
}

/// The network is connected by opening a socket, looking the address of the
/// broker up and connecting the socket, in that order, and each step that fails
/// has its error. A socket that is connected is left alone, and one that cannot
/// tell is dropped. Making a new socket ends the connection to the broker, as
/// does closing one.
pub proof fn law_network_connect<'b>(
    event_loop: &mut EventLoop<'b>,
    event: NetworkEvent,
    action: NetworkAction,
)
    requires
        call_ensures(EventLoop::<'b>::network_connect, (event_loop, event), action),
    ensures
        action is Done <==> event == (NetworkEvent::Start { socket: Some(Some(true)) }) || event
            == NetworkEvent::Connected(true),
        action is Open <==> event == (NetworkEvent::Start { socket: None }) || event == (
        NetworkEvent::Start { socket: Some(Some(false)) }),
        action is LookUp <==> event == NetworkEvent::Opened(true),
        action is Connect <==> event == NetworkEvent::LookedUp(true),
        event == (NetworkEvent::Start { socket: Some(None) }) <==> action == NetworkAction::Drop(
            NetworkError::SocketClosed,
        ),
        event == NetworkEvent::Opened(false) <==> action == NetworkAction::Fail(
            NetworkError::SocketOpen,
        ),
        event == NetworkEvent::LookedUp(false) <==> action == NetworkAction::Close(
            NetworkError::DnsLookupFailed,
        ),
        event == NetworkEvent::Connected(false) <==> action == NetworkAction::Fail(
            NetworkError::SocketConnect,
        ),
        action is Open || action is Close ==> final(event_loop).state.connection_status
            is Disconnected,
        !(action is Open || action is Close) ==> final(event_loop).state.connection_status == old(
            event_loop,
        ).state.connection_status,
        final(event_loop).state.await_pingresp == old(event_loop).state.await_pingresp,
        final(event_loop).state.outgoing_pub == old(event_loop).state.outgoing_pub,
        final(event_loop).options == old(event_loop).options,
        final(event_loop).rx_buf == old(event_loop).rx_buf,
{
}

/// While there is no connection a CONNECT packet is sent that says what the
/// options say, and pings and publications that were not answered are forgotten.
pub proof fn law_connecting_starts_over<'b>(
    event_loop: &mut EventLoop<'b>,
    timed_out: bool,
    action: ConnectAction<'b>,
)
    requires
        call_ensures(
            EventLoop::<'b>::mqtt_connect,
            (event_loop, ConnectEvent::Start { timed_out }),
            action,
        ),
    ensures
        action is Send <==> old(event_loop).state.connection_status is Disconnected,
        action matches ConnectAction::Send(connect) ==> {
            let options = old(event_loop).options@;
            &&& connect.protocol == Protocol::MQTT311
            &&& connect.client_id == options.client_id
            &&& connect.clean_session == options.clean_session
            &&& connect.last_will == options.last_will
            &&& options.credentials is None ==> connect.username is None && connect.password is None
            &&& options.credentials matches Some((username, password)) ==> connect.username == Some(
                username,
            ) && connect.password == Some(password)
            &&& options.keep_alive_ms < 65536000 ==> 1000 * connect.keep_alive
                <= options.keep_alive_ms < 1000 * (connect.keep_alive + 1)
            &&& !final(event_loop).state.await_pingresp
            &&& final(event_loop).state.outgoing_pub == 0
            &&& final(event_loop).state.connection_status is Disconnected
        },
        old(event_loop).state.connection_status is Connected ==> {
            &&& action matches ConnectAction::Done(made) && !made
            &&& final(event_loop).state == old(event_loop).state
        },
        old(event_loop).state.connection_status is Handshake && !timed_out ==> {
            &&& action is Receive
            &&& final(event_loop).state == old(event_loop).state
        },
        old(event_loop).state.connection_status is Handshake && timed_out ==> {
            &&& action matches ConnectAction::Close(e) && e is Timeout
            &&& final(event_loop).state.connection_status is Disconnected
            &&& final(event_loop).state.await_pingresp == old(event_loop).state.await_pingresp
            &&& final(event_loop).state.outgoing_pub == old(event_loop).state.outgoing_pub
        },
        final(event_loop).options == old(event_loop).options,
        final(event_loop).rx_buf == old(event_loop).rx_buf,
{
}

/// Once the CONNECT packet has been sent the broker has fifty seconds to answer
/// it. The connection is made if and only if it is accepted. An error on the way
/// closes the connection and is handed on, and nothing else changes it.
pub proof fn law_the_broker_decides<'b>(
    event_loop: &mut EventLoop<'b>,
    event: ConnectEvent,
    action: ConnectAction<'b>,
)
    requires
        event !is Start,
        call_ensures(EventLoop::<'b>::mqtt_connect, (event_loop, event), action),
    ensures
        ({
            let status = old(event_loop).state.connection_status;
            let after = final(event_loop).state.connection_status;
            match event {
                ConnectEvent::Sent(Ok(_)) => after is Handshake && (
                action matches ConnectAction::StartTimer(ms) && ms == 50000),
                ConnectEvent::Sent(Err(e)) => after is Disconnected && (
                action matches ConnectAction::Close(error) && error == e),
                ConnectEvent::Received(Err(e)) => after is Disconnected && (
                action matches ConnectAction::Close(error) && error == e),
                ConnectEvent::Received(Ok(Some(true))) => after is Connected && (
                action matches ConnectAction::Done(made) && made),
                ConnectEvent::Received(Ok(Some(false))) => after == status && (
                action matches ConnectAction::Done(made) && !made),
                ConnectEvent::Received(Ok(None)) => after == status && action is WouldBlock,
                ConnectEvent::Pending => after == status && action is WouldBlock,
                ConnectEvent::Start { .. } => true,
            }
        }),
        final(event_loop).state.await_pingresp == old(event_loop).state.await_pingresp,
        final(event_loop).state.outgoing_pub == old(event_loop).state.outgoing_pub,
        final(event_loop).options == old(event_loop).options,
        final(event_loop).rx_buf == old(event_loop).rx_buf,
{
}

/// A new buffer has received nothing, and all of it can be received into. The
/// length of the packet that it starts with is told.
pub proof fn law_new_buffer(buffer: PacketBuffer, other: &PacketBuffer, len: usize)
    requires
        call_ensures(PacketBuffer::new, (), buffer),
        other.wf(),
        2 <= packet_span(other@.received) <= other@.received.len(),
        call_ensures(PacketBuffer::packet_length, (other,), len),
    ensures
        buffer@.received.len() == 0,
        buffer@.fresh.len() == RX_BUF_LEN,
        varint_at(other@.received.skip(1), 0) is Ok,
        len == 1 + varint_at(other@.received.skip(1), 0)->Ok_0.1 + varint_at(
            other@.received.skip(1),
            0,
        )->Ok_0.0,
{
}

} // verus!
