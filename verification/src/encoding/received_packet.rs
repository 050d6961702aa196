use vstd::prelude::*;
use vstd::string::StringSliceAdditionalSpecFns;

use super::decoder::{header_at, FixedHeader, MqttDecode, MqttDecoder};
use super::error::Error;
use super::packets::ack::AckView;
use super::packets::connack::ConnAckView;
use super::packets::disconnect::DisconnectView;
use super::packets::publish::{publish_head_at, read_publish_head};
use super::packets::suback::{read_codes, SubAckView};
use super::packets::unsuback::UnsubAckView;
use super::packets::{
    ConnAck, Disconnect, PacketType, PartialPublish, PubAck, PubComp, PubRec, PubRel, SubAck,
    UnsubAck,
};
use super::reason_code::{PubAckReasonCode, PubCompReasonCode, PubRecReasonCode};
use super::utils::{Pid, QoS, QosPid};
use crate::crate_config::MAX_SUB_TOPICS_PER_MSG;

verus! {

/// A packet that the client can receive.
#[derive(Debug)]
pub enum ReceivedPacket<'a> {
    PingResp,
    ConnAck(ConnAck<'a>),
    PartialPublish { qos_pid: QosPid, topic_name: &'a str, publish: PartialPublish<'a> },
    PubAck(PubAck<'a>),
    PubRec(PubRec<'a>),
    PubRel(PubRel),
    PubComp(PubComp<'a>),
    SubAck(SubAck<'a>),
    UnsubAck(UnsubAck<'a>),
    Disconnect(Disconnect<'a>),
}

/// A packet that the client can receive, with strings and properties as they
/// stand on the wire.
pub ghost enum ReceivedView {
    PingResp,
    ConnAck(ConnAckView),
    /// The packet identifier is 0 if there is none.
    PartialPublish { qos: QoS, pid: u16, topic: Seq<u8>, buffered: Seq<u8>, total: nat },
    PubAck(AckView<PubAckReasonCode>),
    PubRec(AckView<PubRecReasonCode>),
    PubRel(u16),
    PubComp(AckView<PubCompReasonCode>),
    SubAck(SubAckView),
    UnsubAck(UnsubAckView),
    Disconnect(DisconnectView),
}

/// The packet identifier of a publication: 0 if there is none.
pub open spec fn qos_pid_value(qos_pid: QosPid) -> u16 {
    match qos_pid {
        QosPid::AtMostOnce => 0,
        QosPid::AtLeastOnce(pid) => pid@,
        QosPid::ExactlyOnce(pid) => pid@,
    }
}

/// The quality of service of a publication.
pub open spec fn qos_pid_qos(qos_pid: QosPid) -> QoS {
    match qos_pid {
        QosPid::AtMostOnce => QoS::AtMostOnce,
        QosPid::AtLeastOnce(_) => QoS::AtLeastOnce,
        QosPid::ExactlyOnce(_) => QoS::ExactlyOnce,
    }
}

impl<'a> View for ReceivedPacket<'a> {
    type V = ReceivedView;

    open spec fn view(&self) -> ReceivedView {
        match *self {
            ReceivedPacket::PingResp => ReceivedView::PingResp,
            ReceivedPacket::ConnAck(p) => ReceivedView::ConnAck(p@),
            ReceivedPacket::PartialPublish { qos_pid, topic_name, publish } =>
                ReceivedView::PartialPublish {
                qos: qos_pid_qos(qos_pid),
                pid: qos_pid_value(qos_pid),
                topic: topic_name.spec_bytes(),
                buffered: publish.buffered(),
                total: publish.total(),
            },
            ReceivedPacket::PubAck(p) => ReceivedView::PubAck(p@),
            ReceivedPacket::PubRec(p) => ReceivedView::PubRec(p@),
            ReceivedPacket::PubRel(p) => ReceivedView::PubRel(p@),
            ReceivedPacket::PubComp(p) => ReceivedView::PubComp(p@),
            ReceivedPacket::SubAck(p) => ReceivedView::SubAck(p@),
            ReceivedPacket::UnsubAck(p) => ReceivedView::UnsubAck(p@),
            ReceivedPacket::Disconnect(p) => ReceivedView::Disconnect(p@),
        }
    }
}

/// What reading a `Publish` packet gives, if `buf` starts with it and it goes
/// on with `rest` after its fixed header.
pub open spec fn partial_publish(
    buf: Seq<u8>,
    header: FixedHeader,
    header_len: nat,
    rest: Seq<u8>,
) -> Result<ReceivedView, Error> {
    match publish_head_at(header.qos, rest) {
        Err(e) => Err(e),
        Ok((topic, pid)) => if header.qos != QoS::AtMostOnce && pid == 0 {
            Err(Error::BadIdentifier(0))
        } else {
            let total = header_len + header.remaining_len as nat;
            Ok(
                ReceivedView::PartialPublish {
                    qos: header.qos,
                    pid,
                    topic,
                    buffered: if total < buf.len() {
                        buf.take(total as int)
                    } else {
                        buf
                    },
                    total,
                },
            )
        },
    }
}

/// The result of decoding a packet of one type, as one of decoding any packet.
pub open spec fn wrapped<V>(parsed: Result<V, Error>, wrap: spec_fn(V) -> ReceivedView) -> Result<
    ReceivedView,
    Error,
> {
    match parsed {
        Ok(view) => Ok(wrap(view)),
        Err(e) => Err(e),
    }
}

/// What decoding the packet at the start of a buffer gives.
pub open spec fn received(buf: Seq<u8>) -> Result<ReceivedView, Error> {
    match header_at(buf) {
        Err(e) => Err(e),
        Ok((header, n)) => {
            let rest = buf.skip(n as int);
            let left = header.remaining_len as int;
            match header.typ {
                PacketType::Disconnect => wrapped(
                    Disconnect::parsed(header, rest, left),
                    |v| ReceivedView::Disconnect(v),
                ),
                PacketType::PingResp => Ok(ReceivedView::PingResp),
                PacketType::ConnAck => wrapped(
                    ConnAck::parsed(header, rest, left),
                    |v| ReceivedView::ConnAck(v),
                ),
                PacketType::Publish => partial_publish(buf, header, n, rest),
                PacketType::PubAck => wrapped(
                    PubAck::parsed(header, rest, left),
                    |v| ReceivedView::PubAck(v),
                ),
                PacketType::PubRec => wrapped(
                    PubRec::parsed(header, rest, left),
                    |v| ReceivedView::PubRec(v),
                ),
                PacketType::PubRel => wrapped(
                    PubRel::parsed(header, rest, left),
                    |v| ReceivedView::PubRel(v),
                ),
                PacketType::PubComp => wrapped(
                    PubComp::parsed(header, rest, left),
                    |v| ReceivedView::PubComp(v),
                ),
                PacketType::SubAck => wrapped(
                    SubAck::parsed(header, rest, left),
                    |v| ReceivedView::SubAck(v),
                ),
                PacketType::UnsubAck => wrapped(
                    UnsubAck::parsed(header, rest, left),
                    |v| ReceivedView::UnsubAck(v),
                ),
                _ => Err(Error::InvalidHeader),
            }
        },
    }
}

/// Whether what the packet holds is within the limits of the library: an
/// `UNSUBACK` packet may not answer for more topic filters than fit in a request.
pub open spec fn receivable(buf: Seq<u8>) -> bool {
    header_at(buf) matches Ok((header, n)) ==> header.typ == PacketType::UnsubAck
        ==> UnsubAck::within_limits(buf.skip(n as int), header.remaining_len as int)
}

/// Joins a quality of service and a packet identifier. With QoS 0 there is no
/// packet identifier.
pub(crate) fn qos_pid_of(qos: QoS, raw: u16) -> (res: Result<QosPid, Error>)
    ensures
        match res {
            Ok(qos_pid) => {
                &&& qos_pid_qos(qos_pid) == qos
                &&& qos != QoS::AtMostOnce ==> raw != 0 && qos_pid_value(qos_pid) == raw
            },
            Err(e) => e == Error::BadIdentifier(0) && qos != QoS::AtMostOnce && raw == 0,
        },
{
    match qos {
        QoS::AtMostOnce => Ok(QosPid::AtMostOnce),
        QoS::AtLeastOnce => match Pid::try_from(raw) {
            Ok(pid) => Ok(QosPid::AtLeastOnce(pid)),
            Err(e) => Err(e),
        },
        QoS::ExactlyOnce => match Pid::try_from(raw) {
            Ok(pid) => Ok(QosPid::ExactlyOnce(pid)),
            Err(e) => Err(e),
        },
    }
}

fn decode_publish<'a>(buf: &'a [u8], decoder: &mut MqttDecoder<'a>) -> (res: Result<
    ReceivedPacket<'a>,
    Error,
>)
    requires
        old(decoder).data() == buf@,
        old(decoder).total() == old(decoder).pos() + old(decoder).header().remaining_len,
    ensures
        match (
            res,
            partial_publish(
                buf@,
                old(decoder).header(),
                old(decoder).pos(),
                old(decoder).rest(),
            ),
        ) {
            (Ok(packet), Ok(view)) => packet@ == view && packet.raw_properties(),
            (Err(e), Err(f)) => e == f,
            _ => false,
        },
{
    let qos: QoS = decoder.fixed_header().qos;
    let (topic_name, raw): (&'a str, u16) = read_publish_head(decoder)?;
    let qos_pid: QosPid = qos_pid_of(qos, raw)?;
    let packet_len: usize = decoder.packet_len();
    let buffered: &'a [u8] = if packet_len < buf.len() {
        &buf[0..packet_len]
    } else {
        buf
    };
    assert(packet_len < buf@.len() ==> buffered@ =~= buf@.take(packet_len as int));
    Ok(
        ReceivedPacket::PartialPublish {
            qos_pid,
            topic_name,
            publish: PartialPublish::new(buffered, packet_len),
        },
    )
}

impl<'a> ReceivedPacket<'a> {
    /// Whether the packet holds its properties, if it has any, as they stand
    /// on the wire.
    pub open spec fn raw_properties(&self) -> bool {
        match *self {
            ReceivedPacket::ConnAck(p) => p.properties is DataBlock,
            ReceivedPacket::PubAck(p) => p.properties is DataBlock,
            ReceivedPacket::PubRec(p) => p.properties is DataBlock,
            ReceivedPacket::PubComp(p) => p.properties is DataBlock,
            ReceivedPacket::SubAck(p) => p.properties is DataBlock,
            ReceivedPacket::UnsubAck(p) => p.properties is DataBlock,
            ReceivedPacket::Disconnect(p) => p.properties is DataBlock,
            _ => true,
        }
    }

    /// Returns whether there is room for what the packet at the start of a
    /// buffer holds.
    pub fn is_receivable(buf: &'a [u8]) -> (res: bool)
        ensures
            res == receivable(buf@),
    {
        let mut decoder: MqttDecoder<'a> = match MqttDecoder::try_new(buf) {
            Ok(decoder) => decoder,
            Err(_) => return true,
        };
        if decoder.fixed_header().typ != PacketType::UnsubAck {
            return true;
        }
        match read_codes(&mut decoder) {
            Ok((_, _, codes)) => codes.len() <= MAX_SUB_TOPICS_PER_MSG,
            Err(_) => true,
        }
    }

    /// Decodes the packet at the start of a buffer. Of a `Publish` packet only
    /// the start has to be there.
    #[verifier::rlimit(60)]
    pub fn from_buffer(buf: &'a [u8]) -> (res: Result<Self, Error>)
        requires
            receivable(buf@),
        ensures
            match (res, received(buf@)) {
                (Ok(packet), Ok(view)) => packet@ == view && packet.raw_properties(),
                (Err(e), Err(f)) => e == f,
                _ => false,
            },
    {
        let mut decoder: MqttDecoder<'a> = MqttDecoder::try_new(buf)?;
        let header: FixedHeader = decoder.fixed_header();
        match header.typ {
            PacketType::Disconnect => {
                let packet: Disconnect<'a> = Disconnect::from_decoder(&mut decoder)?;
                Ok(ReceivedPacket::Disconnect(packet))
            },
            PacketType::PingResp => Ok(ReceivedPacket::PingResp),
            PacketType::ConnAck => {
                let packet: ConnAck<'a> = ConnAck::from_decoder(&mut decoder)?;
                Ok(ReceivedPacket::ConnAck(packet))
            },
            PacketType::Publish => decode_publish(buf, &mut decoder),
            PacketType::PubAck => {
                let packet: PubAck<'a> = PubAck::from_decoder(&mut decoder)?;
                Ok(ReceivedPacket::PubAck(packet))
            },
            PacketType::PubRec => {
                let packet: PubRec<'a> = PubRec::from_decoder(&mut decoder)?;
                Ok(ReceivedPacket::PubRec(packet))
            },
            PacketType::PubRel => {
                let packet: PubRel = PubRel::from_decoder(&mut decoder)?;
                Ok(ReceivedPacket::PubRel(packet))
            },
            PacketType::PubComp => {
                let packet: PubComp<'a> = PubComp::from_decoder(&mut decoder)?;
                Ok(ReceivedPacket::PubComp(packet))
            },
            PacketType::SubAck => {
                let packet: SubAck<'a> = SubAck::from_decoder(&mut decoder)?;
                Ok(ReceivedPacket::SubAck(packet))
            },
            PacketType::UnsubAck => {
                let packet: UnsubAck<'a> = UnsubAck::from_decoder(&mut decoder)?;
                Ok(ReceivedPacket::UnsubAck(packet))
            },
            _ => Err(Error::InvalidHeader),
        }
    }
}

} // verus!
