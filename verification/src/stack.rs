//! The protocol engine: what to do when a packet has been received, a frame has
//! been sent or nothing has happened for too long, and when to connect.
use vstd::prelude::*;
use vstd::string::StringSliceAdditionalSpecFns;

use crate::collections::AckCodes;
use crate::config::Config;
use crate::crate_config::{MAX_INFLIGHT, MAX_SUB_TOPICS_PER_MSG};
use crate::encoding::encoder::{bounded, frame};
use crate::encoding::error::StateError;
use crate::encoding::packets::connect::{
    connect_found, lemma_connect_len, optional_len, ConnectView,
};
use crate::encoding::packets::unsuback::code_numbers;
use crate::encoding::packets::{
    ConnAck, Connect, Disconnect, PingReq, Protocol, PubAck, PubComp, PubRec, PubRel, SubAck,
    UnsubAck,
};
use crate::encoding::properties::{
    encodable_list, lemma_property_at, list_bytes, list_pieces, property_at, readable_properties,
    Properties, Property, PropertyIdentifier, PropertyView, ValueView,
};
use crate::encoding::reason_code::{
    PubAckReasonCode, PubCompReasonCode, PubRecReasonCode, UnsubAckReasonCode,
};
use crate::encoding::received_packet::ReceivedPacket;
use crate::encoding::wire::{
    concat, law_varint_round_trip, lemma_varint_size, properties_bytes, u16_bytes, u32_bytes,
    varint_at, varint_bytes, varint_groups, MAX_VARINT,
};
use crate::encoding::utils::{qos_code, qos_of_code, Pid, QoS, QosPid};
use crate::error::ConnectionError;
use crate::packet::{encode_packet, PacketReader};
use crate::state::{AckStatus, Shared, SharedView};
use crate::time::{Duration, Instant, MICROS_PER_SEC};

verus! {

/// The MQTT protocol engine that manages connections, keep-alive, and packet I/O.
pub struct MqttStack<'a> {
    pub config: Config<'a>,
    pub packet_reader: PacketReader,
    pub last_network_action: Instant,
    pub awaiting_pingresp: bool,
    pub clean_start: bool,
    pub connect_attempts: u8,
}

/// Something that the engine has waited for.
pub enum Event<'p> {
    /// A frame has been sent. Its packet identifier is `0` if it has none.
    Sent { pid: u16 },
    /// A packet has been received.
    Received(ReceivedPacket<'p>),
    /// A `Publish` packet has been handed to the subscribers.
    Buffered(QosPid),
    /// A `Publish` packet has been discarded.
    Discarded,
    /// No packet could be received.
    ReceiveFailed(StateError),
    /// Nothing has happened for as long as the connection may be idle.
    KeepAlive,
}

/// A packet that the engine sends on its own account.
#[derive(Debug, Clone, Copy, PartialEq, Eq, Structural)]
pub enum Reply {
    PubAck(Pid),
    PubRec(Pid),
    PubRel(Pid),
    PubComp(Pid),
    PingReq,
}

/// What is to be done about an event.
#[derive(Debug, Clone, Copy, PartialEq, Eq, Structural)]
pub enum Action {
    /// Nothing.
    Continue,
    /// Read the rest of the `Publish` packet and hand it to the subscribers, or
    /// discard it if there is no room for it.
    Buffer,
    /// Send a packet.
    Write(Reply),
}

/// What is to be done about an event, and whether those that wait for an
/// acknowledgement have to be woken once it is done.
#[derive(Debug, Clone, Copy, PartialEq, Eq, Structural)]
pub struct Outcome {
    pub action: Action,
    pub wake_tx: bool,
}

/// Whether `after` is `before` with the codes of an acknowledgement set.
pub open spec fn acked(before: SharedView, after: SharedView, pid: u16, codes: Seq<u8>) -> bool {
    exists|held: AckCodes|
        #![trigger held@]
        held@ == codes && after == (SharedView {
            ack_status: before.ack_status.insert(pid, AckStatus::Acked(held)),
            ..before
        })
}

/// The limits that the engine works in: a `SUBACK` packet that is waited for
/// has no more codes than fit in a request, and there is room for the packet
/// identifier of every incoming publication.
pub open spec fn within_limits(event: Event<'_>, view: SharedView) -> bool {
    match event {
        Event::Received(ReceivedPacket::SubAck(p)) => view.awaits_sub_ack(p.pid@) ==> p.codes@.len()
            <= MAX_SUB_TOPICS_PER_MSG,
        Event::Received(ReceivedPacket::UnsubAck(p)) => p.codes@.len() <= MAX_SUB_TOPICS_PER_MSG,
        Event::Buffered(QosPid::ExactlyOnce(pid)) => view.incoming_pub.contains(pid@)
            || view.incoming_pub.len() < MAX_INFLIGHT,
        _ => true,
    }
}

impl SharedView {
    /// Whether a `SUBACK` packet is waited for.
    pub open spec fn awaits_sub_ack(self, pid: u16) -> bool {
        self.ack_status.contains_key(pid) && self.ack_status[pid] is AwaitingSubAck
    }

    /// Whether an `UNSUBACK` packet is waited for, and if so, whether its codes
    /// are of interest.
    pub open spec fn awaits_unsub_ack(self, pid: u16) -> Option<bool> {
        if self.ack_status.contains_key(pid) {
            match self.ack_status[pid] {
                AckStatus::AwaitingUnsubAck(interest) => Some(interest),
                _ => None,
            }
        } else {
            None
        }
    }
}

impl<'a> MqttStack<'a> {
    pub fn new(config: Config<'a>, now: Instant) -> (stack: Self)
        ensures
            stack.config == config,
            stack.packet_reader@.read == 0,
            stack.packet_reader@.packet_len is None,
            stack.last_network_action == now,
            !stack.awaiting_pingresp,
            stack.clean_start,
            stack.connect_attempts == 0,
    {
        MqttStack {
            config,
            packet_reader: PacketReader::new(),
            last_network_action: now,
            awaiting_pingresp: false,
            clean_start: true,
            connect_attempts: 0,
        }
    }

    /// Forgets the session after an error. Returns whether the connection state
    /// has changed.
    pub fn reset(&mut self, shared: &mut Shared) -> (changed: bool)
        ensures
            !final(self).awaiting_pingresp,
            final(self).connect_attempts == 0,
            final(self).packet_reader@ == old(self).packet_reader@.cleared(),
            final(self).config == old(self).config,
            final(self).last_network_action == old(self).last_network_action,
            final(self).clean_start == old(self).clean_start,
            final(shared)@ == old(shared)@.over(),
            changed == (old(shared).connected is Some),
    {
        self.awaiting_pingresp = false;
        self.connect_attempts = 0;
        self.packet_reader.reset();
        shared.reset()
    }

    /// Returns how long the engine may wait before it has to ping the broker.
    pub fn calculate_keep_alive_sleep(
        last_action: Instant,
        interval: Duration,
        now: Instant,
    ) -> (sleep: Duration)
        requires
            last_action.micros + interval.micros <= u64::MAX,
        ensures
            sleep.micros == if last_action.micros + interval.micros >= now.micros {
                last_action.micros + interval.micros - now.micros
            } else {
                0
            },
    {
        let due: u64 = last_action.micros + interval.micros;
        if due >= now.micros {
            Duration { micros: due - now.micros }
        } else {
            Duration { micros: 0 }
        }
    }

    /// Takes note that the connection has been used, in order to keep track of
    /// when to PING for keep-alive
    pub fn acted(&mut self, now: Instant)
        ensures
            *final(self) == (MqttStack { last_network_action: now, ..*old(self) }),
    {
        self.last_network_action = now;
    }

    fn handle_keep_alive(&mut self) -> (res: Result<Reply, StateError>)
        ensures
            *final(self) == (MqttStack { awaiting_pingresp: true, ..*old(self) }),
            res == if old(self).awaiting_pingresp {
                Err(StateError::AwaitPingResp)
            } else {
                Ok(Reply::PingReq)
            },
    {
        if self.awaiting_pingresp {
            return Err(StateError::AwaitPingResp);
        }
        self.awaiting_pingresp = true;
        Ok(Reply::PingReq)
    }

    fn handle_pub_ack(shared: &mut Shared, p: &PubAck<'_>)
        ensures
            final(shared)@ == (SharedView {
                inflight_pub: old(shared)@.inflight_pub.remove(p.pid@),
                ..old(shared)@
            }),
    {
        let _ = shared.inflight_pub.remove(p.pid.get());
    }

    fn handle_pub_rel(shared: &mut Shared, p: &PubRel) -> (res: Result<Reply, StateError>)
        ensures
            final(shared)@ == (SharedView {
                incoming_pub: old(shared)@.incoming_pub.remove(p.pid@),
                ..old(shared)@
            }),
            res == if old(shared)@.incoming_pub.contains(p.pid@) {
                Ok(Reply::PubComp(p.pid))
            } else {
                Err(StateError::Unsolicited(p.pid@))
            },
    {
        if shared.incoming_pub.remove(p.pid.get()) {
            Ok(Reply::PubComp(p.pid))
        } else {
            Err(StateError::Unsolicited(p.pid.get()))
        }
    }

    fn handle_pub_rec(shared: &mut Shared, p: &PubRec<'_>) -> (res: Result<Reply, StateError>)
        ensures
            if old(shared)@.inflight_pub.contains(p.pid@) {
                &&& res == Ok::<Reply, StateError>(Reply::PubRel(p.pid))
                &&& final(shared)@ == (SharedView {
                    inflight_pub: old(shared)@.inflight_pub.remove(p.pid@),
                    outgoing_rel: if old(shared)@.outgoing_rel.len() < MAX_INFLIGHT {
                        old(shared)@.outgoing_rel.insert(p.pid@)
                    } else {
                        old(shared)@.outgoing_rel
                    },
                    ..old(shared)@
                })
            } else {
                &&& res == Err::<Reply, StateError>(StateError::Unsolicited(p.pid@))
                &&& final(shared)@ == old(shared)@
            },
    {
        if shared.inflight_pub.remove(p.pid.get()) {
            let _ = shared.outgoing_rel.insert(p.pid.get());
            proof {
                if old(shared)@.outgoing_rel.contains(p.pid@) {
                    assert(old(shared)@.outgoing_rel.insert(p.pid@)
                        =~= old(shared)@.outgoing_rel);
                }
            }
            Ok(Reply::PubRel(p.pid))
        } else {
            assert(old(shared)@.inflight_pub.remove(p.pid@) =~= old(shared)@.inflight_pub);
            Err(StateError::Unsolicited(p.pid.get()))
        }
    }

    fn handle_pub_comp(shared: &mut Shared, p: &PubComp<'_>) -> (wake_tx: bool)
        ensures
            final(shared)@ == (SharedView {
                outgoing_rel: old(shared)@.outgoing_rel.remove(p.pid@),
                ..old(shared)@
            }),
            wake_tx == old(shared)@.outgoing_rel.contains(p.pid@),
    {
        shared.outgoing_rel.remove(p.pid.get())
    }

    fn handle_sub_ack(shared: &mut Shared, pid: Pid, codes: &[u8]) -> (wake_tx: bool)
        requires
            old(shared)@.awaits_sub_ack(pid@) ==> codes@.len() <= MAX_SUB_TOPICS_PER_MSG,
        ensures
            wake_tx == old(shared)@.awaits_sub_ack(pid@),
            if wake_tx {
                acked(old(shared)@, final(shared)@, pid@, codes@)
            } else {
                final(shared)@ == old(shared)@
            },
    {
        let awaited: bool = match shared.ack_status.get(pid.get()) {
            Some(AckStatus::AwaitingSubAck) => true,
            _ => false,
        };
        if awaited {
            if let Some(held) = AckCodes::from_slice(codes) {
                let _ = shared.ack_status.insert(pid.get(), AckStatus::Acked(held));
                assert(held@ == codes@);
            }
        }
        awaited
    }

    fn handle_unsub_ack(shared: &mut Shared, pid: Pid, codes: &[UnsubAckReasonCode]) -> (wake_tx:
        bool)
        requires
            codes@.len() <= MAX_SUB_TOPICS_PER_MSG,
        ensures
            wake_tx == (old(shared)@.awaits_unsub_ack(pid@) is Some),
            match old(shared)@.awaits_unsub_ack(pid@) {
                Some(true) => acked(
                    old(shared)@,
                    final(shared)@,
                    pid@,
                    code_numbers(codes@),
                ),
                Some(false) => final(shared)@ == (SharedView {
                    ack_status: old(shared)@.ack_status.remove(pid@),
                    ..old(shared)@
                }),
                None => final(shared)@ == old(shared)@,
            },
    {
        let interest: Option<bool> = match shared.ack_status.get(pid.get()) {
            Some(AckStatus::AwaitingUnsubAck(interest)) => Some(*interest),
            _ => None,
        };
        match interest {
            Some(true) => {
                let mut numbers: [u8; MAX_SUB_TOPICS_PER_MSG] = [0;MAX_SUB_TOPICS_PER_MSG];
                let mut i: usize = 0;
                while i < codes.len()
                    invariant
                        i <= codes@.len() <= MAX_SUB_TOPICS_PER_MSG,
                        forall|j: int| 0 <= j < i ==> numbers@[j] == codes@[j].code(),
                    decreases codes@.len() - i,
                {
                    numbers[i] = u8::from(codes[i]);
                    i = i + 1;
                }
                let numbers: &[u8] = vstd::slice::slice_subrange(numbers.as_slice(), 0, i);
                assert(numbers@ =~= code_numbers(codes@));
                if let Some(held) = AckCodes::from_slice(numbers) {
                    let _ = shared.ack_status.insert(pid.get(), AckStatus::Acked(held));
                    assert(held@ == code_numbers(codes@));
                }
                true
            },
            Some(false) => {
                let _ = shared.ack_status.remove(pid.get());
                true
            },
            None => false,
        }
    }

    fn handle_packet(&mut self, shared: &mut Shared, packet: ReceivedPacket<'_>) -> (res: Result<
        Outcome,
        StateError,
    >)
        requires
            within_limits(Event::Received(packet), old(shared)@),
        ensures
            after_packet(
                *old(self),
                old(shared)@,
                packet,
                *final(self),
                final(shared)@,
                res,
            ),
    {
        match packet {
            ReceivedPacket::ConnAck(_) => {
                // This should never happen, as this function is not
                // used until after successfully connected to MQTT
                // broker
                Ok(Outcome { action: Action::Continue, wake_tx: false })
            },
            ReceivedPacket::Disconnect(_) => Ok(
                Outcome { action: Action::Continue, wake_tx: false },
            ),
            ReceivedPacket::PingResp => {
                self.awaiting_pingresp = false;
                Ok(Outcome { action: Action::Continue, wake_tx: false })
            },
            ReceivedPacket::PartialPublish { .. } => Ok(
                Outcome { action: Action::Buffer, wake_tx: false },
            ),
            ReceivedPacket::PubAck(p) => {
                Self::handle_pub_ack(shared, &p);
                Ok(Outcome { action: Action::Continue, wake_tx: true })
            },
            ReceivedPacket::SubAck(p) => {
                let wake_tx: bool = Self::handle_sub_ack(shared, p.pid, p.codes);
                Ok(Outcome { action: Action::Continue, wake_tx })
            },
            ReceivedPacket::UnsubAck(p) => {
                let wake_tx: bool = Self::handle_unsub_ack(shared, p.pid, p.codes.as_slice());
                Ok(Outcome { action: Action::Continue, wake_tx })
            },
            ReceivedPacket::PubRel(p) => match Self::handle_pub_rel(shared, &p) {
                Ok(reply) => Ok(Outcome { action: Action::Write(reply), wake_tx: true }),
                Err(e) => Err(e),
            },
            ReceivedPacket::PubRec(p) => match Self::handle_pub_rec(shared, &p) {
                Ok(reply) => Ok(Outcome { action: Action::Write(reply), wake_tx: true }),
                Err(e) => Err(e),
            },
            ReceivedPacket::PubComp(p) => {
                let wake_tx: bool = Self::handle_pub_comp(shared, &p);
                Ok(Outcome { action: Action::Continue, wake_tx })
            },
        }
    }

    /// Returns whether an event keeps to the limits that the engine works in.
    pub fn is_within_limits(shared: &Shared, event: &Event<'_>) -> (res: bool)
        ensures
            res == within_limits(*event, shared@),
    {
        match event {
            Event::Received(ReceivedPacket::SubAck(p)) => {
                let awaited: bool = match shared.ack_status.get(p.pid.get()) {
                    Some(AckStatus::AwaitingSubAck) => true,
                    _ => false,
                };
                !awaited || p.codes.len() <= MAX_SUB_TOPICS_PER_MSG
            },
            Event::Received(ReceivedPacket::UnsubAck(p)) => p.codes.as_slice().len()
                <= MAX_SUB_TOPICS_PER_MSG,
            Event::Buffered(QosPid::ExactlyOnce(pid)) => shared.incoming_pub.contains(pid.get())
                || shared.incoming_pub.len() < MAX_INFLIGHT,
            _ => true,
        }
    }

    /// Decides what to do about an event while connected to the broker. On an
    /// error the connection is to be closed.
    pub fn select(&mut self, shared: &mut Shared, event: Event<'_>) -> (res: Result<
        Outcome,
        StateError,
    >)
        requires
            within_limits(event, old(shared)@),
        ensures
            after_event(*old(self), old(shared)@, event, *final(self), final(shared)@, res),
    {
        match event {
            Event::Sent { pid } => {
                if pid != 0 {
                    let _ = shared.outgoing_pid.remove(pid);
                }
                Ok(Outcome { action: Action::Continue, wake_tx: true })
            },
            Event::Received(packet) => self.handle_packet(shared, packet),
            // Write `PubAck` or `PubRec` depending on received QoS
            Event::Buffered(qos_pid) => {
                let action = match qos_pid {
                    QosPid::AtMostOnce => Action::Continue,
                    QosPid::AtLeastOnce(pid) => Action::Write(Reply::PubAck(pid)),
                    QosPid::ExactlyOnce(pid) => {
                        let _ = shared.incoming_pub.insert(pid.get());
                        proof {
                            if old(shared)@.incoming_pub.contains(pid@) {
                                assert(old(shared)@.incoming_pub.insert(pid@)
                                    =~= old(shared)@.incoming_pub);
                            }
                        }
                        Action::Write(Reply::PubRec(pid))
                    },
                };
                Ok(Outcome { action, wake_tx: false })
            },
            // For QoS 1, the broker will re-deliver when we don't ack. For
            // QoS 0, no ack needed.
            Event::Discarded => Ok(Outcome { action: Action::Continue, wake_tx: false }),
            Event::ReceiveFailed(error) => match error {
                // Non-recoverable socket error that requires us to disconnect the socket and reconnect
                StateError::Io(_) => Err(error),
                _ => Ok(Outcome { action: Action::Continue, wake_tx: false }),
            },
            Event::KeepAlive => match self.handle_keep_alive() {
                Ok(reply) => Ok(Outcome { action: Action::Write(reply), wake_tx: false }),
                Err(e) => Err(e),
            },
        }
    }
}

/// The answer to a publication.
pub open spec fn publish_reply(qos_pid: QosPid) -> Action {
    match qos_pid {
        QosPid::AtMostOnce => Action::Continue,
        QosPid::AtLeastOnce(pid) => Action::Write(Reply::PubAck(pid)),
        QosPid::ExactlyOnce(pid) => Action::Write(Reply::PubRec(pid)),
    }
}

/// What a received packet changes, and what is to be done about it.
pub open spec fn after_packet(
    stack: MqttStack<'_>,
    view: SharedView,
    packet: ReceivedPacket<'_>,
    stack_after: MqttStack<'_>,
    after: SharedView,
    res: Result<Outcome, StateError>,
) -> bool {
    &&& stack_after == (MqttStack {
        awaiting_pingresp: stack.awaiting_pingresp && !(packet is PingResp),
        ..stack
    })
    &&& match packet {
        ReceivedPacket::ConnAck(_) | ReceivedPacket::Disconnect(_) | ReceivedPacket::PingResp => {
            &&& res == Ok::<Outcome, StateError>(
                Outcome { action: Action::Continue, wake_tx: false },
            )
            &&& after == view
        },
        ReceivedPacket::PartialPublish { .. } => {
            &&& res == Ok::<Outcome, StateError>(
                Outcome { action: Action::Buffer, wake_tx: false },
            )
            &&& after == view
        },
        ReceivedPacket::PubAck(p) => {
            &&& res == Ok::<Outcome, StateError>(
                Outcome { action: Action::Continue, wake_tx: true },
            )
            &&& after == (SharedView { inflight_pub: view.inflight_pub.remove(p.pid@), ..view })
        },
        ReceivedPacket::SubAck(p) => {
            &&& res == Ok::<Outcome, StateError>(
                Outcome { action: Action::Continue, wake_tx: view.awaits_sub_ack(p.pid@) },
            )
            &&& if view.awaits_sub_ack(p.pid@) {
                acked(view, after, p.pid@, p.codes@)
            } else {
                after == view
            }
        },
        ReceivedPacket::UnsubAck(p) => {
            &&& res == Ok::<Outcome, StateError>(
                Outcome {
                    action: Action::Continue,
                    wake_tx: view.awaits_unsub_ack(p.pid@) is Some,
                },
            )
            &&& match view.awaits_unsub_ack(p.pid@) {
                Some(true) => acked(view, after, p.pid@, code_numbers(p.codes@)),
                Some(false) => after == (SharedView {
                    ack_status: view.ack_status.remove(p.pid@),
                    ..view
                }),
                None => after == view,
            }
        },
        ReceivedPacket::PubRel(p) => {
            &&& res == if view.incoming_pub.contains(p.pid@) {
                Ok(Outcome { action: Action::Write(Reply::PubComp(p.pid)), wake_tx: true })
            } else {
                Err(StateError::Unsolicited(p.pid@))
            }
            &&& after == (SharedView { incoming_pub: view.incoming_pub.remove(p.pid@), ..view })
        },
        ReceivedPacket::PubRec(p) => if view.inflight_pub.contains(p.pid@) {
            &&& res == Ok::<Outcome, StateError>(
                Outcome { action: Action::Write(Reply::PubRel(p.pid)), wake_tx: true },
            )
            &&& after == (SharedView {
                inflight_pub: view.inflight_pub.remove(p.pid@),
                outgoing_rel: if view.outgoing_rel.len() < MAX_INFLIGHT {
                    view.outgoing_rel.insert(p.pid@)
                } else {
                    view.outgoing_rel
                },
                ..view
            })
        } else {
            &&& res == Err::<Outcome, StateError>(StateError::Unsolicited(p.pid@))
            &&& after == view
        },
        ReceivedPacket::PubComp(p) => {
            &&& res == Ok::<Outcome, StateError>(
                Outcome {
                    action: Action::Continue,
                    wake_tx: view.outgoing_rel.contains(p.pid@),
                },
            )
            &&& after == (SharedView { outgoing_rel: view.outgoing_rel.remove(p.pid@), ..view })
        },
    }
}

/// What an event changes, and what is to be done about it.
pub open spec fn after_event(
    stack: MqttStack<'_>,
    view: SharedView,
    event: Event<'_>,
    stack_after: MqttStack<'_>,
    after: SharedView,
    res: Result<Outcome, StateError>,
) -> bool {
    match event {
        Event::Sent { pid } => {
            &&& res == Ok::<Outcome, StateError>(
                Outcome { action: Action::Continue, wake_tx: true },
            )
            &&& stack_after == stack
            &&& after == if pid != 0 {
                SharedView {
                    outgoing_pid: view.outgoing_pid.remove(pid),
                    ..view
                }
            } else {
                view
            }
        },
        Event::Received(packet) => after_packet(
            stack,
            view,
            packet,
            stack_after,
            after,
            res,
        ),
        Event::Buffered(qos_pid) => {
            &&& res == Ok::<Outcome, StateError>(
                Outcome { action: publish_reply(qos_pid), wake_tx: false },
            )
            &&& stack_after == stack
            &&& after == match qos_pid {
                QosPid::ExactlyOnce(pid) => SharedView {
                    incoming_pub: view.incoming_pub.insert(pid@),
                    ..view
                },
                _ => view,
            }
        },
        Event::Discarded => {
            &&& res == Ok::<Outcome, StateError>(
                Outcome { action: Action::Continue, wake_tx: false },
            )
            &&& stack_after == stack
            &&& after == view
        },
        Event::ReceiveFailed(error) => {
            &&& res == if error is Io {
                Err(error)
            } else {
                Ok(Outcome { action: Action::Continue, wake_tx: false })
            }
            &&& stack_after == stack
            &&& after == view
        },
        Event::KeepAlive => {
            &&& res == if stack.awaiting_pingresp {
                Err(StateError::AwaitPingResp)
            } else {
                Ok(Outcome { action: Action::Write(Reply::PingReq), wake_tx: false })
            }
            &&& stack_after == (MqttStack { awaiting_pingresp: true, ..stack })
            &&& after == view
        },
    }
}

/// The keep alive interval in microseconds and the quality of service once the
/// broker has told one of its properties.
pub open spec fn negotiated(interval: u64, max_qos: QoS, property: PropertyView) -> (u64, QoS) {
    match (property.id, property.value) {
        (PropertyIdentifier::ServerKeepAlive, ValueView::TwoByteInteger(secs)) => (
            if secs * MICROS_PER_SEC < interval {
                (secs * MICROS_PER_SEC) as u64
            } else {
                interval
            },
            max_qos,
        ),
        (PropertyIdentifier::MaximumQoS, ValueView::Byte(code)) => {
            let qos = match qos_of_code(code) {
                Ok(qos) => qos,
                Err(_) => QoS::AtLeastOnce,
            };
            (
                interval,
                if qos_code(qos) > qos_code(max_qos) {
                    qos
                } else {
                    max_qos
                },
            )
        },
        _ => (interval, max_qos),
    }
}

/// The keep alive interval in microseconds and the quality of service once the
/// broker has told its properties. What cannot be read is passed over.
pub open spec fn negotiated_by(interval: u64, max_qos: QoS, block: Seq<u8>) -> (u64, QoS)
    decreases block.len(),
{
    if block.len() == 0 {
        (interval, max_qos)
    } else {
        match property_at(block) {
            Err(_) => (interval, max_qos),
            Ok((property, n)) => if n == 0 || n > block.len() {
                (interval, max_qos)
            } else {
                let (interval, max_qos) = negotiated(interval, max_qos, property);
                negotiated_by(interval, max_qos, block.skip(n as int))
            },
        }
    }
}

/// The configuration after the broker has answered a request to connect.
pub open spec fn config_after<'a>(config: Config<'a>, p: ConnAck<'_>) -> Config<'a> {
    let (micros, max_qos) = negotiated_by(
        config.keepalive_interval.micros,
        config.max_qos,
        p.properties.block(),
    );
    Config { keepalive_interval: Duration { micros }, max_qos, ..config }
}

impl<'a> MqttStack<'a> {
    /// Takes over what the broker demands. Returns whether it goes on with an
    /// existing session.
    fn handle_connack(p: &ConnAck<'_>, config: &mut Config<'a>) -> (res: Result<
        bool,
        ConnectionError,
    >)
        requires
            p.properties is DataBlock,
        ensures
            *final(config) == config_after(*old(config), *p),
            res == if p.reason_code.code() < 0x80 {
                Ok(p.session_present)
            } else {
                Err(ConnectionError::ConnectionRefused)
            },
    {
        let ghost block = p.properties.block();
        let mut iter = p.properties.iter();
        loop
            invariant
                *config == (Config {
                    keepalive_interval: config.keepalive_interval,
                    max_qos: config.max_qos,
                    ..*old(config)
                }),
                negotiated_by(config.keepalive_interval.micros, config.max_qos, iter.rest())
                    == negotiated_by(
                    old(config).keepalive_interval.micros,
                    old(config).max_qos,
                    block,
                ),
            ensures
                iter.rest().len() == 0,
            decreases iter.rest().len(),
        {
            proof {
                lemma_property_at(iter.rest());
            }
            match iter.next() {
                None => {
                    break;
                },
                Some(Ok(Property::ServerKeepAlive(keep_alive))) => {
                    let interval = Duration::from_secs(keep_alive as u64);
                    if interval.micros < config.keepalive_interval.micros {
                        config.keepalive_interval = interval;
                    }
                },
                Some(Ok(Property::MaximumQoS(code))) => {
                    let qos: QoS = match QoS::try_from(code) {
                        Ok(qos) => qos,
                        Err(_) => QoS::AtLeastOnce,
                    };
                    if u8::from(qos) > u8::from(config.max_qos) {
                        config.max_qos = qos;
                    }
                },
                _ => {},
            }
        }
        if p.reason_code.success() {
            Ok(p.session_present)
        } else {
            Err(ConnectionError::ConnectionRefused)
        }
    }
}

/// The property block that holds a session expiry interval in seconds.
pub open spec fn session_expiry(secs: u32) -> Seq<u8> {
    seq![17u8] + u32_bytes(secs)
}

proof fn lemma_session_expiry(properties: Seq<Property<'_>>, secs: u32)
    requires
        properties == seq![Property::SessionExpiryInterval(secs)],
    ensures
        list_bytes(properties) == session_expiry(secs),
        encodable_list(properties),
{
    let pieces = list_pieces(properties);
    reveal_with_fuel(concat, 2);
    assert(pieces.len() == 1);
    assert(pieces[0] == session_expiry(secs));
    assert(pieces.skip(1).len() == 0);
    assert(concat(pieces) =~= session_expiry(secs));
}

/// The request to connect that the engine sends.
pub open spec fn connect_request<'a>(
    stack: MqttStack<'a>,
    properties: Properties<'a>,
) -> Connect<'a> {
    Connect {
        protocol: Protocol::MQTT5,
        keep_alive: (stack.config.keepalive_interval.micros / MICROS_PER_SEC) as u16,
        client_id: stack.config.client_id,
        clean_start: stack.clean_start,
        last_will: stack.config.last_will,
        username: stack.config.username,
        password: stack.config.password,
        properties,
    }
}

/// Whether encoding a body into a buffer of some length may have this result.
pub open spec fn encoded(
    first: u8,
    body: Seq<u8>,
    capacity: nat,
    res: Result<&[u8], StateError>,
) -> bool {
    match (bounded(body, capacity), res) {
        (Ok(body), Ok(bytes)) => bytes@ == frame(first, body),
        (Err(_), Err(error)) => error == StateError::Deserialization,
        _ => false,
    }
}

impl<'a> MqttStack<'a> {
    /// Encodes the request to connect. The session is kept for ten minutes
    /// after the connection is lost.
    pub fn encode_connect<'b>(&self, buf: &'b mut [u8]) -> (res: Result<&'b [u8], StateError>)
        requires
            self.config.last_will matches Some(will) ==> will.properties.valid(),
        ensures
            exists|properties: Properties<'a>|
                #![trigger connect_request(*self, properties)]
                properties.block() == session_expiry(600) && encoded(
                    0x10,
                    connect_request(*self, properties).body(),
                    old(buf)@.len(),
                    res,
                ),
    {
        let properties = [Property::SessionExpiryInterval(600)];
        let keep_alive: u16 = (#[verifier::truncate] (
        self.config.keepalive_interval.as_secs() as u16));
        let connect = Connect {
            protocol: Protocol::MQTT5,
            keep_alive,
            client_id: self.config.client_id,
            clean_start: self.clean_start,
            last_will: self.config.last_will,
            username: self.config.username,
            password: self.config.password,
            properties: Properties::Slice(&properties),
        };
        proof {
            assert(properties@ =~= seq![Property::SessionExpiryInterval(600)]);
            lemma_session_expiry(properties@, 600);
            assert(connect == connect_request(*self, connect.properties));
            assert(0x10u8 | 0u8 == 0x10u8) by (bit_vector);
        }
        encode_packet(buf, &connect)
    }

    /// Takes the answer to the request to connect. Returns whether the broker
    /// goes on with an existing session.
    pub fn connect_mqtt(&mut self, answer: Result<ReceivedPacket<'_>, StateError>) -> (res: Result<
        bool,
        ConnectionError,
    >)
        requires
            answer matches Ok(ReceivedPacket::ConnAck(p)) ==> p.properties is DataBlock,
        ensures
            match answer {
                Err(_) => {
                    &&& res == Err::<bool, ConnectionError>(ConnectionError::FlushTimeout)
                    &&& *final(self) == *old(self)
                },
                Ok(ReceivedPacket::ConnAck(p)) => if p.reason_code.code() < 0x80 {
                    &&& res == Ok::<bool, ConnectionError>(p.session_present)
                    &&& *final(self) == (MqttStack {
                        config: config_after(old(self).config, p),
                        clean_start: false,
                        connect_attempts: 0,
                        ..*old(self)
                    })
                } else {
                    &&& res == Err::<bool, ConnectionError>(ConnectionError::ConnectionRefused)
                    &&& *final(self) == (MqttStack {
                        config: config_after(old(self).config, p),
                        ..*old(self)
                    })
                },
                Ok(_) => {
                    &&& res == Err::<bool, ConnectionError>(ConnectionError::NotConnAck)
                    &&& *final(self) == *old(self)
                },
            },
    {
        let packet = match answer {
            Ok(packet) => packet,
            Err(_) => {
                return Err(ConnectionError::FlushTimeout);
            },
        };
        // validate connack
        match packet {
            ReceivedPacket::ConnAck(p) => match Self::handle_connack(&p, &mut self.config) {
                Ok(present) => {
                    self.clean_start = false;
                    self.connect_attempts = 0;
                    Ok(present)
                },
                Err(e) => Err(e),
            },
            _ => Err(ConnectionError::NotConnAck),
        }
    }

    /// Encodes the packet that ends the session and the connection.
    pub fn encode_disconnect<'b>(buf: &'b mut [u8]) -> (res: Result<&'b [u8], StateError>)
        ensures
            encoded(
                0xe0,
                seq![0u8] + properties_bytes(session_expiry(0)),
                old(buf)@.len(),
                res,
            ),
    {
        let properties = [Property::SessionExpiryInterval(0)];
        let disconnect = Disconnect::builder().properties(Properties::Slice(&properties)).build();
        proof {
            assert(properties@ =~= seq![Property::SessionExpiryInterval(0)]);
            lemma_session_expiry(properties@, 0);
            assert(0xe0u8 | 0u8 == 0xe0u8) by (bit_vector);
        }
        encode_packet(buf, &disconnect)
    }
}

/// The first byte of a packet that the engine sends on its own account.
pub open spec fn reply_byte(reply: Reply) -> u8 {
    match reply {
        Reply::PubAck(_) => 0x40,
        Reply::PubRec(_) => 0x50,
        Reply::PubRel(_) => 0x62,
        Reply::PubComp(_) => 0x70,
        Reply::PingReq => 0xc0,
    }
}

/// The body of a packet that the engine sends on its own account.
pub open spec fn reply_body(reply: Reply) -> Seq<u8> {
    match reply {
        Reply::PubAck(pid) | Reply::PubRec(pid) | Reply::PubRel(pid) | Reply::PubComp(pid) =>
            u16_bytes(pid@),
        Reply::PingReq => seq![],
    }
}

/// Encodes a packet that the engine sends on its own account.
pub fn encode_reply<'b>(buf: &'b mut [u8], reply: Reply) -> (res: Result<&'b [u8], StateError>)
    ensures
        encoded(reply_byte(reply), reply_body(reply), old(buf)@.len(), res),
{
    let properties: Properties<'b> = Properties::default();
    proof {
        assert(0x40u8 | 0u8 == 0x40u8) by (bit_vector);
        assert(0x50u8 | 0u8 == 0x50u8) by (bit_vector);
        assert(0x60u8 | 2u8 == 0x62u8) by (bit_vector);
        assert(0x70u8 | 0u8 == 0x70u8) by (bit_vector);
        assert(0xc0u8 | 0u8 == 0xc0u8) by (bit_vector);
    }
    match reply {
        Reply::PubAck(pid) => encode_packet(
            buf,
            &PubAck { pid, reason_code: PubAckReasonCode::Success, properties },
        ),
        Reply::PubRec(pid) => encode_packet(
            buf,
            &PubRec { pid, reason_code: PubRecReasonCode::Success, properties },
        ),
        Reply::PubRel(pid) => encode_packet(buf, &PubRel { pid }),
        Reply::PubComp(pid) => encode_packet(
            buf,
            &PubComp { pid, reason_code: PubCompReasonCode::Success, properties },
        ),
        Reply::PingReq => encode_packet(buf, &PingReq),
    }
}

/// Something that happens while the engine is kept running.
pub enum RunEvent {
    /// The engine starts, or goes on after a step.
    Ready { transport_connected: bool },
    /// The broker has accepted the connection.
    Connected { session_present: bool },
    /// The transport could not be connected, the broker did not accept the
    /// connection, or either took too long.
    ConnectFailed,
    /// How long to wait before the next attempt to connect, if there is to be
    /// another one.
    Backoff(Option<Duration>),
    /// What came of the last event.
    Selected(Result<(), StateError>),
}

/// What is to be done to keep the engine running.
#[derive(Debug, Clone, Copy, PartialEq, Eq, Structural)]
pub enum RunAction {
    /// Connect the transport and then to the broker.
    Connect,
    /// Wait for the next event.
    Select,
    /// Close the transport, and find out how long to wait after this many
    /// attempts.
    AskBackoff(u8),
    /// Wait.
    Sleep(Duration),
    /// Close the transport.
    Disconnect,
    /// Go on.
    Proceed,
    /// Stop for good.
    Stop,
}

impl<'a> MqttStack<'a> {
    /// Decides what to do next to keep the connection to the broker up.
    ///
    /// This handles connection and reconnection with backoff. It stops only if
    /// the maximum number of connection attempts is exhausted.
    pub fn run(&mut self, shared: &mut Shared, event: RunEvent) -> (action: RunAction)
        requires
            event matches RunEvent::Backoff(Some(_)) ==> old(self).connect_attempts < u8::MAX,
        ensures
            match event {
                RunEvent::Ready { transport_connected } => {
                    &&& *final(self) == *old(self)
                    &&& if transport_connected {
                        action == RunAction::Select && final(shared)@ == old(shared)@
                    } else {
                        action == RunAction::Connect && final(shared)@
                            == old(shared)@.with_connected(None)
                    }
                },
                RunEvent::Connected { session_present } => {
                    &&& *final(self) == *old(self)
                    &&& action == RunAction::Select
                    &&& final(shared)@ == old(shared)@.with_connected(Some(session_present))
                },
                RunEvent::ConnectFailed => {
                    &&& *final(self) == *old(self)
                    &&& action == RunAction::AskBackoff(old(self).connect_attempts)
                    &&& final(shared)@ == old(shared)@
                },
                RunEvent::Backoff(None) => {
                    &&& *final(self) == *old(self)
                    &&& action == RunAction::Stop
                    &&& final(shared)@ == old(shared)@
                },
                RunEvent::Backoff(Some(backoff)) => {
                    &&& *final(self) == (MqttStack {
                        connect_attempts: (old(self).connect_attempts + 1) as u8,
                        ..*old(self)
                    })
                    &&& action == RunAction::Sleep(backoff)
                    &&& final(shared)@ == old(shared)@
                },
                RunEvent::Selected(Ok(_)) => {
                    &&& *final(self) == *old(self)
                    &&& action == RunAction::Proceed
                    &&& final(shared)@ == old(shared)@
                },
                RunEvent::Selected(Err(_)) => {
                    &&& !final(self).awaiting_pingresp
                    &&& final(self).connect_attempts == 0
                    &&& final(self).packet_reader@ == old(self).packet_reader@.cleared()
                    &&& final(self).config == old(self).config
                    &&& final(self).last_network_action == old(self).last_network_action
                    &&& final(self).clean_start == old(self).clean_start
                    &&& action == RunAction::Disconnect
                    &&& final(shared)@ == old(shared)@.over()
                },
            },
    {
        match event {
            RunEvent::Ready { transport_connected } => if transport_connected {
                RunAction::Select
            } else {
                let _ = shared.set_connected(None);
                RunAction::Connect
            },
            RunEvent::Connected { session_present } => {
                let _ = shared.set_connected(Some(session_present));
                RunAction::Select
            },
            RunEvent::ConnectFailed => RunAction::AskBackoff(self.connect_attempts),
            RunEvent::Backoff(None) => RunAction::Stop,
            RunEvent::Backoff(Some(backoff)) => {
                self.connect_attempts = self.connect_attempts + 1;
                RunAction::Sleep(backoff)
            },
            RunEvent::Selected(Ok(_)) => RunAction::Proceed,
            RunEvent::Selected(Err(_)) => {
                // Clean state
                let _ = self.reset(shared);
                RunAction::Disconnect
            },
        }
    }
}

/// A publication of ours with QoS 2 is delivered: the broker's `PUBREC` is
/// answered with `PUBREL`, and its `PUBCOMP` then ends the exchange.
pub proof fn law_outgoing_qos2_exchange(
    stacks: (MqttStack<'_>, MqttStack<'_>, MqttStack<'_>),
    views: (SharedView, SharedView, SharedView),
    pubrec: PubRec<'_>,
    pubcomp: PubComp<'_>,
    results: (Result<Outcome, StateError>, Result<Outcome, StateError>),
)
    requires
        views.0.inflight_pub.contains(pubrec.pid@),
        !views.0.outgoing_rel.contains(pubrec.pid@),
        views.0.outgoing_rel.len() < MAX_INFLIGHT,
        pubcomp.pid@ == pubrec.pid@,
        after_event(
            stacks.0,
            views.0,
            Event::Received(ReceivedPacket::PubRec(pubrec)),
            stacks.1,
            views.1,
            results.0,
        ),
        after_event(
            stacks.1,
            views.1,
            Event::Received(ReceivedPacket::PubComp(pubcomp)),
            stacks.2,
            views.2,
            results.1,
        ),
    ensures
        results.0 == Ok::<Outcome, StateError>(
            Outcome { action: Action::Write(Reply::PubRel(pubrec.pid)), wake_tx: true },
        ),
        views.1.outgoing_rel.contains(pubrec.pid@),
        results.1 == Ok::<Outcome, StateError>(
            Outcome { action: Action::Continue, wake_tx: true },
        ),
        views.2 == (SharedView {
            inflight_pub: views.0.inflight_pub.remove(pubrec.pid@),
            ..views.0
        }),
{
    assert(views.2.outgoing_rel =~= views.0.outgoing_rel);
}

/// A publication with QoS 2 that we receive is acknowledged with `PUBREC`, and
/// the broker's `PUBREL` is then answered with `PUBCOMP`, once.
pub proof fn law_incoming_qos2_exchange(
    stacks: (MqttStack<'_>, MqttStack<'_>, MqttStack<'_>, MqttStack<'_>),
    views: (SharedView, SharedView, SharedView, SharedView),
    pid: Pid,
    pubrel: PubRel,
    results: (
        Result<Outcome, StateError>,
        Result<Outcome, StateError>,
        Result<Outcome, StateError>,
    ),
)
    requires
        !views.0.incoming_pub.contains(pid@),
        pubrel.pid == pid,
        after_event(
            stacks.0,
            views.0,
            Event::Buffered(QosPid::ExactlyOnce(pid)),
            stacks.1,
            views.1,
            results.0,
        ),
        after_event(
            stacks.1,
            views.1,
            Event::Received(ReceivedPacket::PubRel(pubrel)),
            stacks.2,
            views.2,
            results.1,
        ),
        after_event(
            stacks.2,
            views.2,
            Event::Received(ReceivedPacket::PubRel(pubrel)),
            stacks.3,
            views.3,
            results.2,
        ),
    ensures
        results.0 == Ok::<Outcome, StateError>(
            Outcome { action: Action::Write(Reply::PubRec(pid)), wake_tx: false },
        ),
        results.1 == Ok::<Outcome, StateError>(
            Outcome { action: Action::Write(Reply::PubComp(pid)), wake_tx: true },
        ),
        views.2 == views.0,
        results.2 == Err::<Outcome, StateError>(StateError::Unsolicited(pid@)),
        views.3 == views.0,
{
    assert(views.2.incoming_pub =~= views.0.incoming_pub);
    assert(views.3.incoming_pub =~= views.0.incoming_pub);
}

/// A ping that the broker does not answer before the next one is due is an
/// error. One that it answers is none.
pub proof fn law_pings_have_to_be_answered(
    stacks: (MqttStack<'_>, MqttStack<'_>, MqttStack<'_>, MqttStack<'_>),
    view: SharedView,
    after: SharedView,
    results: (
        Result<Outcome, StateError>,
        Result<Outcome, StateError>,
        Result<Outcome, StateError>,
    ),
)
    requires
        after_event(stacks.0, view, Event::KeepAlive, stacks.1, view, results.0),
        after_event(
            stacks.1,
            view,
            Event::Received(ReceivedPacket::PingResp),
            stacks.2,
            view,
            results.1,
        ),
    ensures
        after_event(stacks.1, view, Event::KeepAlive, stacks.3, after, results.2)
            ==> results.2 == Err::<Outcome, StateError>(StateError::AwaitPingResp),
        after_event(stacks.2, view, Event::KeepAlive, stacks.3, after, results.2)
            ==> results.2 == Ok::<Outcome, StateError>(
            Outcome { action: Action::Write(Reply::PingReq), wake_tx: false },
        ),
{
}

/// An acknowledgement that nobody waits for changes nothing.
pub proof fn law_unsolicited_acknowledgements_change_nothing(
    stacks: (MqttStack<'_>, MqttStack<'_>),
    view: SharedView,
    after: SharedView,
    packet: ReceivedPacket<'_>,
    res: Result<Outcome, StateError>,
)
    requires
        match packet {
            ReceivedPacket::PubAck(p) => !view.inflight_pub.contains(p.pid@),
            ReceivedPacket::PubRec(p) => !view.inflight_pub.contains(p.pid@),
            ReceivedPacket::PubRel(p) => !view.incoming_pub.contains(p.pid@),
            ReceivedPacket::PubComp(p) => !view.outgoing_rel.contains(p.pid@),
            ReceivedPacket::SubAck(p) => !view.awaits_sub_ack(p.pid@),
            ReceivedPacket::UnsubAck(p) => view.awaits_unsub_ack(p.pid@) is None,
            _ => false,
        },
        after_event(stacks.0, view, Event::Received(packet), stacks.1, after, res),
    ensures
        stacks.1 == stacks.0,
        after == view,
        !(res matches Ok(Outcome { action: Action::Write(_), .. })),
{
    match packet {
        ReceivedPacket::PubAck(p) => {
            assert(after.inflight_pub =~= view.inflight_pub);
        },
        ReceivedPacket::PubRel(p) => {
            assert(after.incoming_pub =~= view.incoming_pub);
        },
        ReceivedPacket::PubComp(p) => {
            assert(after.outgoing_rel =~= view.outgoing_rel);
        },
        _ => {},
    }
}

/// The broker can shorten the keep alive interval, but not lengthen it.
pub proof fn law_keep_alive_is_only_shortened(interval: u64, max_qos: QoS, block: Seq<u8>)
    ensures
        negotiated_by(interval, max_qos, block).0 <= interval,
        qos_code(negotiated_by(interval, max_qos, block).1) >= qos_code(max_qos),
    decreases block.len(),
{
    if block.len() > 0 {
        if let Ok((property, n)) = property_at(block) {
            if 0 < n <= block.len() {
                let (interval, max_qos) = negotiated(interval, max_qos, property);
                law_keep_alive_is_only_shortened(interval, max_qos, block.skip(n as int));
            }
        }
    }
}

/// A `PUBACK`, whatever its reason code is, ends the publication that it is
/// for: its packet identifier is not in flight any more, every other one is as
/// before, and those that wait are woken. Nothing is sent, and nothing else
/// changes.
pub proof fn law_puback_ends_a_publication<'a, 'p>(
    stack: &mut MqttStack<'a>,
    shared: &mut Shared,
    p: PubAck<'p>,
    res: Result<Outcome, StateError>,
)
    requires
        call_ensures(
            MqttStack::select,
            (stack, shared, Event::Received(ReceivedPacket::PubAck(p))),
            res,
        ),
    ensures
        ({
            let before = old(shared)@;
            let after = final(shared)@;
            &&& res == Ok::<Outcome, StateError>(
                Outcome { action: Action::Continue, wake_tx: true },
            )
            &&& !after.inflight_pub.contains(p.pid@)
            &&& forall|pid: u16|
                pid != p.pid@ ==> (#[trigger] after.inflight_pub.contains(pid)
                    <==> before.inflight_pub.contains(pid))
            &&& after == (SharedView { inflight_pub: after.inflight_pub, ..before })
            &&& *final(stack) == *old(stack)
        }),
{
}

/// A `PUBREC`, whatever its reason code is, moves the publication that it is
/// for on: it is answered with `PUBREL`, the packet identifier is not in flight
/// any more but waits for its `PUBCOMP`, and every other one is as before. One
/// that is for no publication is an error.
pub proof fn law_pubrec_is_answered<'a, 'p>(
    stack: &mut MqttStack<'a>,
    shared: &mut Shared,
    p: PubRec<'p>,
    res: Result<Outcome, StateError>,
)
    requires
        call_ensures(
            MqttStack::select,
            (stack, shared, Event::Received(ReceivedPacket::PubRec(p))),
            res,
        ),
    ensures
        ({
            let before = old(shared)@;
            let after = final(shared)@;
            &&& res == if before.inflight_pub.contains(p.pid@) {
                Ok(Outcome { action: Action::Write(Reply::PubRel(p.pid)), wake_tx: true })
            } else {
                Err(StateError::Unsolicited(p.pid@))
            }
            &&& !after.inflight_pub.contains(p.pid@)
            &&& before.inflight_pub.contains(p.pid@) && before.outgoing_rel.len() < MAX_INFLIGHT
                ==> after.outgoing_rel.contains(p.pid@)
            &&& forall|pid: u16|
                pid != p.pid@ ==> (#[trigger] after.inflight_pub.contains(pid)
                    <==> before.inflight_pub.contains(pid))
            &&& forall|pid: u16|
                pid != p.pid@ ==> (#[trigger] after.outgoing_rel.contains(pid)
                    <==> before.outgoing_rel.contains(pid))
            &&& before.outgoing_rel.contains(p.pid@) ==> after.outgoing_rel.contains(p.pid@)
            &&& before.outgoing_rel.len() >= MAX_INFLIGHT ==> after.outgoing_rel
                == before.outgoing_rel
            &&& !before.inflight_pub.contains(p.pid@) ==> after == before
            &&& after == (SharedView {
                inflight_pub: after.inflight_pub,
                outgoing_rel: after.outgoing_rel,
                ..before
            })
            &&& *final(stack) == *old(stack)
        }),
{
}

/// A `PUBCOMP`, whatever its reason code is, ends the exchange that it is for,
/// and wakes those that wait if there is one. Every other one goes on.
pub proof fn law_pubcomp_ends_an_exchange<'a, 'p>(
    stack: &mut MqttStack<'a>,
    shared: &mut Shared,
    p: PubComp<'p>,
    res: Result<Outcome, StateError>,
)
    requires
        call_ensures(
            MqttStack::select,
            (stack, shared, Event::Received(ReceivedPacket::PubComp(p))),
            res,
        ),
    ensures
        ({
            let before = old(shared)@;
            let after = final(shared)@;
            &&& res matches Ok(outcome) && outcome.action == Action::Continue && (outcome.wake_tx
                <==> before.outgoing_rel.contains(p.pid@))
            &&& !after.outgoing_rel.contains(p.pid@)
            &&& forall|pid: u16|
                pid != p.pid@ ==> (#[trigger] after.outgoing_rel.contains(pid)
                    <==> before.outgoing_rel.contains(pid))
            &&& after == (SharedView { outgoing_rel: after.outgoing_rel, ..before })
            &&& *final(stack) == *old(stack)
        }),
{
}

/// A `PUBREL` is answered with `PUBCOMP` if and only if a publication with its
/// packet identifier has been received and not been released yet. It is
/// released then, and every other one is as before.
pub proof fn law_pubrel_is_answered<'a>(
    stack: &mut MqttStack<'a>,
    shared: &mut Shared,
    p: PubRel,
    res: Result<Outcome, StateError>,
)
    requires
        call_ensures(
            MqttStack::select,
            (stack, shared, Event::Received(ReceivedPacket::PubRel(p))),
            res,
        ),
    ensures
        ({
            let before = old(shared)@;
            let after = final(shared)@;
            &&& res == if before.incoming_pub.contains(p.pid@) {
                Ok(Outcome { action: Action::Write(Reply::PubComp(p.pid)), wake_tx: true })
            } else {
                Err(StateError::Unsolicited(p.pid@))
            }
            &&& !after.incoming_pub.contains(p.pid@)
            &&& forall|pid: u16|
                pid != p.pid@ ==> (#[trigger] after.incoming_pub.contains(pid)
                    <==> before.incoming_pub.contains(pid))
            &&& after == (SharedView { incoming_pub: after.incoming_pub, ..before })
            &&& *final(stack) == *old(stack)
        }),
{
}

/// A publication that has been handed to the subscribers is acknowledged as its
/// quality of service demands: not at all with QoS 0, with `PUBACK` with QoS 1
/// and with `PUBREC` with QoS 2. With QoS 2 its packet identifier is known until
/// it is released. Nothing else changes.
pub proof fn law_publications_are_acknowledged<'a>(
    stack: &mut MqttStack<'a>,
    shared: &mut Shared,
    qos_pid: QosPid,
    res: Result<Outcome, StateError>,
)
    requires
        call_ensures(MqttStack::select, (stack, shared, Event::Buffered(qos_pid)), res),
    ensures
        ({
            let before = old(shared)@;
            let after = final(shared)@;
            &&& res matches Ok(outcome) && !outcome.wake_tx
            &&& qos_pid is AtMostOnce ==> res->Ok_0.action == Action::Continue
            &&& qos_pid matches QosPid::AtLeastOnce(pid) ==> res->Ok_0.action == Action::Write(
                Reply::PubAck(pid),
            )
            &&& qos_pid matches QosPid::ExactlyOnce(pid) ==> res->Ok_0.action == Action::Write(
                Reply::PubRec(pid),
            )
            &&& forall|pid: u16| #[trigger]
                after.incoming_pub.contains(pid) <==> before.incoming_pub.contains(pid) || (
                qos_pid matches QosPid::ExactlyOnce(new) && new@ == pid)
            &&& after == (SharedView { incoming_pub: after.incoming_pub, ..before })
            &&& *final(stack) == *old(stack)
        }),
{
}

/// Every other packet changes at most what it is about. A `PUBLISH` is to be
/// read on, an answer to a ping ends the wait for it, and neither of them, nor
/// a `CONNACK` or a `DISCONNECT`, changes the session or is answered.
pub proof fn law_other_packets_leave_the_session<'a, 'p>(
    stack: &mut MqttStack<'a>,
    shared: &mut Shared,
    packet: ReceivedPacket<'p>,
    res: Result<Outcome, StateError>,
)
    requires
        call_ensures(MqttStack::select, (stack, shared, Event::Received(packet)), res),
        packet is PartialPublish || packet is PingResp || packet is ConnAck || packet is Disconnect,
    ensures
        res == Ok::<Outcome, StateError>(
            Outcome {
                action: if packet is PartialPublish {
                    Action::Buffer
                } else {
                    Action::Continue
                },
                wake_tx: false,
            },
        ),
        final(shared)@ == old(shared)@,
        packet is PingResp ==> !final(stack).awaiting_pingresp,
        !(packet is PingResp) ==> final(stack).awaiting_pingresp == old(stack).awaiting_pingresp,
        *final(stack) == (MqttStack {
            awaiting_pingresp: final(stack).awaiting_pingresp,
            ..*old(stack)
        }),
{
}

/// A `SUBACK` that is waited for hands its codes to those that wait and wakes
/// them. One that is not changes nothing. No other request is touched.
pub proof fn law_suback_hands_over_its_codes<'a, 'p>(
    stack: &mut MqttStack<'a>,
    shared: &mut Shared,
    p: SubAck<'p>,
    res: Result<Outcome, StateError>,
)
    requires
        call_ensures(
            MqttStack::select,
            (stack, shared, Event::Received(ReceivedPacket::SubAck(p))),
            res,
        ),
    ensures
        ({
            let before = old(shared)@;
            let after = final(shared)@;
            let awaited = before.ack_status.contains_key(p.pid@) && before.ack_status[p.pid@]
                == AckStatus::AwaitingSubAck;
            &&& res == Ok::<Outcome, StateError>(
                Outcome { action: Action::Continue, wake_tx: awaited },
            )
            &&& awaited ==> after.ack_status.contains_key(p.pid@) && (
            after.ack_status[p.pid@] matches AckStatus::Acked(held) && held@ == p.codes@)
            &&& !awaited ==> after == before
            &&& forall|pid: u16|
                pid != p.pid@ ==> (#[trigger] after.ack_status.contains_key(pid)
                    <==> before.ack_status.contains_key(pid)) && (before.ack_status.contains_key(pid)
                    ==> after.ack_status[pid] == before.ack_status[pid])
            &&& after == (SharedView { ack_status: after.ack_status, ..before })
            &&& *final(stack) == *old(stack)
        }),
{
}

/// An `UNSUBACK` that is waited for hands its codes, each by its number, to
/// those that wait for them, or just ends the wait if nobody is interested in
/// them, and wakes those that wait. One that is not waited for changes nothing.
/// No other request is touched.
pub proof fn law_unsuback_hands_over_its_codes<'a, 'p>(
    stack: &mut MqttStack<'a>,
    shared: &mut Shared,
    p: UnsubAck<'p>,
    res: Result<Outcome, StateError>,
)
    requires
        call_ensures(
            MqttStack::select,
            (stack, shared, Event::Received(ReceivedPacket::UnsubAck(p))),
            res,
        ),
    ensures
        ({
            let before = old(shared)@;
            let after = final(shared)@;
            let awaited = before.ack_status.contains_key(p.pid@)
                && before.ack_status[p.pid@] is AwaitingUnsubAck;
            &&& res == Ok::<Outcome, StateError>(
                Outcome { action: Action::Continue, wake_tx: awaited },
            )
            &&& awaited && before.ack_status[p.pid@] == AckStatus::AwaitingUnsubAck(true)
                ==> after.ack_status.contains_key(p.pid@) && (
            after.ack_status[p.pid@] matches AckStatus::Acked(held) && held@.len() == p.codes@.len()
                && forall|i: int|
                0 <= i < p.codes@.len() ==> #[trigger] held@[i] == p.codes@[i].code())
            &&& awaited && before.ack_status[p.pid@] == AckStatus::AwaitingUnsubAck(false)
                ==> !after.ack_status.contains_key(p.pid@)
            &&& !awaited ==> after == before
            &&& forall|pid: u16|
                pid != p.pid@ ==> (#[trigger] after.ack_status.contains_key(pid)
                    <==> before.ack_status.contains_key(pid)) && (before.ack_status.contains_key(pid)
                    ==> after.ack_status[pid] == before.ack_status[pid])
            &&& after == (SharedView { ack_status: after.ack_status, ..before })
            &&& *final(stack) == *old(stack)
        }),
{
}

/// A frame that has been sent is not outgoing any more, whichever it is, and
/// those that wait are woken. Every other one is as before.
pub proof fn law_sent_frames_are_not_outgoing<'a>(
    stack: &mut MqttStack<'a>,
    shared: &mut Shared,
    sent: u16,
    res: Result<Outcome, StateError>,
)
    requires
        call_ensures(MqttStack::select, (stack, shared, Event::Sent { pid: sent }), res),
    ensures
        ({
            let before = old(shared)@;
            let after = final(shared)@;
            &&& res == Ok::<Outcome, StateError>(
                Outcome { action: Action::Continue, wake_tx: true },
            )
            &&& sent != 0 ==> !after.outgoing_pid.contains(sent)
            &&& forall|pid: u16|
                pid != sent || pid == 0 ==> (#[trigger] after.outgoing_pid.contains(pid)
                    <==> before.outgoing_pid.contains(pid))
            &&& after == (SharedView { outgoing_pid: after.outgoing_pid, ..before })
            &&& *final(stack) == *old(stack)
        }),
{
}

/// When nothing has happened for too long the broker is pinged, unless it still
/// owes the answer to the last ping: that is an error. What could not be
/// received is one only if the connection is broken. Neither changes the
/// session.
pub proof fn law_idle_connections_are_pinged<'a, 'p>(
    stack: &mut MqttStack<'a>,
    shared: &mut Shared,
    event: Event<'p>,
    res: Result<Outcome, StateError>,
)
    requires
        call_ensures(MqttStack::select, (stack, shared, event), res),
        event is KeepAlive || event is ReceiveFailed || event is Discarded,
    ensures
        final(shared)@ == old(shared)@,
        *final(stack) == (MqttStack {
            awaiting_pingresp: final(stack).awaiting_pingresp,
            ..*old(stack)
        }),
        event is KeepAlive ==> final(stack).awaiting_pingresp && res == if old(stack).awaiting_pingresp {
            Err(StateError::AwaitPingResp)
        } else {
            Ok(Outcome { action: Action::Write(Reply::PingReq), wake_tx: false })
        },
        !(event is KeepAlive) ==> final(stack).awaiting_pingresp == old(stack).awaiting_pingresp,
        event matches Event::ReceiveFailed(StateError::Io(kind)) ==> res == Err::<
            Outcome,
            StateError,
        >(StateError::Io(kind)),
        res is Err ==> event is KeepAlive || (event matches Event::ReceiveFailed(StateError::Io(_))),
        res is Ok && !(event is KeepAlive) ==> res->Ok_0 == (Outcome {
            action: Action::Continue,
            wake_tx: false,
        }),
{
}

/// The keep alive interval in microseconds that a property of a `CONNACK` asks
/// for, if it asks for one.
pub open spec fn demanded_interval(property: PropertyView) -> Option<int> {
    match property.value {
        ValueView::TwoByteInteger(secs) if property.id == PropertyIdentifier::ServerKeepAlive =>
            Some(secs * 1_000_000),
        _ => None,
    }
}

/// The quality of service that a property of a `CONNACK` names, if it names one:
/// 1 if the number stands for none.
pub open spec fn named_qos(property: PropertyView) -> Option<u8> {
    match property.value {
        ValueView::Byte(code) if property.id == PropertyIdentifier::MaximumQoS => Some(
            if code <= 2 {
                code
            } else {
                1
            },
        ),
        _ => None,
    }
}

proof fn lemma_negotiated_by(interval: u64, max_qos: QoS, block: Seq<u8>)
    ensures
        ({
            let (micros, qos) = negotiated_by(interval, max_qos, block);
            let properties = readable_properties(block);
            &&& micros <= interval
            &&& qos_code(qos) >= qos_code(max_qos)
            &&& forall|i: int|
                0 <= i < properties.len() ==> (demanded_interval(#[trigger] properties[i]) matches Some(
                    demanded,
                ) ==> micros <= demanded)
            &&& forall|i: int|
                0 <= i < properties.len() ==> (named_qos(#[trigger] properties[i]) matches Some(
                    named,
                ) ==> named <= qos_code(qos))
            &&& micros == interval || exists|i: int|
                0 <= i < properties.len() && demanded_interval(#[trigger] properties[i]) == Some(
                    micros as int,
                )
            &&& qos == max_qos || exists|i: int|
                0 <= i < properties.len() && named_qos(#[trigger] properties[i]) == Some(
                    qos_code(qos),
                )
        }),
    decreases block.len(),
{
    let properties = readable_properties(block);
    if block.len() > 0 {
        if let Ok((property, n)) = property_at(block) {
            if 0 < n <= block.len() {
                let rest = block.skip(n as int);
                let after = readable_properties(rest);
                let (first, qos) = negotiated(interval, max_qos, property);
                lemma_negotiated_by(first, qos, rest);
                let (micros, last) = negotiated_by(first, qos, rest);
                assert(properties =~= seq![property] + after);
                assert(properties[0] == property);
                assert forall|i: int| 0 <= i < properties.len() implies (demanded_interval(
                    #[trigger] properties[i],
                ) matches Some(demanded) ==> micros <= demanded) by {
                    if i > 0 {
                        assert(properties[i] == after[i - 1]);
                    }
                }
                assert forall|i: int| 0 <= i < properties.len() implies (named_qos(
                    #[trigger] properties[i],
                ) matches Some(named) ==> named <= qos_code(last)) by {
                    if i > 0 {
                        assert(properties[i] == after[i - 1]);
                    }
                }
                if micros != first {
                    let i = choose|i: int|
                        0 <= i < after.len() && demanded_interval(#[trigger] after[i]) == Some(
                            micros as int,
                        );
                    assert(properties[i + 1] == after[i]);
                }
                if last != qos {
                    let i = choose|i: int|
                        0 <= i < after.len() && named_qos(#[trigger] after[i]) == Some(
                            qos_code(last),
                        );
                    assert(properties[i + 1] == after[i]);
                }
            }
        }
    }
}

/// The answer to a request to connect is taken over. The keep alive interval is
/// then the shortest one of ours and those that the broker asks for, and the
/// quality of service the largest one of ours and those that it names. The rest
/// of the configuration stays. If and only if the broker has accepted the
/// connection is the next session to go on with this one.
pub proof fn law_connack_is_taken_over<'a, 'p>(
    stack: &mut MqttStack<'a>,
    p: ConnAck<'p>,
    res: Result<bool, ConnectionError>,
)
    requires
        call_ensures(MqttStack::connect_mqtt, (stack, Ok(ReceivedPacket::ConnAck(p))), res),
    ensures
        ({
            let before = old(stack).config;
            let after = final(stack).config;
            let interval = after.keepalive_interval.micros;
            let properties = readable_properties(p.properties.block());
            &&& interval <= before.keepalive_interval.micros
            &&& forall|i: int|
                0 <= i < properties.len() ==> (demanded_interval(#[trigger] properties[i]) matches Some(
                    demanded,
                ) ==> interval <= demanded)
            &&& interval == before.keepalive_interval.micros || exists|i: int|
                0 <= i < properties.len() && demanded_interval(#[trigger] properties[i]) == Some(
                    interval as int,
                )
            &&& qos_code(after.max_qos) >= qos_code(before.max_qos)
            &&& forall|i: int|
                0 <= i < properties.len() ==> (named_qos(#[trigger] properties[i]) matches Some(
                    named,
                ) ==> named <= qos_code(after.max_qos))
            &&& after.max_qos == before.max_qos || exists|i: int|
                0 <= i < properties.len() && named_qos(#[trigger] properties[i]) == Some(
                    qos_code(after.max_qos),
                )
            &&& after == (Config {
                keepalive_interval: after.keepalive_interval,
                max_qos: after.max_qos,
                ..before
            })
        }),
        res == if p.reason_code.code() < 0x80 {
            Ok(p.session_present)
        } else {
            Err(ConnectionError::ConnectionRefused)
        },
        res is Ok ==> !final(stack).clean_start && final(stack).connect_attempts == 0,
        res is Err ==> final(stack).clean_start == old(stack).clean_start
            && final(stack).connect_attempts == old(stack).connect_attempts,
        final(stack).awaiting_pingresp == old(stack).awaiting_pingresp,
        final(stack).last_network_action == old(stack).last_network_action,
        final(stack).packet_reader == old(stack).packet_reader,
{
    lemma_negotiated_by(
        old(stack).config.keepalive_interval.micros,
        old(stack).config.max_qos,
        p.properties.block(),
    );
}

/// Only a `CONNACK` answers a request to connect. Whatever else comes, or if
/// nothing does, is an error that changes nothing.
pub proof fn law_only_connack_answers_connect<'a, 'p>(
    stack: &mut MqttStack<'a>,
    answer: Result<ReceivedPacket<'p>, StateError>,
    res: Result<bool, ConnectionError>,
)
    requires
        call_ensures(MqttStack::connect_mqtt, (stack, answer), res),
        !(answer matches Ok(ReceivedPacket::ConnAck(_))),
    ensures
        *final(stack) == *old(stack),
        res == Err::<bool, ConnectionError>(
            if answer is Ok {
                ConnectionError::NotConnAck
            } else {
                ConnectionError::FlushTimeout
            },
        ),
{
}

/// The engine connects if and only if the transport is not connected, waits for
/// events while it is, and after a failed attempt waits for as long as it is
/// told to, or stops. An error ends the session: nothing of it is left, and the
/// transport is to be closed.
pub proof fn law_run<'a>(
    stack: &mut MqttStack<'a>,
    shared: &mut Shared,
    event: RunEvent,
    action: RunAction,
)
    requires
        call_ensures(MqttStack::run, (stack, shared, event), action),
        event matches RunEvent::Backoff(Some(_)) ==> old(stack).connect_attempts < u8::MAX,
    ensures
        ({
            let before = old(shared)@;
            let after = final(shared)@;
            let up = event matches RunEvent::Ready { transport_connected } && transport_connected;
            let failed = event matches RunEvent::Selected(Err(_));
            &&& action is Connect <==> event is Ready && !up
            &&& action is Select <==> up || event is Connected
            &&& action is AskBackoff <==> event is ConnectFailed
            &&& action is AskBackoff ==> action == RunAction::AskBackoff(
                old(stack).connect_attempts,
            )
            &&& action is Stop <==> (event matches RunEvent::Backoff(None))
            &&& event matches RunEvent::Backoff(Some(backoff)) ==> action == RunAction::Sleep(
                backoff,
            )
            &&& action is Disconnect <==> failed
            &&& event matches RunEvent::Selected(Ok(_)) ==> action == RunAction::Proceed
            &&& event matches RunEvent::Connected { session_present } ==> after.connected == Some(
                session_present,
            )
            &&& action is Connect || failed ==> after.connected is None
            &&& !(action is Connect) && !failed && !(event is Connected) ==> after == before
            &&& failed ==> {
                &&& forall|pid: u16| !#[trigger] after.inflight_pub.contains(pid)
                &&& forall|pid: u16| !#[trigger] after.outgoing_pid.contains(pid)
                &&& forall|pid: u16| !#[trigger] after.outgoing_rel.contains(pid)
                &&& forall|pid: u16| !#[trigger] after.incoming_pub.contains(pid)
                &&& forall|pid: u16| !#[trigger] after.ack_status.contains_key(pid)
                &&& !final(stack).awaiting_pingresp
            }
            &&& !failed ==> {
                &&& after.inflight_pub == before.inflight_pub
                &&& after.outgoing_pid == before.outgoing_pid
                &&& after.outgoing_rel == before.outgoing_rel
                &&& after.incoming_pub == before.incoming_pub
                &&& after.ack_status == before.ack_status
                &&& *final(stack) == (MqttStack {
                    connect_attempts: final(stack).connect_attempts,
                    ..*old(stack)
                })
            }
            &&& after.last_pid == before.last_pid
            &&& final(stack).connect_attempts == if failed {
                0
            } else if action is Sleep {
                old(stack).connect_attempts + 1
            } else {
                old(stack).connect_attempts as int
            }
            &&& final(stack).config == old(stack).config
            &&& final(stack).clean_start == old(stack).clean_start
        }),
{
}

/// The time until the next ping and the time since the last action add up to
/// the keep alive interval. If that is over, there is nothing to wait for.
pub proof fn law_keep_alive_sleep(
    last_action: Instant,
    interval: Duration,
    now: Instant,
    sleep: Duration,
)
    requires
        call_ensures(
            MqttStack::calculate_keep_alive_sleep,
            (last_action, interval, now),
            sleep,
        ),
        last_action.micros + interval.micros <= u64::MAX,
    ensures
        now.micros - last_action.micros <= interval.micros ==> sleep.micros + (now.micros
            - last_action.micros) == interval.micros,
        now.micros - last_action.micros >= interval.micros ==> sleep.micros == 0,
{
}

proof fn lemma_short_frame(first: u8, body: Seq<u8>)
    requires
        body.len() < 128,
    ensures
        frame(first, body) == seq![first, body.len() as u8] + body,
{
    reveal_with_fuel(varint_groups, 2);
    assert(frame(first, body) =~= seq![first, body.len() as u8] + body);
}

/// What the engine sends on its own account is on the wire: the packet type and
/// its flags, the length, and the packet identifier with its high byte first.
/// There has to be room for it and the longest possible fixed header.
pub proof fn law_replies_on_the_wire<'b>(
    buf: &'b mut [u8],
    reply: Reply,
    res: Result<&'b [u8], StateError>,
)
    requires
        call_ensures(encode_reply, (buf, reply), res),
    ensures
        match reply {
            Reply::PingReq => {
                &&& res is Ok <==> old(buf)@.len() >= 5
                &&& res matches Ok(bytes) ==> bytes@ == seq![0xc0u8, 0u8]
            },
            Reply::PubAck(pid) | Reply::PubRec(pid) | Reply::PubRel(pid) | Reply::PubComp(pid) => {
                &&& res is Ok <==> old(buf)@.len() >= 7
                &&& res matches Ok(bytes) ==> {
                    &&& bytes@.len() == 4
                    &&& bytes@[0] == match reply {
                        Reply::PubAck(_) => 0x40u8,
                        Reply::PubRec(_) => 0x50,
                        Reply::PubRel(_) => 0x62,
                        _ => 0x70,
                    }
                    &&& bytes@[1] == 2
                    &&& bytes@[2] * 256 + bytes@[3] == pid@
                }
            },
        },
{
    lemma_short_frame(reply_byte(reply), reply_body(reply));
    if reply is PingReq {
        assert(seq![0xc0u8, 0u8] + Seq::<u8>::empty() =~= seq![0xc0u8, 0u8]);
    }
}

/// The packet that ends a session is on the wire: `DISCONNECT` for the normal
/// reason, with a session expiry interval of 0.
pub proof fn law_disconnect_on_the_wire<'b>(buf: &'b mut [u8], res: Result<&'b [u8], StateError>)
    requires
        call_ensures(MqttStack::encode_disconnect, (buf,), res),
    ensures
        res is Ok <==> old(buf)@.len() >= 12,
        res matches Ok(bytes) ==> bytes@ == seq![0xe0u8, 7, 0, 5, 17, 0, 0, 0, 0],
{
    reveal_with_fuel(varint_groups, 2);
    let block = session_expiry(0);
    assert(block =~= seq![17u8, 0, 0, 0, 0]);
    assert(properties_bytes(block) =~= seq![5u8, 17, 0, 0, 0, 0]);
    let body = seq![0u8] + properties_bytes(block);
    assert(body =~= seq![0u8, 5, 17, 0, 0, 0, 0]);
    lemma_short_frame(0xe0, body);
    assert(frame(0xe0, body) =~= seq![0xe0u8, 7, 0, 5, 17, 0, 0, 0, 0]);
}

/// Whether a CONNECT packet is one of MQTT 5 that says what a configuration says,
/// with a session that outlives the connection for ten minutes.
#[verifier::opaque]
pub open spec fn says(found: ConnectView, config: Config<'_>, clean_start: bool) -> bool {
    let micros = config.keepalive_interval.micros;
    &&& found.protocol == seq![0x4du8, 0x51, 0x54, 0x54]
    &&& found.level == 5
    &&& found.clean_start == clean_start
    &&& micros < 65536 * 1_000_000 ==> found.keep_alive * 1_000_000 <= micros < (found.keep_alive
        + 1) * 1_000_000
    &&& found.properties == seq![17u8, 0, 0, 2, 88]
    &&& found.client_id == config.client_id.spec_bytes()
    &&& match (found.last_will, config.last_will) {
        (Some(will), Some(set)) => {
            &&& will.topic == set.topic.spec_bytes()
            &&& will.data == set.data@
            &&& will.properties == set.properties.block()
            &&& will.retained == set.retained
            &&& will.qos == match set.qos {
                QoS::AtMostOnce => 0int,
                QoS::AtLeastOnce => 1,
                QoS::ExactlyOnce => 2,
            }
        },
        (None, None) => true,
        _ => false,
    }
    &&& match (found.username, config.username) {
        (Some(username), Some(set)) => username == set.spec_bytes(),
        (None, None) => true,
        _ => false,
    }
    &&& match (found.password, config.password) {
        (Some(password), Some(set)) => password == set@,
        (None, None) => true,
        _ => false,
    }
}

/// The request to connect is on the wire what the configuration says: a CONNECT
/// packet of MQTT 5 in which a reader finds the client identifier, the keep alive
/// interval in seconds, the will and the credentials, with a session that
/// outlives the connection for ten minutes.
#[verifier::rlimit(40)]
#[verifier::spinoff_prover]
pub proof fn law_connect_on_the_wire<'a, 'b>(
    stack: &MqttStack<'a>,
    buf: &'b mut [u8],
    res: Result<&'b [u8], StateError>,
)
    requires
        stack.config.last_will matches Some(will) ==> will.properties.valid(),
        stack.config.client_id.spec_bytes().len() <= 0xffff,
        stack.config.last_will matches Some(will) ==> will.topic.spec_bytes().len() <= 0xffff
            && will.data@.len() <= 0xffff,
        stack.config.username matches Some(username) ==> username.spec_bytes().len() <= 0xffff,
        stack.config.password matches Some(password) ==> password@.len() <= 0xffff,
        call_ensures(MqttStack::<'a>::encode_connect, (stack, buf), res),
    ensures
        res matches Err(e) ==> e == StateError::Deserialization,
        res matches Ok(bytes) ==> (connect_in(bytes@) matches Some(found) && says(
            found,
            stack.config,
            stack.clean_start,
        )),
{
    let properties = choose|properties: Properties<'a>|
        #![trigger connect_request(*stack, properties)]
        properties.block() == session_expiry(600) && encoded(
            0x10,
            connect_request(*stack, properties).body(),
            old(buf)@.len(),
            res,
        );
    lemma_connect_sent(*stack, properties, old(buf)@.len(), res);
    lemma_request_says(*stack, properties);
}

/// The request to connect can be encoded if and only if it fits behind the
/// longest possible fixed header: eighteen bytes, the client identifier and what
/// there is of a will, a user name and a password.
#[verifier::rlimit(40)]
#[verifier::spinoff_prover]
pub proof fn law_connect_fits<'a, 'b>(
    stack: &MqttStack<'a>,
    buf: &'b mut [u8],
    res: Result<&'b [u8], StateError>,
)
    requires
        stack.config.last_will matches Some(will) ==> will.properties.valid(),
        call_ensures(MqttStack::<'a>::encode_connect, (stack, buf), res),
    ensures
        ({
            let config = stack.config;
            let len = 18 + config.client_id.spec_bytes().len() + optional_len(
                config.last_will,
                config.username,
                config.password,
            );
            res is Ok <==> 5 + len <= old(buf)@.len() && len <= 268435455
        }),
{
    let properties = choose|properties: Properties<'a>|
        #![trigger connect_request(*stack, properties)]
        properties.block() == session_expiry(600) && encoded(
            0x10,
            connect_request(*stack, properties).body(),
            old(buf)@.len(),
            res,
        );
    lemma_expiry_len();
    lemma_protocol_bytes();
    lemma_connect_len(connect_request(*stack, properties));
    lemma_encoded(connect_request(*stack, properties).body(), old(buf)@.len(), res);
}

proof fn lemma_encoded(body: Seq<u8>, capacity: nat, res: Result<&[u8], StateError>)
    requires
        encoded(0x10, body, capacity, res),
    ensures
        res is Ok <==> 5 + body.len() <= capacity && body.len() <= 268435455,
{
}

proof fn lemma_expiry_len()
    ensures
        properties_bytes(session_expiry(600)).len() == 6,
{
    reveal_with_fuel(varint_groups, 2);
}

proof fn lemma_request_says<'a>(stack: MqttStack<'a>, properties: Properties<'a>)
    requires
        properties.block() == session_expiry(600),
    ensures
        says(connect_request(stack, properties)@, stack.config, stack.clean_start),
{
    reveal(says);
    lemma_protocol_bytes();
    assert(session_expiry(600) =~= seq![17u8, 0, 0, 2, 88]);
}

proof fn lemma_protocol_bytes()
    ensures
        vstd::utf8::encode_utf8("MQTT"@) == seq![0x4du8, 0x51, 0x54, 0x54],
{
    reveal_strlit("MQTT");
    vstd::utf8::is_ascii_chars_encode_utf8("MQTT"@);
    assert(vstd::utf8::encode_utf8("MQTT"@) =~= seq![0x4du8, 0x51, 0x54, 0x54]);
}

proof fn lemma_connect_sent<'a>(
    stack: MqttStack<'a>,
    properties: Properties<'a>,
    capacity: nat,
    res: Result<&[u8], StateError>,
)
    requires
        properties.block() == session_expiry(600),
        stack.config.last_will matches Some(will) ==> will.properties.valid(),
        connect_request(stack, properties).representable(),
        encoded(0x10, connect_request(stack, properties).body(), capacity, res),
    ensures
        res matches Ok(bytes) ==> connect_in(bytes@) == Some(connect_request(stack, properties)@),
{
    if let Ok(bytes) = res {
        lemma_connect_found(connect_request(stack, properties), bytes@);
    }
}

/// What a reader finds in a whole CONNECT packet.
#[verifier::opaque]
pub open spec fn connect_in(s: Seq<u8>) -> Option<ConnectView> {
    match varint_at(s.skip(1), 0) {
        Ok((len, n)) => if s[0] == 0x10 && 1 + n + len == s.len() {
            match connect_found(s.skip(1 + n as int)) {
                Some((found, rest)) => if rest.len() == 0 {
                    Some(found)
                } else {
                    None
                },
                None => None,
            }
        } else {
            None
        },
        Err(_) => None,
    }
}

proof fn lemma_connect_found(connect: Connect<'_>, s: Seq<u8>)
    requires
        s == frame(0x10, connect.body()),
        connect.body().len() <= MAX_VARINT,
        connect.properties.block().len() <= MAX_VARINT,
        connect.last_will matches Some(will) ==> will.properties.block().len() <= MAX_VARINT,
        connect.representable(),
    ensures
        connect_in(s) == Some(connect@),
{
    reveal(connect_in);
    let body = connect.body();
    law_varint_round_trip(body.len(), body);
    lemma_varint_size(body.len());
    let n = varint_bytes(body.len()).len() as int;
    assert(s.skip(1) =~= varint_bytes(body.len()) + body);
    assert(s.skip(1 + n) =~= body + Seq::<u8>::empty());
    Connect::lemma_found(connect, Seq::empty());
    assert(connect_found(s.skip(1 + n)) == Some((connect@, Seq::<u8>::empty())));
}

/// A new engine has the configuration that it was given, has read nothing, waits
/// for no answer and asks for a clean start.
pub proof fn law_new_engine<'a>(config: Config<'a>, now: Instant, stack: MqttStack<'a>)
    requires
        call_ensures(MqttStack::<'a>::new, (config, now), stack),
    ensures
        stack.config == config,
        stack.last_network_action == now,
        stack.packet_reader@.read == 0,
        stack.packet_reader@.packet_len is None,
        !stack.awaiting_pingresp,
        stack.clean_start,
        stack.connect_attempts == 0,
{
}

/// After an error the engine starts over: what has been read is dropped, no
/// answer is waited for, attempts to connect are counted anew and nothing of the
/// session is left. Whether the next connection asks for a clean start does not
/// change by that.
pub proof fn law_engine_starts_over<'a>(
    stack: &mut MqttStack<'a>,
    shared: &mut Shared,
    changed: bool,
    pid: u16,
)
    requires
        call_ensures(MqttStack::<'a>::reset, (stack, shared), changed),
    ensures
        final(stack).packet_reader@.read == 0,
        final(stack).packet_reader@.packet_len is None,
        !final(stack).awaiting_pingresp,
        final(stack).connect_attempts == 0,
        final(stack).clean_start == old(stack).clean_start,
        final(stack).config == old(stack).config,
        final(stack).last_network_action == old(stack).last_network_action,
        changed <==> old(shared)@.connected is Some,
        final(shared)@.connected is None,
        final(shared)@.last_pid == old(shared)@.last_pid,
        final(shared)@.clean_session_count == old(shared)@.clean_session_count,
        !final(shared)@.inflight_pub.contains(pid),
        !final(shared)@.ack_status.contains_key(pid),
        !final(shared)@.outgoing_pid.contains(pid),
        !final(shared)@.outgoing_rel.contains(pid),
        !final(shared)@.incoming_pub.contains(pid),
{
}

/// Using the connection puts off when it has to be pinged, and nothing else.
pub proof fn law_using_the_connection<'a>(stack: &mut MqttStack<'a>, now: Instant)
    requires
        call_ensures(MqttStack::<'a>::acted, (stack, now), ()),
    ensures
        final(stack).last_network_action == now,
        final(stack).config == old(stack).config,
        final(stack).packet_reader == old(stack).packet_reader,
        final(stack).awaiting_pingresp == old(stack).awaiting_pingresp,
        final(stack).clean_start == old(stack).clean_start,
        final(stack).connect_attempts == old(stack).connect_attempts,
{
}

/// Only three kinds of events can go beyond the limits of the engine: more codes
/// in a SUBACK packet that is waited for, or in any UNSUBACK packet, than a
/// request can ask for, and more publications that are to be delivered exactly
/// once than can be in flight.
pub proof fn law_limits_of_the_engine<'p>(shared: &Shared, event: &Event<'p>, res: bool)
    requires
        call_ensures(MqttStack::is_within_limits, (shared, event), res),
    ensures
        !res ==> match *event {
            Event::Received(ReceivedPacket::SubAck(p)) => p.codes@.len() > MAX_SUB_TOPICS_PER_MSG
                && shared@.ack_status.contains_key(p.pid@)
                && shared@.ack_status[p.pid@] is AwaitingSubAck,
            Event::Received(ReceivedPacket::UnsubAck(p)) => p.codes@.len() > MAX_SUB_TOPICS_PER_MSG,
            Event::Buffered(QosPid::ExactlyOnce(pid)) => shared@.incoming_pub.len() >= MAX_INFLIGHT
                && !shared@.incoming_pub.contains(pid@),
            _ => false,
        },
        *event matches Event::Received(ReceivedPacket::UnsubAck(p)) ==> (p.codes@.len()
            > MAX_SUB_TOPICS_PER_MSG ==> !res),
        *event matches Event::Received(ReceivedPacket::SubAck(p)) ==> (p.codes@.len()
            > MAX_SUB_TOPICS_PER_MSG && shared@.ack_status.contains_key(p.pid@)
            && shared@.ack_status[p.pid@] is AwaitingSubAck ==> !res),
        *event matches Event::Buffered(QosPid::ExactlyOnce(pid)) ==> (shared@.incoming_pub.len()
            >= MAX_INFLIGHT && !shared@.incoming_pub.contains(pid@) ==> !res),
{
}

} // verus!
