//! What the client and the stack know of the session with the broker.
use vstd::prelude::*;

use crate::collections::{AckCodes, AckMap, PidSet};
use crate::encoding::utils::{pid_after, Pid};
use crate::error::Error;
use crate::crate_config::{MAX_INFLIGHT, MAX_SUBSCRIBERS};

verus! {

/// How far the acknowledgement of a subscription has come.
#[derive(Debug, PartialEq)]
pub enum AckStatus {
    AwaitingSubAck,
    AwaitingUnsubAck(bool),
    Acked(AckCodes),
}

pub struct Shared {
    /// Packet id of the last outgoing packet
    pub last_pid: Pid,
    /// Whether we are currently connected to the broker.
    ///
    /// - `Some(true)` if using an existing session
    /// - `Some(false)` if using an clean session
    /// - `None` if disconnected
    pub connected: Option<bool>,
    /// Monotonic counter incremented only when a reconnect lands with
    /// `session_present=false` (clean session). A subscription snapshots
    /// this on creation so that it can detect that the broker has
    /// dropped our subscriptions.
    /// Transient disconnects and session-resume reconnects do not bump
    /// this counter — both broker and local subscriber state survive, so
    /// the subscription stays valid.
    pub clean_session_count: u8,
    /// Outgoing QoS 1, 2 publishes which aren't acked yet
    pub inflight_pub: PidSet,
    pub ack_status: AckMap,
    pub outgoing_pid: PidSet,
    /// Packet ids of released QoS 2 publishes
    pub outgoing_rel: PidSet,
    /// Packet ids on incoming QoS 2 publishes
    pub incoming_pub: PidSet,
}

/// What `Shared` holds.
#[verifier::ext_equal]
pub ghost struct SharedView {
    pub last_pid: u16,
    pub connected: Option<bool>,
    pub clean_session_count: u8,
    pub inflight_pub: Set<u16>,
    pub ack_status: Map<u16, AckStatus>,
    pub outgoing_pid: Set<u16>,
    pub outgoing_rel: Set<u16>,
    pub incoming_pub: Set<u16>,
}

impl View for Shared {
    type V = SharedView;

    open spec fn view(&self) -> SharedView {
        SharedView {
            last_pid: self.last_pid@,
            connected: self.connected,
            clean_session_count: self.clean_session_count,
            inflight_pub: self.inflight_pub@,
            ack_status: self.ack_status@,
            outgoing_pid: self.outgoing_pid@,
            outgoing_rel: self.outgoing_rel@,
            incoming_pub: self.incoming_pub@,
        }
    }
}

impl SharedView {
    /// The state once the connection is `connected`.
    pub open spec fn with_connected(self, connected: Option<bool>) -> SharedView {
        SharedView {
            connected,
            clean_session_count: if connected == Some(false) && self.connected != Some(false) {
                ((self.clean_session_count + 1) % 256) as u8
            } else {
                self.clean_session_count
            },
            ..self
        }
    }

    /// The state once the session is over.
    pub open spec fn over(self) -> SharedView {
        SharedView {
            last_pid: self.last_pid,
            connected: None,
            clean_session_count: self.clean_session_count,
            inflight_pub: Set::empty(),
            ack_status: Map::empty(),
            outgoing_pid: Set::empty(),
            outgoing_rel: Set::empty(),
            incoming_pub: Set::empty(),
        }
    }
}

impl Shared {
    pub fn new() -> (shared: Self)
        ensures
            shared@ == (SharedView {
                last_pid: 1,
                connected: None,
                clean_session_count: 0,
                inflight_pub: Set::empty(),
                ack_status: Map::empty(),
                outgoing_pid: Set::empty(),
                outgoing_rel: Set::empty(),
                incoming_pub: Set::empty(),
            }),
    {
        Shared {
            last_pid: Pid::new(),
            connected: None,
            clean_session_count: 0,
            inflight_pub: PidSet::new(),
            ack_status: AckMap::new(),
            outgoing_pid: PidSet::new(),
            outgoing_rel: PidSet::new(),
            incoming_pub: PidSet::new(),
        }
    }

    /// Forgets the session. Returns whether the connection state has changed.
    pub fn reset(&mut self) -> (changed: bool)
        ensures
            final(self)@ == old(self)@.over(),
            changed == (old(self).connected is Some),
    {
        let changed: bool = self.set_connected(None);
        self.inflight_pub.clear();
        self.ack_status.clear();
        self.outgoing_pid.clear();
        self.outgoing_rel.clear();
        self.incoming_pub.clear();
        changed
    }

    /// Returns the packet identifier of the next outgoing packet.
    pub fn next_pid(&mut self) -> (pid: Pid)
        ensures
            pid@ == pid_after(old(self)@.last_pid, 1),
            final(self)@ == (SharedView { last_pid: pid@, ..old(self)@ }),
    {
        self.last_pid = self.last_pid + 1;
        self.last_pid
    }

    /// Sets whether we are connected to the broker. Returns whether that has
    /// changed.
    pub fn set_connected(&mut self, connected: Option<bool>) -> (changed: bool)
        ensures
            final(self)@ == old(self)@.with_connected(connected),
            changed == (old(self).connected != connected),
    {
        let changed: bool = match (self.connected, connected) {
            (None, None) => false,
            (Some(previous), Some(present)) => previous != present,
            _ => true,
        };
        self.connected = connected;
        if changed {
            // Only count clean-session reconnects. A transient disconnect
            // (`None`) or a session-resume reconnect (`Some(true)`) leaves
            // both the broker's and our local subscriber state intact, so
            // active subscriptions stay valid.
            if let Some(false) = connected {
                self.clean_session_count = self.clean_session_count.wrapping_add(1);
            }
        }
        changed
    }

    /// Takes note of a QoS 1 or 2 publication that has yet to be acknowledged.
    pub fn track_publish(&mut self, pid: Pid) -> (res: Result<(), Error>)
        ensures
            if old(self)@.inflight_pub.contains(pid@) || old(self)@.inflight_pub.len()
                < MAX_INFLIGHT {
                &&& res == Ok::<(), Error>(())
                &&& final(self)@ == (SharedView {
                    inflight_pub: old(self)@.inflight_pub.insert(pid@),
                    ..old(self)@
                })
            } else {
                &&& res == Err::<(), Error>(Error::MaxInflight)
                &&& final(self)@ == old(self)@
            },
    {
        let ghost before = self@.inflight_pub;
        match self.inflight_pub.insert(pid.get()) {
            Ok(_) => {
                assert(before.contains(pid@) ==> before.insert(pid@) =~= before);
                Ok(())
            },
            Err(_) => Err(Error::MaxInflight),
        }
    }

    /// Takes note of a request to subscribe that has yet to be acknowledged.
    pub fn await_sub_ack(&mut self, pid: Pid) -> (res: Result<(), Error>)
        ensures
            if old(self)@.ack_status.contains_key(pid@) || old(self)@.ack_status.dom().len()
                < MAX_SUBSCRIBERS {
                &&& res == Ok::<(), Error>(())
                &&& final(self)@ == (SharedView {
                    ack_status: old(self)@.ack_status.insert(pid@, AckStatus::AwaitingSubAck),
                    ..old(self)@
                })
            } else {
                &&& res == Err::<(), Error>(Error::TooManyClients)
                &&& final(self)@ == old(self)@
            },
    {
        match self.ack_status.insert(pid.get(), AckStatus::AwaitingSubAck) {
            Ok(_) => Ok(()),
            Err(_) => Err(Error::TooManyClients),
        }
    }

    /// Takes note of a request to unsubscribe that has yet to be acknowledged,
    /// and of whether the codes of the acknowledgement are of interest.
    pub fn await_unsub_ack(&mut self, pid: Pid, interest: bool) -> (res: Result<(), Error>)
        ensures
            if old(self)@.ack_status.contains_key(pid@) || old(self)@.ack_status.dom().len()
                < MAX_SUBSCRIBERS {
                &&& res == Ok::<(), Error>(())
                &&& final(self)@ == (SharedView {
                    ack_status: old(self)@.ack_status.insert(
                        pid@,
                        AckStatus::AwaitingUnsubAck(interest),
                    ),
                    ..old(self)@
                })
            } else {
                &&& res == Err::<(), Error>(Error::TooManyClients)
                &&& final(self)@ == old(self)@
            },
    {
        match self.ack_status.insert(pid.get(), AckStatus::AwaitingUnsubAck(interest)) {
            Ok(_) => Ok(()),
            Err(_) => Err(Error::TooManyClients),
        }
    }

    /// Returns the codes of an acknowledgement, once it has been received.
    pub fn acked_codes(&self, pid: Pid) -> (res: Option<&[u8]>)
        ensures
            match res {
                Some(codes) => self@.ack_status.contains_key(pid@) && (
                self@.ack_status[pid@] matches AckStatus::Acked(held) && codes@ == held@),
                None => !(self@.ack_status.contains_key(pid@) && self@.ack_status[pid@] is Acked),
            },
    {
        match self.ack_status.get(pid.get()) {
            Some(AckStatus::Acked(codes)) => Some(codes.as_slice()),
            _ => None,
        }
    }

    /// Forgets an acknowledgement that has been received, so that there is room
    /// for another request. Returns whether there was one.
    pub fn forget_acked(&mut self, pid: Pid) -> (forgotten: bool)
        ensures
            forgotten == (old(self)@.ack_status.contains_key(pid@)
                && old(self)@.ack_status[pid@] is Acked),
            final(self)@ == if forgotten {
                SharedView { ack_status: old(self)@.ack_status.remove(pid@), ..old(self)@ }
            } else {
                old(self)@
            },
    {
        if self.acked_codes(pid).is_none() {
            return false;
        }
        let _ = self.ack_status.remove(pid.get());
        true
    }

    /// Returns whether a QoS 1 or 2 publication has yet to be acknowledged.
    pub fn is_inflight(&self, pid: Pid) -> (inflight: bool)
        ensures
            inflight == self@.inflight_pub.contains(pid@),
    {
        self.inflight_pub.contains(pid.get())
    }
}

/// Over any connection state change, the clean session counter moves if and
/// only if a connection with a clean session follows a state that was not one.
pub proof fn law_clean_sessions_are_counted(view: SharedView, connected: Option<bool>)
    ensures
        (view.with_connected(connected).clean_session_count != view.clean_session_count) <==> (
        connected == Some(false) && view.connected != Some(false)),
        view.with_connected(connected).with_connected(connected) == view.with_connected(connected),
{
}

/// Over any connection state change the counter of clean sessions moves by one
/// if it moves, and nothing else of the session changes.
pub proof fn law_set_connected(shared: &mut Shared, connected: Option<bool>, changed: bool)
    requires
        call_ensures(Shared::set_connected, (shared, connected), changed),
    ensures
        changed <==> old(shared)@.connected != connected,
        final(shared)@.connected == connected,
        final(shared)@.clean_session_count == if changed && connected == Some(false) {
            if old(shared)@.clean_session_count == 255 {
                0
            } else {
                old(shared)@.clean_session_count + 1
            }
        } else {
            old(shared)@.clean_session_count as int
        },
        final(shared)@.last_pid == old(shared)@.last_pid,
        final(shared)@.inflight_pub == old(shared)@.inflight_pub,
        final(shared)@.ack_status == old(shared)@.ack_status,
        final(shared)@.outgoing_pid == old(shared)@.outgoing_pid,
        final(shared)@.outgoing_rel == old(shared)@.outgoing_rel,
        final(shared)@.incoming_pub == old(shared)@.incoming_pub,
{
}

/// Once the session has been forgotten nothing is in flight any more and nothing
/// is awaited, but packet identifiers and clean sessions are counted on.
pub proof fn law_reset(shared: &mut Shared, changed: bool, pid: u16)
    requires
        call_ensures(Shared::reset, (shared,), changed),
    ensures
        changed <==> old(shared)@.connected is Some,
        final(shared)@.connected is None,
        final(shared)@.last_pid == old(shared)@.last_pid,
        final(shared)@.clean_session_count == old(shared)@.clean_session_count,
        !final(shared)@.inflight_pub.contains(pid),
        !final(shared)@.ack_status.contains_key(pid),
        !final(shared)@.outgoing_pid.contains(pid),
        !final(shared)@.outgoing_rel.contains(pid),
        !final(shared)@.incoming_pub.contains(pid),
{
}

/// Packet identifiers are given out one after the other, and after the largest
/// one comes 1. Two packets in a row never get the same one.
pub proof fn law_next_pid(shared: &mut Shared, pid: Pid)
    requires
        old(shared)@.last_pid != 0,
        call_ensures(Shared::next_pid, (shared,), pid),
    ensures
        pid@ == if old(shared)@.last_pid == 0xffff {
            1
        } else {
            old(shared)@.last_pid + 1
        },
        pid@ != 0,
        pid@ != old(shared)@.last_pid,
        final(shared)@.last_pid == pid@,
        final(shared)@.connected == old(shared)@.connected,
        final(shared)@.clean_session_count == old(shared)@.clean_session_count,
        final(shared)@.inflight_pub == old(shared)@.inflight_pub,
        final(shared)@.ack_status == old(shared)@.ack_status,
        final(shared)@.outgoing_pid == old(shared)@.outgoing_pid,
        final(shared)@.outgoing_rel == old(shared)@.outgoing_rel,
        final(shared)@.incoming_pub == old(shared)@.incoming_pub,
{
}

/// A publication that has been taken note of is in flight, and so is what was
/// in flight before. It is refused only if there is no room for it.
pub proof fn law_tracked_publications_are_in_flight(
    shared: &mut Shared,
    pid: Pid,
    res: Result<(), Error>,
    other: Pid,
    inflight: bool,
)
    requires
        call_ensures(Shared::track_publish, (shared, pid), res),
    ensures
        call_ensures(Shared::is_inflight, (final(shared), other), inflight) ==> inflight == (old(
            shared,
        )@.inflight_pub.contains(other@) || (res is Ok && other@ == pid@)),
        res matches Err(e) ==> {
            &&& e == Error::MaxInflight
            &&& old(shared)@.inflight_pub.len() >= MAX_INFLIGHT
            &&& !old(shared)@.inflight_pub.contains(pid@)
        },
        old(shared)@.inflight_pub.len() < MAX_INFLIGHT ==> res is Ok,
        old(shared)@.inflight_pub.contains(pid@) ==> res is Ok,
        final(shared)@.last_pid == old(shared)@.last_pid,
        final(shared)@.connected == old(shared)@.connected,
        final(shared)@.clean_session_count == old(shared)@.clean_session_count,
        final(shared)@.ack_status == old(shared)@.ack_status,
        final(shared)@.outgoing_pid == old(shared)@.outgoing_pid,
        final(shared)@.outgoing_rel == old(shared)@.outgoing_rel,
        final(shared)@.incoming_pub == old(shared)@.incoming_pub,
{
}

/// A request to subscribe, or to unsubscribe, that has been taken note of awaits
/// its acknowledgement, and has no codes yet. Other requests are left as they
/// are. It is refused only if there is no room for it.
pub proof fn law_requests_await_their_acknowledgement(
    shared: &mut Shared,
    pid: Pid,
    interest: Option<bool>,
    res: Result<(), Error>,
    codes: Option<&[u8]>,
    other: u16,
)
    requires
        match interest {
            None => call_ensures(Shared::await_sub_ack, (shared, pid), res),
            Some(interest) => call_ensures(Shared::await_unsub_ack, (shared, pid, interest), res),
        },
    ensures
        res is Ok ==> {
            &&& final(shared)@.ack_status.contains_key(pid@)
            &&& match final(shared)@.ack_status[pid@] {
                AckStatus::AwaitingSubAck => interest is None,
                AckStatus::AwaitingUnsubAck(wanted) => interest == Some(wanted),
                AckStatus::Acked(_) => false,
            }
            &&& call_ensures(Shared::acked_codes, (final(shared), pid), codes) ==> codes is None
        },
        res matches Err(e) ==> {
            &&& e == Error::TooManyClients
            &&& old(shared)@.ack_status.dom().len() >= MAX_SUBSCRIBERS
            &&& !old(shared)@.ack_status.contains_key(pid@)
            &&& final(shared)@ == old(shared)@
        },
        old(shared)@.ack_status.dom().len() < MAX_SUBSCRIBERS ==> res is Ok,
        old(shared)@.ack_status.contains_key(pid@) ==> res is Ok,
        other != pid@ ==> {
            &&& final(shared)@.ack_status.contains_key(other) == old(
                shared,
            )@.ack_status.contains_key(other)
            &&& old(shared)@.ack_status.contains_key(other) ==> final(shared)@.ack_status[other]
                == old(shared)@.ack_status[other]
        },
        final(shared)@.last_pid == old(shared)@.last_pid,
        final(shared)@.connected == old(shared)@.connected,
        final(shared)@.clean_session_count == old(shared)@.clean_session_count,
        final(shared)@.inflight_pub == old(shared)@.inflight_pub,
        final(shared)@.outgoing_pid == old(shared)@.outgoing_pid,
        final(shared)@.outgoing_rel == old(shared)@.outgoing_rel,
        final(shared)@.incoming_pub == old(shared)@.incoming_pub,
{
}

/// The codes of an acknowledgement can be read if and only if it has been
/// received, and exactly then it can be forgotten. After that it has no codes
/// any more, and other requests are left as they are.
pub proof fn law_acknowledgements_are_read_until_forgotten(
    shared: &mut Shared,
    pid: Pid,
    before: Option<&[u8]>,
    forgotten: bool,
    after: Option<&[u8]>,
    other: u16,
)
    requires
        call_ensures(Shared::acked_codes, (&*old(shared), pid), before),
        call_ensures(Shared::forget_acked, (shared, pid), forgotten),
    ensures
        forgotten <==> before is Some,
        before matches Some(codes) ==> old(shared)@.ack_status.contains_key(pid@) && old(
            shared,
        )@.ack_status[pid@] is Acked && codes@ == old(shared)@.ack_status[pid@]->Acked_0@,
        call_ensures(Shared::acked_codes, (final(shared), pid), after) ==> after is None,
        !forgotten ==> final(shared)@ == old(shared)@,
        other != pid@ ==> {
            &&& final(shared)@.ack_status.contains_key(other) == old(
                shared,
            )@.ack_status.contains_key(other)
            &&& old(shared)@.ack_status.contains_key(other) ==> final(shared)@.ack_status[other]
                == old(shared)@.ack_status[other]
        },
        forgotten ==> !final(shared)@.ack_status.contains_key(pid@),
        final(shared)@.last_pid == old(shared)@.last_pid,
        final(shared)@.connected == old(shared)@.connected,
        final(shared)@.clean_session_count == old(shared)@.clean_session_count,
        final(shared)@.inflight_pub == old(shared)@.inflight_pub,
        final(shared)@.outgoing_pid == old(shared)@.outgoing_pid,
        final(shared)@.outgoing_rel == old(shared)@.outgoing_rel,
        final(shared)@.incoming_pub == old(shared)@.incoming_pub,
{
}

/// A new session counts packet identifiers from 1 and is not connected.
pub proof fn law_new_session(shared: Shared, pid: u16)
    requires
        call_ensures(Shared::new, (), shared),
    ensures
        shared@.last_pid == 1,
        shared@.connected is None,
        shared@.clean_session_count == 0,
        !shared@.inflight_pub.contains(pid),
        !shared@.ack_status.contains_key(pid),
        !shared@.outgoing_pid.contains(pid),
        !shared@.outgoing_rel.contains(pid),
        !shared@.incoming_pub.contains(pid),
{
}

} // verus!
