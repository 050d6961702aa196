use vstd::prelude::*;

use super::error::Error;

verus! {

/// Packet Identifier.
///
/// For packets with `QoS::AtLeastOnce` or `QoS::ExactlyOnce` delivery. MQTT
/// disallows a packet identifier of 0, so no `Pid` has that value.
#[derive(Debug, Clone, Copy, PartialEq, Eq, PartialOrd, Ord, Hash, Structural)]
pub struct Pid {
    value: u16,
}

impl View for Pid {
    type V = u16;

    closed spec fn view(&self) -> u16 {
        self.value
    }
}

/// The identifier `u` steps after `p`, counting 1 up to 65535 and then from 1
/// again.
pub open spec fn pid_after(p: u16, u: u16) -> u16 {
    if p + u > u16::MAX {
        (p + u - u16::MAX) as u16
    } else {
        (p + u) as u16
    }
}

/// The identifier `u` steps before `p`, counting down to 1 and then from 65535
/// again.
pub open spec fn pid_before(p: u16, u: u16) -> u16 {
    if p - u < 1 {
        (p - u + u16::MAX) as u16
    } else {
        (p - u) as u16
    }
}

impl Pid {
    #[verifier::type_invariant]
    spec fn inv(self) -> bool {
        self.value != 0
    }

    /// The `Pid` with some value.
    pub closed spec fn of(value: u16) -> Pid {
        Pid { value }
    }

    /// Returns a new `Pid` with value `1`.
    pub fn new() -> (pid: Self)
        ensures
            pid@ == 1,
    {
        Pid { value: 1 }
    }

    /// Convert `u16` to `Pid`. Will fail for value 0.
    pub fn try_from(u: u16) -> (res: Result<Self, Error>)
        ensures
            u == 0 ==> res == Err::<Pid, Error>(Error::BadIdentifier(0)),
            u != 0 ==> (res matches Ok(pid) && pid@ == u),
    {
        if u == 0 {
            Err(Error::BadIdentifier(u))
        } else {
            Ok(Pid { value: u })
        }
    }

    /// Get the `Pid` as a raw `u16`.
    pub fn get(self) -> (value: u16)
        ensures
            value == self@,
            value != 0,
    {
        proof {
            use_type_invariant(&self);
        }
        self.value
    }
}

impl Default for Pid {
    fn default() -> (pid: Pid)
        ensures
            pid@ == 1,
    {
        Pid::new()
    }
}

impl core::ops::Add<u16> for Pid {
    type Output = Pid;

    /// Adding a `u16` to a `Pid` will wrap around and avoid 0.
    fn add(self, u: u16) -> (sum: Pid)
        ensures
            sum@ == pid_after(self@, u),
    {
        proof {
            use_type_invariant(&self);
        }
        let n: u16 = match self.value.checked_add(u) {
            Some(n) => n,
            None => self.value.wrapping_add(u) + 1,
        };
        Pid { value: n }
    }
}

impl vstd::std_specs::ops::AddSpecImpl<u16> for Pid {
    open spec fn obeys_add_spec() -> bool {
        true
    }

    open spec fn add_req(self, u: u16) -> bool {
        true
    }

    open spec fn add_spec(self, u: u16) -> Pid {
        Pid::of(pid_after(self@, u))
    }
}

impl core::ops::Sub<u16> for Pid {
    type Output = Pid;

    /// Subtracting a `u16` from a `Pid` will wrap around and avoid 0.
    fn sub(self, u: u16) -> (difference: Pid)
        ensures
            difference@ == pid_before(self@, u),
    {
        proof {
            use_type_invariant(&self);
        }
        let n: u16 = if self.value > u {
            self.value - u
        } else if self.value == u {
            u16::MAX
        } else {
            self.value.wrapping_sub(u) - 1
        };
        Pid { value: n }
    }
}

impl vstd::std_specs::ops::SubSpecImpl<u16> for Pid {
    open spec fn obeys_sub_spec() -> bool {
        true
    }

    open spec fn sub_req(self, u: u16) -> bool {
        true
    }

    open spec fn sub_spec(self, u: u16) -> Pid {
        Pid::of(pid_before(self@, u))
    }
}

impl From<Pid> for u16 {
    /// Convert `Pid` to `u16`.
    fn from(p: Pid) -> (value: u16) {
        p.value
    }
}

impl vstd::std_specs::convert::FromSpecImpl<Pid> for u16 {
    open spec fn obeys_from_spec() -> bool {
        true
    }

    open spec fn from_spec(p: Pid) -> u16 {
        p@
    }
}

/// Packet delivery Quality of Service level.
#[derive(Debug, Clone, Copy, PartialEq, Eq, PartialOrd, Ord, Structural)]
pub enum QoS {
    /// `QoS 0`. No ack needed.
    AtMostOnce,
    /// `QoS 1`. One ack needed.
    AtLeastOnce,
    /// `QoS 2`. Two acks needed.
    ExactlyOnce,
}

/// The number that stands for a `QoS` on the wire.
pub open spec fn qos_code(qos: QoS) -> u8 {
    match qos {
        QoS::AtMostOnce => 0,
        QoS::AtLeastOnce => 1,
        QoS::ExactlyOnce => 2,
    }
}

impl From<QoS> for u8 {
    fn from(qos: QoS) -> (code: u8) {
        match qos {
            QoS::AtMostOnce => 0,
            QoS::AtLeastOnce => 1,
            QoS::ExactlyOnce => 2,
        }
    }
}

impl vstd::std_specs::convert::FromSpecImpl<QoS> for u8 {
    open spec fn obeys_from_spec() -> bool {
        true
    }

    open spec fn from_spec(qos: QoS) -> u8 {
        qos_code(qos)
    }
}

/// The `QoS` that a number on the wire stands for, if any.
pub open spec fn qos_of_code(code: u8) -> Result<QoS, Error> {
    if code == 0 {
        Ok(QoS::AtMostOnce)
    } else if code == 1 {
        Ok(QoS::AtLeastOnce)
    } else if code == 2 {
        Ok(QoS::ExactlyOnce)
    } else {
        Err(Error::WrongQos(code))
    }
}

impl TryFrom<u8> for QoS {
    type Error = Error;

    fn try_from(code: u8) -> (res: Result<Self, Error>) {
        match code {
            0 => Ok(QoS::AtMostOnce),
            1 => Ok(QoS::AtLeastOnce),
            2 => Ok(QoS::ExactlyOnce),
            n => Err(Error::WrongQos(n)),
        }
    }
}

impl vstd::std_specs::convert::TryFromSpecImpl<u8> for QoS {
    open spec fn obeys_try_from_spec() -> bool {
        true
    }

    open spec fn try_from_spec(code: u8) -> Result<Self, Error> {
        qos_of_code(code)
    }
}

/// Combined `QoS` and `Pid` of a `Publish` packet.
#[derive(Debug, Clone, Copy, PartialEq, Eq, Structural)]
pub enum QosPid {
    AtMostOnce,
    AtLeastOnce(Pid),
    ExactlyOnce(Pid),
}

impl QosPid {
    /// Extract the `Pid` from a `QosPid`, if any.
    pub fn pid(self) -> (pid: Option<Pid>)
        ensures
            pid == match self {
                QosPid::AtMostOnce => None,
                QosPid::AtLeastOnce(p) => Some(p),
                QosPid::ExactlyOnce(p) => Some(p),
            },
    {
        match self {
            QosPid::AtMostOnce => None,
            QosPid::AtLeastOnce(p) => Some(p),
            QosPid::ExactlyOnce(p) => Some(p),
        }
    }

    /// Extract the `QoS` from a `QosPid`.
    pub fn qos(self) -> (qos: QoS)
        ensures
            qos == match self {
                QosPid::AtMostOnce => QoS::AtMostOnce,
                QosPid::AtLeastOnce(_) => QoS::AtLeastOnce,
                QosPid::ExactlyOnce(_) => QoS::ExactlyOnce,
            },
    {
        match self {
            QosPid::AtMostOnce => QoS::AtMostOnce,
            QosPid::AtLeastOnce(_) => QoS::AtLeastOnce,
            QosPid::ExactlyOnce(_) => QoS::ExactlyOnce,
        }
    }
}

/// Stepping a packet identifier on by any amount never gives 0, and stepping
/// back by the same amount gives the identifier again. The one step that is a
/// full turn short of nothing, 65535, changes nothing either way.
pub proof fn law_pid_steps_undo(p: u16, u: u16)
    requires
        p != 0,
    ensures
        pid_after(p, u) != 0,
        pid_before(p, u) != 0,
        pid_before(pid_after(p, u), u) == p,
        pid_after(pid_before(p, u), u) == p,
        u == u16::MAX ==> pid_after(p, u) == p && pid_before(p, u) == p,
{
}

/// Encoding a `QoS` as a number and decoding that number gives the `QoS` back.
pub proof fn law_qos_code_round_trip(qos: QoS)
    ensures
        qos_of_code(qos_code(qos)) == Ok::<QoS, Error>(qos),
{
}

/// The qualities of service are numbered 0, 1 and 2, and no other number
/// stands for one.
pub proof fn law_qos_numbers(qos: QoS, code: u8)
    ensures
        qos_code(qos) == match qos {
            QoS::AtMostOnce => 0u8,
            QoS::AtLeastOnce => 1,
            QoS::ExactlyOnce => 2,
        },
        qos_of_code(code) is Ok <==> code <= 2,
        qos_of_code(code) matches Ok(found) ==> qos_code(found) == code,
        qos_of_code(code) is Err ==> qos_of_code(code) == Err::<QoS, Error>(Error::WrongQos(code)),
{
}

/// Packet identifiers are counted from 1 to 65535 and then from 1 again: as
/// long as the end is not reached, a step adds to the identifier or takes away
/// from it, and beyond the end it goes on at the other one.
pub proof fn law_pids_are_counted_in_a_ring(p: u16, u: u16)
    requires
        p != 0,
    ensures
        pid_after(p, u) == (p - 1 + u) % 65535 + 1,
        pid_before(p, u) == (p - 1 - u) % 65535 + 1,
{
}

/// A publication has a packet identifier if and only if it is acknowledged.
pub proof fn law_acknowledged_publications_have_a_pid(
    qos_pid: QosPid,
    qos: QoS,
    pid: Option<Pid>,
    given: Pid,
)
    requires
        call_ensures(QosPid::qos, (qos_pid,), qos),
        call_ensures(QosPid::pid, (qos_pid,), pid),
    ensures
        pid is None <==> qos_code(qos) == 0,
        qos_pid == QosPid::AtMostOnce ==> qos_code(qos) == 0,
        qos_pid == QosPid::AtLeastOnce(given) ==> qos_code(qos) == 1 && pid == Some(given),
        qos_pid == QosPid::ExactlyOnce(given) ==> qos_code(qos) == 2 && pid == Some(given),
{
}

/// Any number but 0 is a packet identifier, and is told again. Counting starts
/// at 1.
pub proof fn law_numbers_are_pids(u: u16, res: Result<Pid, Error>, first: Pid, value: u16)
    requires
        call_ensures(Pid::try_from, (u,), res),
        call_ensures(Pid::new, (), first),
        res is Ok ==> call_ensures(Pid::get, (res->Ok_0,), value),
    ensures
        res is Ok <==> u != 0,
        res is Ok ==> value == u,
        res matches Err(e) ==> e == Error::BadIdentifier(0),
        first@ == 1,
{
}

/// Stepping a packet identifier on and back again gives the identifier that it
/// was, and a step of one gives the next one, which is 1 after the largest.
pub proof fn law_steps_of_pids(p: Pid, u: u16, sum: Pid, back: Pid)
    requires
        p@ != 0,
        call_ensures(<Pid as core::ops::Add<u16>>::add, (p, u), sum),
        call_ensures(<Pid as core::ops::Sub<u16>>::sub, (sum, u), back),
    ensures
        back@ == p@,
        sum@ != 0,
        u == 1 && p@ < 65535 ==> sum@ == p@ + 1,
        u == 1 && p@ == 65535 ==> sum@ == 1,
        p@ + u <= 65535 ==> sum@ == p@ + u,
{
}

} // verus!
