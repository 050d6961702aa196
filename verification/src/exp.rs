use vstd::prelude::*;

verus! {

/// Whether there is a connection to the broker.
#[derive(Debug, PartialEq, Eq, Clone, Copy, Structural)]
pub enum ConnectionState {
    Disconnected,
    Connected,
}

/// A counter that hands out packet identifiers. The first one is `0`, after
/// that it never is.
pub struct Pid(u16);

impl View for Pid {
    type V = u16;

    closed spec fn view(&self) -> u16 {
        self.0
    }
}

/// The packet identifier that follows another one.
pub open spec fn pid_next(pid: u16) -> u16 {
    if pid == u16::MAX {
        1
    } else {
        (pid + 1) as u16
    }
}

impl Pid {
    pub fn new() -> (pid: Self)
        ensures
            pid@ == 0,
    {
        Pid(0)
    }

    pub fn next(&mut self) -> (pid: u16)
        ensures
            pid == old(self)@,
            final(self)@ == pid_next(old(self)@),
            final(self)@ != 0,
    {
        let prev: u16 = self.0;
        self.0 = if prev == u16::MAX {
            1
        } else {
            prev + 1
        };
        prev
    }
}

/// Packet identifiers are handed out one after the other, beginning with 0, and
/// after the largest one comes 1.
pub proof fn law_pids_are_handed_out_in_turn(
    start: Pid,
    counter: &mut Pid,
    first: u16,
)
    requires
        call_ensures(Pid::new, (), start),
        call_ensures(Pid::next, (counter,), first),
    ensures
        start@ == 0,
        first == old(counter)@,
        final(counter)@ == if first == 65535 {
            1
        } else {
            first + 1
        },
{
}

} // verus!
