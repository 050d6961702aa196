//! What to do with a task that asks to be woken.
use vstd::prelude::*;

verus! {

/// What to do with a task that asks to be woken.
#[derive(Debug, Copy, Clone, PartialEq, Eq, Structural)]
pub enum Registration {
    /// The task will be woken already.
    Known,
    /// Remember the task.
    Push,
    /// There is no room: wake all tasks, and only then remember the task. Any
    /// task that still waits will simply register again.
    WakeAllAndPush,
}

/// Decides on a task that asks to be woken, where `registered` of `slots`
/// slots are taken, and one of them wakes the same task if `known`.
pub fn register(known: bool, registered: usize, slots: usize) -> (registration: Registration)
    requires
        0 < slots,
        registered <= slots,
    ensures
        known <==> registration == Registration::Known,
        !known ==> (registration == Registration::WakeAllAndPush <==> registered == slots),
{
    if known {
        Registration::Known
    } else if registered == slots {
        Registration::WakeAllAndPush
    } else {
        Registration::Push
    }
}

/// A task that will be woken already is not remembered twice, and any other one
/// is. Only if there is no room are the other tasks woken first.
pub proof fn law_every_task_is_woken(
    known: bool,
    registered: usize,
    slots: usize,
    registration: Registration,
)
    requires
        0 < slots,
        registered <= slots,
        call_ensures(register, (known, registered, slots), registration),
    ensures
        known ==> registration == Registration::Known,
        !known && registered < slots ==> registration == Registration::Push,
        !known && registered == slots ==> registration == Registration::WakeAllAndPush,
{
}

} // verus!
