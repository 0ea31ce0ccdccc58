//! The dispatch of hardware interrupts.
use vstd::prelude::*;
use crate::interrupt::Interrupt;
use crate::process::scheduler::{GlobalScheduler, Switch};
use crate::process::state::{EventPoll, State};
use crate::traps::trap_frame::TrapFrame;

verus! {

/// Handles the pending interrupt `interrupt`, taken while the context `tf`
/// was on the CPU. The timer interrupt preempts the running process: it is
/// set aside as `Ready` and the next ready process is switched in; the
/// caller then arms the timer again with `TICK`. Any other interrupt is
/// ignored: `None`, and nothing changes.
pub fn handle_irq<P: EventPoll>(
    interrupt: Interrupt,
    tf: &mut TrapFrame,
    scheduler: &mut GlobalScheduler<P>,
    now: u64,
) -> (r: Option<Switch>)
    requires
        old(scheduler).initialized(),
        interrupt == Interrupt::Timer1 ==> old(scheduler)@->Some_0.current is Some,
    ensures
        final(scheduler).initialized(),
        interrupt == Interrupt::Timer1 ==> r is Some && r->Some_0 !is NoCurrent && (
            final(scheduler)@->Some_0,
            *final(tf),
            r->Some_0,
        ) == old(scheduler)@->Some_0.switch(State::Ready, *old(tf), now),
        interrupt != Interrupt::Timer1 ==> r is None && final(scheduler)@ == old(scheduler)@
            && *final(tf) == *old(tf),
{
    match interrupt {
        Interrupt::Timer1 => Some(scheduler.switch(State::Ready, tf, now)),
        _ => None,
    }
}

} // verus!
