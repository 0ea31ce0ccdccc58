//! The system calls: `sleep`, built on the waiting state of the scheduler.
use vstd::prelude::*;
use crate::process::process::Process;
use crate::process::scheduler::{GlobalScheduler, Switch};
use crate::process::state::{EventPoll, EventPollFn, Polled, State};
use crate::traps::trap_frame::{TrapFrame, ARGUMENT_REGISTER};

verus! {

/// The number of the system call `sleep`.
pub const SYSCALL_SLEEP: u16 = 1;

/// The time, in microseconds, from `start` to `now` on a 64-bit counter
/// that runs freely and wraps.
pub open spec fn elapsed_spec(start: u64, now: u64) -> u64 {
    if now >= start {
        (now - start) as u64
    } else {
        (now + 0x1_0000_0000_0000_0000 - start) as u64
    }
}

/// The event that a sleeping process waits for: `ms` milliseconds have
/// passed since `start_time`, a time in microseconds.
#[derive(Debug, Clone, Copy, PartialEq, Eq)]
pub struct Sleep {
    /// When the process went to sleep, in microseconds.
    pub start_time: u64,
    /// How long the process asked to sleep, in milliseconds.
    pub ms: u32,
}

impl EventPoll for Sleep {
    /// The event has arrived once the time elapsed since `start_time` is at
    /// least `ms` milliseconds. The poll that finds it so leaves the elapsed
    /// time, in whole milliseconds, in the argument register of the process;
    /// a poll before that changes nothing.
    open spec fn poll_spec(self, process: Process<Sleep>, now: u64) -> Polled<Sleep> {
        let elapsed = elapsed_spec(self.start_time, now);
        if elapsed >= self.ms * 1000 {
            Polled {
                fired: true,
                poll: self,
                process: Process {
                    trap_frame: Box::new(
                        process.trap_frame.with_register(
                            ARGUMENT_REGISTER as int,
                            (elapsed / 1000) as u64,
                        ),
                    ),
                    ..process
                },
            }
        } else {
            Polled { fired: false, poll: self, process }
        }
    }

    proof fn keeps_thread_id(self, process: Process<Sleep>, now: u64) {
    }

    fn poll(&mut self, process: &mut Process<Sleep>, now: u64) -> (fired: bool) {
        let elapsed_time = now.wrapping_sub(self.start_time);
        if elapsed_time >= (self.ms as u64) * 1000 {
            // Return the actual elapsed time from this syscall via x0
            process.trap_frame.general_registers[ARGUMENT_REGISTER] = elapsed_time / 1000;
            true
        } else {
            false
        }
    }
}

/// Sleep for `ms` milliseconds.
///
/// Sets the current process aside until `ms` milliseconds have passed since
/// `now`, and switches to the next ready process. When the process is
/// switched in again, its argument register holds the time that it slept, in
/// milliseconds.
pub fn sleep(ms: u32, tf: &mut TrapFrame, scheduler: &mut GlobalScheduler<Sleep>, now: u64) -> (r:
    Switch)
    requires
        old(scheduler).initialized(),
        old(scheduler)@->Some_0.current is Some,
    ensures
        final(scheduler).initialized(),
        (final(scheduler)@->Some_0, *final(tf), r) == old(scheduler)@->Some_0.switch(
            State::Waiting(EventPollFn::Poll(Sleep { start_time: now, ms })),
            *old(tf),
            now,
        ),
        r !is NoCurrent,
{
    let f = Sleep { start_time: now, ms };
    scheduler.switch(State::Waiting(EventPollFn::Poll(f)), tf, now)
}

/// Handles the system call number `num` of the running process, whose
/// context is `tf`: `sleep`, with the number of milliseconds in the argument
/// register.
pub fn handle_syscall(num: u16, tf: &mut TrapFrame, scheduler: &mut GlobalScheduler<Sleep>, now: u64) -> (r:
    Switch)
    requires
        num == SYSCALL_SLEEP,
        old(scheduler).initialized(),
        old(scheduler)@->Some_0.current is Some,
    ensures
        final(scheduler).initialized(),
        (final(scheduler)@->Some_0, *final(tf), r) == old(scheduler)@->Some_0.switch(
            State::Waiting(
                EventPollFn::Poll(
                    Sleep { start_time: now, ms: (old(tf).general_registers[31] % 0x1_0000_0000) as u32 },
                ),
            ),
            *old(tf),
            now,
        ),
        r !is NoCurrent,
{
    // Pass x0 as the sleeping time for syscall 1: sleep
    let x0 = tf.general_registers[ARGUMENT_REGISTER];
    assert(x0 & 0xFFFF_FFFF == x0 % 0x1_0000_0000) by (bit_vector);
    let ms = (x0 & 0xFFFF_FFFF) as u32;
    sleep(ms, tf, scheduler, now)
}

/// What `sleep` returns to the process: the poll that ends a sleep of `ms`
/// milliseconds is the first one at which at least `ms` milliseconds have
/// passed, and the value it leaves in the argument register is the time
/// passed in whole milliseconds: at least `ms`, and no more than `ms` plus
/// the time, `late` microseconds at most, by which that poll came after the
/// sleep was over.
pub proof fn lemma_sleep_result(event: Sleep, process: Process<Sleep>, now: u64, late: nat)
    ensures
        ({
            let polled = event.poll_spec(process, now);
            let elapsed = elapsed_spec(event.start_time, now);
            let slept = polled.process.trap_frame.general_registers[31];
            &&& polled.fired <==> elapsed >= event.ms * 1000
            &&& polled.poll == event
            &&& polled.process.state == process.state
            &&& polled.process.stack == process.stack
            &&& !polled.fired ==> polled.process == process
            &&& polled.fired ==> slept == elapsed / 1000 && slept >= event.ms
            &&& polled.fired && elapsed <= event.ms * 1000 + late ==> slept <= event.ms + late / 1000
        }),
{
    let polled = event.poll_spec(process, now);
    let elapsed = elapsed_spec(event.start_time, now);
    if polled.fired {
        assert(polled.process.trap_frame.general_registers@
            == process.trap_frame.general_registers@.update(31, (elapsed / 1000) as u64));
        let ms = event.ms as int;
        let e = elapsed as int;
        let l = late as int;
        assert(e / 1000 >= ms) by (nonlinear_arith)
            requires
                e >= ms * 1000,
        ;
        if e <= ms * 1000 + l {
            assert(e / 1000 <= ms + l / 1000) by (nonlinear_arith)
                requires
                    e <= ms * 1000 + l,
                    0 <= l,
            ;
        }
    }
}

} // verus!
