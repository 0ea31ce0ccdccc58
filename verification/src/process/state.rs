//! The scheduling state of a process, and the events a process can wait for.
use vstd::prelude::*;
use crate::process::process::Process;

verus! {

/// What a poll of an event answered, and what it left behind.
pub struct Polled<P> {
    /// Whether the event has arrived.
    pub fired: bool,
    /// The event after the poll.
    pub poll: P,
    /// The process after the poll.
    pub process: Process<P>,
}

/// An event that a process can wait for.
///
/// The scheduler polls the event each time it looks for a process to run,
/// with the process that waits for it and the current time. The poll may
/// inspect and change the process, for example to leave a result in one of
/// its registers, but not its thread ID.
///
/// `poll_spec` and `keeps_thread_id` exist for proofs only and are never
/// called; an implementation in code that is not verified gives them any
/// body.
pub trait EventPoll: Sized {
    /// What a poll at time `now` answers and leaves behind. While the event
    /// is polled, the state of `process` holds no event.
    spec fn poll_spec(self, process: Process<Self>, now: u64) -> Polled<Self>;

    /// A poll leaves the thread ID of the process as it is.
    proof fn keeps_thread_id(self, process: Process<Self>, now: u64)
        ensures
            self.poll_spec(process, now).process.trap_frame.thread_id
                == process.trap_frame.thread_id,
    ;

    /// Polls the event: returns whether it has arrived.
    fn poll(&mut self, process: &mut Process<Self>, now: u64) -> (fired: bool)
        ensures
            (Polled { fired, poll: *final(self), process: *final(process) }) == old(self).poll_spec(
                *old(process),
                now,
            ),
    ;
}

/// The predicate held by a waiting process: an event, or nothing, which
/// never arrives.
#[derive(Debug)]
pub enum EventPollFn<P> {
    /// No event: a poll answers `false` and changes nothing.
    Nop,
    /// The event to poll.
    Poll(P),
}

impl<P: EventPoll> EventPollFn<P> {
    /// What a call at time `now` answers, the predicate after the call and
    /// the process after the call.
    pub open spec fn call_spec(self, process: Process<P>, now: u64) -> (
        bool,
        EventPollFn<P>,
        Process<P>,
    ) {
        match self {
            EventPollFn::Nop => (false, self, process),
            EventPollFn::Poll(event) => {
                let polled = event.poll_spec(process, now);
                (polled.fired, EventPollFn::Poll(polled.poll), polled.process)
            },
        }
    }

    /// Calls the predicate on `process` at time `now`.
    pub fn call(&mut self, process: &mut Process<P>, now: u64) -> (fired: bool)
        ensures
            (fired, *final(self), *final(process)) == old(self).call_spec(*old(process), now),
    {
        match self {
            EventPollFn::Nop => false,
            EventPollFn::Poll(event) => event.poll(process, now),
        }
    }
}

/// The scheduling state of a process.
#[derive(Debug)]
pub enum State<P> {
    /// The process is ready to be scheduled.
    Ready,
    /// The process is waiting on an event to occur before it can be
    /// scheduled.
    Waiting(EventPollFn<P>),
    /// The process is currently running.
    Running,
}

} // verus!
