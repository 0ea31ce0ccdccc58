//! The record of a process: its saved context, its stack and its state.
use vstd::prelude::*;
use crate::allocator::bin::Allocator;
use crate::process::stack::{Stack, STACK_ALIGN, STACK_SIZE};
use crate::process::state::{EventPoll, EventPollFn, State};
use crate::traps::trap_frame::TrapFrame;

verus! {

/// Type alias for the type of a process ID.
pub type Id = u64;

/// A structure that represents the complete state of a process.
#[derive(Debug)]
pub struct Process<P> {
    /// The saved trap frame of a process.
    pub trap_frame: Box<TrapFrame>,
    /// The memory allocation used for the process's stack.
    pub stack: Stack,
    /// The scheduling state of the process.
    pub state: State<P>,
}

impl<P: EventPoll> Process<P> {
    /// Creates a new process with a zeroed trap frame, a stack from
    /// `allocator` and a state of `Ready`.
    ///
    /// If enough memory could not be allocated to start the process, returns
    /// `None`. Otherwise returns `Some` of the new process.
    pub fn new(allocator: &mut Allocator) -> (process: Option<Process<P>>)
        requires
            old(allocator)@.wf(),
        ensures
            final(allocator)@ == old(allocator)@.allocate(STACK_SIZE, STACK_ALIGN).0,
            final(allocator)@.wf(),
            match old(allocator)@.allocate(STACK_SIZE, STACK_ALIGN).1 {
                Ok(addr) => process matches Some(p) && p.trap_frame.is_zeroed() && p.stack.base()
                    == addr && p.state is Ready,
                Err(_) => process is None,
            },
    {
        match Stack::new(allocator) {
            Some(stack) => Some(
                Process { trap_frame: Box::new(TrapFrame::default()), stack, state: State::Ready },
            ),
            None => None,
        }
    }

    /// Creates a process that starts at the address `entry` on an empty
    /// stack.
    pub fn create_process(entry: u64, allocator: &mut Allocator) -> (process: Option<Process<P>>)
        requires
            old(allocator)@.wf(),
        ensures
            final(allocator)@ == old(allocator)@.allocate(STACK_SIZE, STACK_ALIGN).0,
            final(allocator)@.wf(),
            match old(allocator)@.allocate(STACK_SIZE, STACK_ALIGN).1 {
                Ok(addr) => {
                    &&& process matches Some(p)
                    &&& p.stack.base() == addr
                    &&& p.state is Ready
                    &&& p.trap_frame.stack_pointer == addr + STACK_SIZE
                    &&& p.trap_frame.program_counter == entry
                    &&& p.trap_frame.thread_id == 0
                    &&& p.trap_frame.program_state == 0
                    &&& forall|i: int| 0 <= i < 32 ==> #[trigger] p.trap_frame.general_registers[i] == 0
                    &&& forall|i: int| 0 <= i < 32 ==> #[trigger] p.trap_frame.floating_point_registers[i] == 0
                },
                Err(_) => process is None,
            },
    {
        match Process::<P>::new(allocator) {
            Some(mut process) => {
                let sp = process.stack.top() as u64;
                process.trap_frame.stack_pointer = sp;
                process.trap_frame.program_counter = entry;
                Some(process)
            },
            None => None,
        }
    }

    /// Whether a readiness test at time `now` finds the process ready, and
    /// the process after the test.
    ///
    /// A `Ready` process is ready and a `Running` one is not. A `Waiting`
    /// process is as ready as its predicate says: the predicate is called
    /// on the process while the state holds no event, and is put back
    /// afterwards if the state is still `Waiting`.
    pub open spec fn ready_spec(self, now: u64) -> (bool, Process<P>) {
        match self.state {
            State::Ready => (true, self),
            State::Running => (false, self),
            State::Waiting(poll_fn) => {
                let detached = Process { state: State::Waiting(EventPollFn::Nop), ..self };
                let (fired, poll_fn, polled) = poll_fn.call_spec(detached, now);
                match polled.state {
                    State::Waiting(_) => (fired, Process { state: State::Waiting(poll_fn), ..polled }),
                    _ => (fired, polled),
                }
            },
        }
    }

    /// Returns `true` if this process is ready to be scheduled at time
    /// `now`.
    ///
    /// This function returns `true` only if the state is `Ready`, or the
    /// state is `Waiting` and the event being waited for has arrived: the
    /// event is polled to find out. The caller moves a ready process to
    /// `Running` when it dispatches it.
    pub fn is_ready(&mut self, now: u64) -> (ready: bool)
        ensures
            (ready, *final(self)) == old(self).ready_spec(now),
    {
        let mut poll_fn: EventPollFn<P> = EventPollFn::Nop;
        match &mut self.state {
            State::Ready => {
                return true;
            },
            State::Running => {
                return false;
            },
            State::Waiting(f) => {
                std::mem::swap(f, &mut poll_fn);
            },
        }
        let ret = poll_fn.call(self, now);
        if let State::Waiting(f) = &mut self.state {
            std::mem::swap(f, &mut poll_fn);
        }
        ret
    }
}

} // verus!
