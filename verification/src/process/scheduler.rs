//! The round-robin scheduler: a queue of processes, the one at its head
//! running.
//!
//! The scheduler never waits. Where no process is ready it says so, and
//! the caller waits for the next interrupt and asks again with `resume`.
use vstd::prelude::*;
use std::collections::VecDeque;
use crate::allocator::bin::Allocator;
use crate::process::process::{Id, Process};
use crate::process::stack::{STACK_ALIGN, STACK_SIZE};
use crate::process::state::{EventPoll, State};
use crate::traps::trap_frame::{TrapFrame, LINK_REGISTER};

verus! {

/// The `tick` time: the interval of the timer interrupt, in microseconds.
pub const TICK: u32 = 2_000_000;

/// The value that the last ID handed out has in a new scheduler: the first
/// process gets the ID above it.
pub const INITIAL_LAST_ID: Id = 1;

/// How a context switch ended.
#[derive(Debug, Clone, Copy, PartialEq, Eq)]
pub enum Switch {
    /// There was no current process: nothing was done.
    NoCurrent,
    /// The current process was set aside, and no process is ready: the
    /// caller waits for an interrupt and calls `resume`.
    Idle,
    /// The process with this ID was switched in.
    To(Id),
}

/// Polls the processes of `processes` from position `from` on, in order, up
/// to the first one that is ready: the processes as the polls left them, and
/// the position of the ready one, or the length of `processes` if none is
/// ready.
pub open spec fn scan<P: EventPoll>(processes: Seq<Process<P>>, from: int, now: u64) -> (
    Seq<Process<P>>,
    int,
)
    decreases processes.len() - from,
{
    if from < 0 || from >= processes.len() {
        (processes, processes.len() as int)
    } else {
        let (ready, polled) = processes[from].ready_spec(now);
        if ready {
            (processes.update(from, polled), from)
        } else {
            scan(processes.update(from, polled), from + 1, now)
        }
    }
}

/// The state of a scheduler.
pub struct Queue<P> {
    /// The processes, in queue order.
    pub processes: Seq<Process<P>>,
    /// The ID that `add` gave to each process of the queue, in queue order.
    pub ids: Seq<Id>,
    /// The ID of the running process, if one runs.
    pub current: Option<Id>,
    /// The last ID handed out, while there are IDs left.
    pub last_id: Option<Id>,
    /// While a switch waits for a process to become ready: the link register
    /// of the exception handler that asked for the switch.
    pub pending: Option<u64>,
}

impl<P: EventPoll> Queue<P> {
    /// The empty queue of a new scheduler.
    pub open spec fn empty() -> Queue<P> {
        Queue {
            processes: Seq::empty(),
            ids: Seq::empty(),
            current: None,
            last_id: Some(INITIAL_LAST_ID),
            pending: None,
        }
    }

    /// The shape that every scheduler keeps: each process has its ID; a
    /// current process implies a queue that is not empty and no switch in
    /// waiting; a switch in waiting implies a queue that is not empty.
    pub open spec fn wf(self) -> bool {
        &&& self.ids.len() == self.processes.len()
        &&& self.last_id matches Some(last) ==> last < u64::MAX
        &&& self.current is Some ==> self.processes.len() > 0 && self.pending is None
        &&& self.pending is Some ==> self.processes.len() > 0
    }

    /// The saved frames tell the processes apart: the IDs of the queue are
    /// distinct and none is above the last one handed out, the current
    /// process is at the head of the queue, and every other process carries
    /// its ID in its saved frame. (The frame of the current process is live
    /// on the CPU; what its record holds meanwhile is stale.)
    pub open spec fn tracks_ids(self) -> bool {
        &&& self.ids.no_duplicates()
        &&& self.last_id matches Some(last) ==> INITIAL_LAST_ID <= last
        &&& forall|i: int|
            0 <= i < self.ids.len() ==> INITIAL_LAST_ID < #[trigger] self.ids[i] && (self.last_id matches Some(
                last,
            ) ==> self.ids[i] <= last)
        &&& self.current matches Some(id) ==> self.ids[0] == id
        &&& forall|i: int|
            #![trigger self.processes[i]]
            (if self.current is Some { 1int } else { 0int }) <= i < self.processes.len()
                ==> self.processes[i].trap_frame.thread_id == self.ids[i]
    }

    /// At most one process is `Running`, and it is the current one: no
    /// process is `Running` but, where there is a current process, the one
    /// at the head of the queue.
    pub open spec fn one_running(self) -> bool {
        forall|i: int|
            #![trigger self.processes[i]]
            (if self.current is Some { 1int } else { 0int }) <= i < self.processes.len()
                ==> !(self.processes[i].state is Running)
    }

    /// The queue after `process` was added, and the ID it was given; the
    /// queue unchanged and `None` if no ID is left.
    pub open spec fn add(self, process: Process<P>) -> (Queue<P>, Option<Id>) {
        match self.last_id {
            None => (self, None),
            Some(last) => {
                let id = (last + 1) as Id;
                let added = Process {
                    trap_frame: Box::new(TrapFrame { thread_id: id, ..*process.trap_frame }),
                    ..process
                };
                (
                    Queue {
                        processes: self.processes.push(added),
                        ids: self.ids.push(id),
                        current: if self.processes.len() == 0 {
                            Some(id)
                        } else {
                            self.current
                        },
                        last_id: if id == u64::MAX {
                            None
                        } else {
                            Some(id)
                        },
                        pending: self.pending,
                    },
                    Some(id),
                )
            },
        }
    }

    /// The queue after the process at its head was set aside in state
    /// `new_state`, with the live frame `tf` saved in it, and what is in the
    /// live frame afterwards: the stale frame of that process.
    pub open spec fn deschedule(self, new_state: State<P>, tf: TrapFrame) -> (Queue<P>, TrapFrame) {
        let head = self.processes[0];
        let saved = Process { state: new_state, trap_frame: Box::new(tf), ..head };
        (
            Queue {
                processes: self.processes.drop_first().push(saved),
                ids: self.ids.drop_first().push(self.ids[0]),
                current: None,
                pending: Some(tf.general_registers[LINK_REGISTER as int]),
                ..self
            },
            *head.trap_frame,
        )
    }

    /// One pass over the queue at time `now`: the processes are polled in
    /// queue order up to the first ready one, which is moved to the head of
    /// the queue in state `Running`, its saved frame, with the link register
    /// `link` in it, exchanged with the live frame `tf`. Without a ready
    /// process only the polls have happened.
    pub open spec fn pass(self, link: u64, tf: TrapFrame, now: u64) -> (
        Queue<P>,
        TrapFrame,
        Option<Id>,
    ) {
        let (polled, found) = scan(self.processes, 0, now);
        if found >= polled.len() {
            (Queue { processes: polled, ..self }, tf, None)
        } else {
            let process = polled[found];
            let id = process.trap_frame.thread_id;
            let running = Process { state: State::Running, trap_frame: Box::new(tf), ..process };
            (
                Queue {
                    processes: seq![running] + polled.remove(found),
                    ids: seq![self.ids[found]] + self.ids.remove(found),
                    current: Some(id),
                    pending: None,
                    ..self
                },
                process.trap_frame.with_register(LINK_REGISTER as int, link),
                Some(id),
            )
        }
    }

    /// A context switch at time `now`: the current process is set aside in
    /// state `new_state` at the back of the queue, and one pass looks for the
    /// process to run next.
    pub open spec fn switch(self, new_state: State<P>, tf: TrapFrame, now: u64) -> (
        Queue<P>,
        TrapFrame,
        Switch,
    ) {
        if self.current is None {
            (self, tf, Switch::NoCurrent)
        } else {
            let (set_aside, stale) = self.deschedule(new_state, tf);
            let (queue, frame, to) = set_aside.pass(
                tf.general_registers[LINK_REGISTER as int],
                stale,
                now,
            );
            (
                queue,
                frame,
                match to {
                    Some(id) => Switch::To(id),
                    None => Switch::Idle,
                },
            )
        }
    }

    /// Another pass at time `now` for a switch in waiting; nothing where no
    /// switch waits.
    pub open spec fn resume(self, tf: TrapFrame, now: u64) -> (Queue<P>, TrapFrame, Option<Id>) {
        match self.pending {
            Some(link) => self.pass(link, tf, now),
            None => (self, tf, None),
        }
    }
}

/// Process scheduler: a queue of processes with the running one at its head.
pub struct Scheduler<P> {
    processes: VecDeque<Process<P>>,
    current: Option<Id>,
    last_id: Option<Id>,
    pending: Option<u64>,
    ids: Ghost<Seq<Id>>,
}

impl<P: EventPoll> View for Scheduler<P> {
    type V = Queue<P>;

    closed spec fn view(&self) -> Queue<P> {
        Queue {
            processes: self.processes@,
            ids: self.ids@,
            current: self.current,
            last_id: self.last_id,
            pending: self.pending,
        }
    }
}

impl<P: EventPoll> Scheduler<P> {
    /// Returns a new `Scheduler` with an empty queue. The first process
    /// added gets the ID 2.
    pub fn new() -> (scheduler: Scheduler<P>)
        ensures
            scheduler@ == Queue::<P>::empty(),
            scheduler@.wf(),
            scheduler@.tracks_ids(),
    {
        Scheduler {
            processes: VecDeque::new(),
            current: None,
            last_id: Some(INITIAL_LAST_ID),
            pending: None,
            ids: Ghost(Seq::empty()),
        }
    }

    /// The ID of the running process, if one runs.
    pub fn current(&self) -> (id: Option<Id>)
        ensures
            id == self@.current,
    {
        self.current
    }

    /// The number of processes in the queue.
    pub fn len(&self) -> (n: usize)
        ensures
            n == self@.processes.len(),
    {
        self.processes.len()
    }

    /// Whether a switch waits for a process to become ready.
    pub fn is_idle(&self) -> (idle: bool)
        ensures
            idle == self@.pending is Some,
    {
        self.pending.is_some()
    }

    /// Adds a process to the scheduler's queue and returns that process's
    /// ID if a new process can be scheduled. The process ID is newly
    /// allocated for the process and saved in its `trap_frame`. If no further
    /// processes can be scheduled, returns `None`.
    ///
    /// If this is the first process added, it is marked as the current
    /// process. It is the caller's responsibility to ensure that the first
    /// time `switch` is called, that process is executing on the CPU.
    pub fn add(&mut self, process: Process<P>) -> (id: Option<Id>)
        requires
            old(self)@.wf(),
        ensures
            (final(self)@, id) == old(self)@.add(process),
            id is None <==> old(self)@.last_id is None,
            final(self)@.wf(),
    {
        let mut process = process;
        if self.last_id.is_none() {
            return None;
        }
        let last_id = self.last_id.unwrap() + 1;
        process.trap_frame.thread_id = last_id;
        self.processes.push_back(process);
        proof {
            self.ids@ = self.ids@.push(last_id);
        }
        if last_id == u64::MAX {
            self.last_id = None;
        } else {
            self.last_id = Some(last_id);
        }
        if self.processes.len() == 1 {
            self.current = Some(last_id);
        }
        Some(last_id)
    }

    /// One pass over the queue for the switch in waiting.
    fn pass(&mut self, tf: &mut TrapFrame, now: u64) -> (to: Option<Id>)
        requires
            old(self)@.wf(),
            old(self)@.pending is Some,
            old(self)@.current is None,
        ensures
            (final(self)@, *final(tf), to) == old(self)@.pass(
                old(self)@.pending->Some_0,
                *old(tf),
                now,
            ),
            final(self)@.wf(),
    {
        let link = self.pending.unwrap();
        let mut i: usize = 0;
        while i < self.processes.len()
            invariant
                i <= self.processes@.len(),
                self.processes@.len() == old(self).processes@.len(),
                self.ids == old(self).ids,
                self.current == old(self).current,
                self.last_id == old(self).last_id,
                self.pending == old(self).pending,
                self.pending == Some(link),
                *tf == *old(tf),
                old(self)@.wf(),
                scan(self.processes@, i as int, now) == scan(old(self).processes@, 0, now),
            decreases self.processes@.len() - i,
        {
            let ghost before = self.processes@;
            let mut process = self.processes.remove(i).unwrap();
            if process.is_ready(now) {
                let id = process.trap_frame.thread_id;
                process.state = State::Running;
                process.trap_frame.general_registers[LINK_REGISTER] = link;
                std::mem::swap(tf, &mut *process.trap_frame);
                self.processes.push_front(process);
                self.current = Some(id);
                self.pending = None;
                proof {
                    self.ids@ = seq![self.ids@[i as int]] + self.ids@.remove(i as int);
                    let polled = before.update(i as int, before[i as int].ready_spec(now).1);
                    assert(polled.remove(i as int) =~= before.remove(i as int));
                }
                return Some(id);
            }
            self.processes.insert(i, process);
            proof {
                assert(self.processes@ =~= before.update(i as int, before[i as int].ready_spec(now).1));
            }
            i += 1;
        }
        None
    }

    /// Sets the current process's state to `new_state`, finds the next
    /// process to switch to, and performs the context switch on `tf` by
    /// saving `tf` into the current process and restoring the next process's
    /// trap frame into `tf`. If there is no current process, returns
    /// `NoCurrent` and changes nothing. Otherwise returns `To` with the ID of
    /// the process that was switched into `tf`, or `Idle` if no process is
    /// ready at time `now`.
    pub fn switch(&mut self, new_state: State<P>, tf: &mut TrapFrame, now: u64) -> (r: Switch)
        requires
            old(self)@.wf(),
        ensures
            (final(self)@, *final(tf), r) == old(self)@.switch(new_state, *old(tf), now),
            r is NoCurrent <==> old(self)@.current is None,
            final(self)@.wf(),
    {
        if self.current.is_none() {
            return Switch::NoCurrent;
        }
        let x30 = tf.general_registers[LINK_REGISTER];
        let mut p = self.processes.pop_front().unwrap();
        p.state = new_state;
        std::mem::swap(tf, &mut *p.trap_frame);
        self.processes.push_back(p);
        self.current = None;
        self.pending = Some(x30);
        proof {
            self.ids@ = self.ids@.drop_first().push(self.ids@[0]);
            assert(self.processes@ =~= old(self)@.deschedule(new_state, *old(tf)).0.processes);
        }
        match self.pass(tf, now) {
            Some(id) => Switch::To(id),
            None => Switch::Idle,
        }
    }

    /// Looks again, at time `now`, for a process to run, for a switch that
    /// ended `Idle`. Returns the ID of the process that was switched into
    /// `tf`; `None` if no process is ready yet, or no switch is in waiting.
    pub fn resume(&mut self, tf: &mut TrapFrame, now: u64) -> (to: Option<Id>)
        requires
            old(self)@.wf(),
        ensures
            (final(self)@, *final(tf), to) == old(self)@.resume(*old(tf), now),
            final(self)@.wf(),
    {
        if self.pending.is_none() {
            return None;
        }
        self.pass(tf, now)
    }
}

/// Process scheduler for the entire machine: a slot that holds no scheduler
/// until `start` puts one in.
pub struct GlobalScheduler<P>(Option<Scheduler<P>>);

impl<P: EventPoll> View for GlobalScheduler<P> {
    type V = Option<Queue<P>>;

    closed spec fn view(&self) -> Option<Queue<P>> {
        match self.0 {
            Some(scheduler) => Some(scheduler@),
            None => None,
        }
    }
}

impl<P: EventPoll> GlobalScheduler<P> {
    /// Whether `start` has run, and the scheduler is valid.
    pub open spec fn initialized(self) -> bool {
        self@ matches Some(queue) && queue.wf()
    }

    /// Returns an uninitialized wrapper around a local scheduler.
    pub fn uninitialized() -> (global: GlobalScheduler<P>)
        ensures
            global@ is None,
    {
        GlobalScheduler(None)
    }

    /// Whether `start` has run.
    pub fn is_initialized(&self) -> (r: bool)
        ensures
            r == self@ is Some,
    {
        self.0.is_some()
    }

    /// The ID of the running process, if one runs.
    pub fn current(&self) -> (id: Option<Id>)
        ensures
            id == match self@ {
                Some(queue) => queue.current,
                None => None,
            },
    {
        match &self.0 {
            Some(scheduler) => scheduler.current(),
            None => None,
        }
    }

    /// Adds a process to the scheduler's queue and returns that process's
    /// ID. For more details, see the documentation on `Scheduler::add()`.
    pub fn add(&mut self, process: Process<P>) -> (id: Option<Id>)
        requires
            old(self).initialized(),
        ensures
            final(self).initialized(),
            (final(self)@->Some_0, id) == old(self)@->Some_0.add(process),
            id is None <==> old(self)@->Some_0.last_id is None,
    {
        match &mut self.0 {
            Some(scheduler) => scheduler.add(process),
            None => None,
        }
    }

    /// Performs a context switch using `tf` by setting the state of the
    /// current process to `new_state`, saving `tf` into the current process,
    /// and restoring the next process's trap frame into `tf`. For more
    /// details, see the documentation on `Scheduler::switch()`.
    pub fn switch(&mut self, new_state: State<P>, tf: &mut TrapFrame, now: u64) -> (r: Switch)
        requires
            old(self).initialized(),
        ensures
            final(self).initialized(),
            (final(self)@->Some_0, *final(tf), r) == old(self)@->Some_0.switch(
                new_state,
                *old(tf),
                now,
            ),
            r is NoCurrent <==> old(self)@->Some_0.current is None,
    {
        match &mut self.0 {
            Some(scheduler) => scheduler.switch(new_state, tf, now),
            None => Switch::NoCurrent,
        }
    }

    /// Looks again for a process to run, for a switch that ended `Idle`. For
    /// more details, see the documentation on `Scheduler::resume()`.
    pub fn resume(&mut self, tf: &mut TrapFrame, now: u64) -> (to: Option<Id>)
        requires
            old(self).initialized(),
        ensures
            final(self).initialized(),
            (final(self)@->Some_0, *final(tf), to) == old(self)@->Some_0.resume(*old(tf), now),
    {
        match &mut self.0 {
            Some(scheduler) => scheduler.resume(tf, now),
            None => None,
        }
    }

    /// Initializes the scheduler with a first process that starts at `entry`
    /// on a stack from `allocator`, and makes that process the current one.
    /// Returns the frame to start that process from: its saved frame with
    /// its ID in it. Returns `None`, with an empty scheduler in place, if the
    /// process could not be created.
    ///
    /// The caller arms the timer with `TICK` and loads the frame into the
    /// CPU.
    pub fn start(&mut self, entry: u64, allocator: &mut Allocator) -> (frame: Option<TrapFrame>)
        requires
            old(allocator)@.wf(),
        ensures
            final(allocator)@ == old(allocator)@.allocate(STACK_SIZE, STACK_ALIGN).0,
            final(allocator)@.wf(),
            final(self).initialized(),
            final(self)@->Some_0.tracks_ids(),
            match old(allocator)@.allocate(STACK_SIZE, STACK_ALIGN).1 {
                Ok(addr) => {
                    let queue = final(self)@->Some_0;
                    &&& frame matches Some(f)
                    &&& f.thread_id == INITIAL_LAST_ID + 1
                    &&& f.stack_pointer == addr + STACK_SIZE
                    &&& f.program_counter == entry
                    &&& f.program_state == 0
                    &&& forall|i: int| 0 <= i < 32 ==> #[trigger] f.general_registers[i] == 0
                    &&& forall|i: int| 0 <= i < 32 ==> #[trigger] f.floating_point_registers[i] == 0
                    &&& queue.processes.len() == 1
                    &&& *queue.processes[0].trap_frame == f
                    &&& queue.processes[0].stack.base() == addr
                    &&& queue.processes[0].state is Ready
                    &&& queue.ids == seq![(INITIAL_LAST_ID + 1) as Id]
                    &&& queue.current == Some((INITIAL_LAST_ID + 1) as Id)
                    &&& queue.last_id == Some((INITIAL_LAST_ID + 1) as Id)
                    &&& queue.pending is None
                },
                Err(_) => frame is None && final(self)@ == Some(Queue::<P>::empty()),
            },
    {
        let mut scheduler = Scheduler::<P>::new();
        let frame = match Process::<P>::create_process(entry, allocator) {
            Some(process) => {
                let mut trap_frame_clone = *process.trap_frame;
                proof {
                    crate::process::laws::lemma_add(scheduler@, process);
                }
                match scheduler.add(process) {
                    Some(id) => {
                        trap_frame_clone.thread_id = id;
                        proof {
                            assert(scheduler@.ids =~= seq![(INITIAL_LAST_ID + 1) as Id]);
                        }
                        Some(trap_frame_clone)
                    },
                    None => None,
                }
            },
            None => None,
        };
        self.0 = Some(scheduler);
        frame
    }
}

} // verus!
