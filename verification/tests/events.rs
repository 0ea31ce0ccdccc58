use kernel::allocator::bin::Allocator;
use kernel::process::process::Process;
use kernel::process::scheduler::{Scheduler, Switch};
use kernel::process::state::{EventPoll, EventPollFn, Polled, State};
use kernel::traps::trap_frame::TrapFrame;

/// An event that answers as told, counts its polls, and leaves the process
/// in a state of its choice.
#[derive(Debug)]
struct Scripted {
    answer: bool,
    leave_ready: bool,
    polls: u64,
}

impl EventPoll for Scripted {
    fn poll_spec(self, _process: Process<Scripted>, _now: u64) -> Polled<Scripted> {
        unreachable!("a model of the poll, for proofs only")
    }

    fn keeps_thread_id(self, _process: Process<Scripted>, _now: u64) {}

    fn poll(&mut self, process: &mut Process<Scripted>, now: u64) -> bool {
        self.polls += 1;
        assert!(matches!(process.state, State::Waiting(EventPollFn::Nop)));
        process.trap_frame.general_registers[2] = now;
        if self.leave_ready {
            process.state = State::Ready;
        }
        self.answer
    }
}

fn waiting(heap: &mut Allocator, answer: bool, leave_ready: bool) -> Process<Scripted> {
    let mut p = Process::<Scripted>::new(heap).unwrap();
    p.state = State::Waiting(EventPollFn::Poll(Scripted { answer, leave_ready, polls: 0 }));
    p
}

fn arena() -> Allocator {
    Allocator::new(0x100000, 0x100000 + (16 << 20))
}

#[test]
fn predicate_is_put_back_while_the_process_waits() {
    let mut heap = arena();
    let mut p = waiting(&mut heap, false, false);
    assert!(!p.is_ready(5));
    assert!(!p.is_ready(6));
    assert_eq!(p.trap_frame.general_registers[2], 6);
    match &p.state {
        State::Waiting(EventPollFn::Poll(event)) => assert_eq!(event.polls, 2),
        other => panic!("the predicate is gone: {:?}", other),
    }
}

#[test]
fn predicate_is_dropped_when_it_rewrites_the_state() {
    let mut heap = arena();
    let mut p = waiting(&mut heap, false, true);
    assert!(!p.is_ready(5));
    assert!(matches!(p.state, State::Ready));
    assert!(p.is_ready(6));
    assert_eq!(p.trap_frame.general_registers[2], 5);
}

#[test]
fn fired_predicate_stays_until_dispatch() {
    let mut heap = arena();
    let mut p = waiting(&mut heap, true, false);
    assert!(p.is_ready(1));
    assert!(matches!(p.state, State::Waiting(EventPollFn::Poll(_))));
}

#[test]
fn polls_stop_at_the_first_ready_process() {
    let mut heap = arena();
    let mut s = Scheduler::<Scripted>::new();
    let p1 = s.add(Process::<Scripted>::new(&mut heap).unwrap()).unwrap();
    let p2 = s.add(waiting(&mut heap, false, false)).unwrap();
    let p3 = s.add(waiting(&mut heap, true, false)).unwrap();
    let p4 = s.add(waiting(&mut heap, true, false)).unwrap();
    assert_eq!((p1, p2, p3, p4), (2, 3, 4, 5));
    let mut tf = TrapFrame::default();
    tf.thread_id = p1;
    assert_eq!(s.switch(State::Ready, &mut tf, 9), Switch::To(p3));
    assert_eq!(tf.thread_id, p3);
    assert_eq!(tf.general_registers[2], 9);
    assert_eq!(s.switch(State::Ready, &mut tf, 10), Switch::To(p4));
    assert_eq!(tf.general_registers[2], 10);
    assert_eq!(s.switch(State::Ready, &mut tf, 11), Switch::To(p1));
    assert_eq!(tf.general_registers[2], 0);
    assert_eq!(s.switch(State::Ready, &mut tf, 12), Switch::To(p3));
    assert_eq!(s.switch(State::Ready, &mut tf, 13), Switch::To(p4));
}
