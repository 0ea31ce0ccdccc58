use kernel::allocator::bin::Allocator;
use kernel::interrupt::Interrupt;
use kernel::process::process::Process;
use kernel::process::scheduler::{GlobalScheduler, Scheduler, Switch, TICK};
use kernel::process::stack::{STACK_ALIGN, STACK_SIZE};
use kernel::process::state::{EventPoll, EventPollFn, State};
use kernel::traps::irq::handle_irq;
use kernel::traps::syscall::{handle_syscall, sleep, Sleep};
use kernel::traps::trap_frame::TrapFrame;

fn arena() -> Allocator {
    Allocator::new(0x100000, 0x100000 + (16 << 20))
}

fn process(allocator: &mut Allocator, entry: u64) -> Process<Sleep> {
    Process::<Sleep>::create_process(entry, allocator).unwrap()
}

#[test]
fn new_process_is_zeroed_and_ready() {
    let mut heap = arena();
    let p = Process::<Sleep>::new(&mut heap).unwrap();
    assert_eq!(*p.trap_frame, TrapFrame::default());
    assert_eq!(p.trap_frame.stack_pointer, 0);
    assert_eq!(p.trap_frame.general_registers, [0u64; 32]);
    assert_eq!(p.trap_frame.floating_point_registers, [0u128; 32]);
    assert!(matches!(p.state, State::Ready));
    assert_eq!(p.stack.bottom(), 0x100000);
    assert_eq!(p.stack.top(), 0x100000 + STACK_SIZE);
    assert_eq!(p.stack.bottom() % STACK_ALIGN, 0);
}

#[test]
fn new_process_fails_without_memory() {
    let mut heap = Allocator::new(0x100000, 0x100000 + (1 << 20));
    assert!(Process::<Sleep>::new(&mut heap).is_none());
    let mut heap = Allocator::new(0x100000, 0x100000 + (4 << 20));
    assert!(Process::<Sleep>::new(&mut heap).is_some());
    assert!(Process::<Sleep>::new(&mut heap).is_some());
    assert!(Process::<Sleep>::new(&mut heap).is_some());
    assert!(Process::<Sleep>::new(&mut heap).is_some());
    assert!(Process::<Sleep>::new(&mut heap).is_none());
}

#[test]
fn create_process_sets_entry_and_stack_pointer() {
    let mut heap = arena();
    let p = process(&mut heap, 0x80000);
    assert_eq!(p.trap_frame.program_counter, 0x80000);
    assert_eq!(p.trap_frame.stack_pointer, (0x100000 + STACK_SIZE) as u64);
    assert_eq!(p.trap_frame.thread_id, 0);
    let q = process(&mut heap, 0x90000);
    assert_eq!(q.trap_frame.stack_pointer, (0x100000 + 2 * STACK_SIZE) as u64);
}

#[test]
fn stacks_of_processes_do_not_overlap() {
    let mut heap = arena();
    let p = process(&mut heap, 1);
    let q = process(&mut heap, 2);
    assert!(p.stack.top() <= q.stack.bottom() || q.stack.top() <= p.stack.bottom());
}

#[test]
fn ready_and_running_need_no_poll() {
    let mut heap = arena();
    let mut p = process(&mut heap, 1);
    assert!(p.is_ready(0));
    assert!(matches!(p.state, State::Ready));
    p.state = State::Running;
    assert!(!p.is_ready(0));
    assert!(matches!(p.state, State::Running));
    p.state = State::Waiting(EventPollFn::Nop);
    assert!(!p.is_ready(u64::MAX));
    assert!(matches!(p.state, State::Waiting(EventPollFn::Nop)));
}

#[test]
fn waiting_process_is_polled_in_place() {
    let mut heap = arena();
    let mut p = process(&mut heap, 1);
    p.state = State::Waiting(EventPollFn::Poll(Sleep { start_time: 1_000, ms: 5 }));
    assert!(!p.is_ready(1_000));
    assert!(!p.is_ready(5_999));
    assert_eq!(p.trap_frame.general_registers[31], 0);
    assert!(matches!(
        p.state,
        State::Waiting(EventPollFn::Poll(Sleep { start_time: 1_000, ms: 5 }))
    ));
    assert!(p.is_ready(6_000));
    assert_eq!(p.trap_frame.general_registers[31], 5);
    assert!(matches!(p.state, State::Waiting(EventPollFn::Poll(_))));
    assert!(p.is_ready(9_999));
    assert_eq!(p.trap_frame.general_registers[31], 8);
}

#[test]
fn sleep_poll_reports_elapsed_milliseconds() {
    let mut heap = arena();
    let mut p = process(&mut heap, 1);
    let mut event = Sleep { start_time: 500, ms: 100 };
    assert!(!event.poll(&mut p, 100_499));
    assert_eq!(p.trap_frame.general_registers[31], 0);
    assert!(event.poll(&mut p, 100_500));
    assert_eq!(p.trap_frame.general_registers[31], 100);
    assert!(event.poll(&mut p, 110_499));
    assert_eq!(p.trap_frame.general_registers[31], 109);
    assert_eq!(event, Sleep { start_time: 500, ms: 100 });
}

#[test]
fn sleep_of_zero_is_ready_at_once() {
    let mut heap = arena();
    let mut p = process(&mut heap, 1);
    let mut event = Sleep { start_time: 77, ms: 0 };
    assert!(event.poll(&mut p, 77));
    assert_eq!(p.trap_frame.general_registers[31], 0);
}

#[test]
fn sleep_counts_across_the_wrap_of_the_counter() {
    let mut heap = arena();
    let mut p = process(&mut heap, 1);
    let mut event = Sleep { start_time: u64::MAX - 999, ms: 3 };
    assert!(!event.poll(&mut p, 1_999));
    assert!(event.poll(&mut p, 2_000));
    assert_eq!(p.trap_frame.general_registers[31], 3);
}

#[test]
fn add_returns_increasing_ids_from_two() {
    let mut heap = arena();
    let mut s = Scheduler::<Sleep>::new();
    assert_eq!(s.current(), None);
    assert_eq!(s.len(), 0);
    assert_eq!(s.add(process(&mut heap, 1)), Some(2));
    assert_eq!(s.current(), Some(2));
    assert_eq!(s.add(process(&mut heap, 2)), Some(3));
    assert_eq!(s.current(), Some(2));
    assert_eq!(s.add(process(&mut heap, 3)), Some(4));
    assert_eq!(s.current(), Some(2));
    assert_eq!(s.len(), 3);
    assert!(!s.is_idle());
}

#[test]
fn switch_without_current_changes_nothing() {
    let mut s = Scheduler::<Sleep>::new();
    let mut tf = TrapFrame::default();
    tf.general_registers[1] = 0xAAAA;
    tf.thread_id = 9;
    let before = tf;
    assert_eq!(s.switch(State::Ready, &mut tf, 0), Switch::NoCurrent);
    assert_eq!(tf, before);
    assert_eq!(s.len(), 0);
    assert_eq!(s.resume(&mut tf, 0), None);
    assert_eq!(tf, before);
}

#[test]
fn three_processes_run_round_robin() {
    let mut heap = arena();
    let mut s = Scheduler::<Sleep>::new();
    let p1 = s.add(process(&mut heap, 0x1000)).unwrap();
    let p2 = s.add(process(&mut heap, 0x2000)).unwrap();
    let p3 = s.add(process(&mut heap, 0x3000)).unwrap();
    let mut tf = TrapFrame::default();
    tf.thread_id = p1;
    tf.program_counter = 0x1000;
    let mut order = vec![s.current().unwrap()];
    for tick in 0..6u64 {
        match s.switch(State::Ready, &mut tf, tick * TICK as u64) {
            Switch::To(id) => {
                assert_eq!(tf.thread_id, id);
                assert_eq!(s.current(), Some(id));
                order.push(id);
            }
            other => panic!("no process was switched in: {:?}", other),
        }
    }
    assert_eq!(order[..6], [p1, p2, p3, p1, p2, p3]);
    assert_eq!(order[6], p1);
    assert_eq!(tf.program_counter, 0x1000);
}

#[test]
fn switch_swaps_frames_and_keeps_link_register() {
    let mut heap = arena();
    let mut s = Scheduler::<Sleep>::new();
    let p1 = s.add(process(&mut heap, 0x1000)).unwrap();
    let p2 = s.add(process(&mut heap, 0x2000)).unwrap();
    let mut tf = TrapFrame::default();
    tf.thread_id = p1;
    tf.program_counter = 0x1234;
    tf.general_registers[1] = 0xFEED;
    tf.general_registers[5] = 55;
    assert_eq!(s.switch(State::Ready, &mut tf, 0), Switch::To(p2));
    assert_eq!(tf.thread_id, p2);
    assert_eq!(tf.program_counter, 0x2000);
    assert_eq!(tf.general_registers[1], 0xFEED);
    assert_eq!(tf.general_registers[5], 0);
    tf.general_registers[1] = 0xBEEF;
    assert_eq!(s.switch(State::Ready, &mut tf, 1), Switch::To(p1));
    assert_eq!(tf.thread_id, p1);
    assert_eq!(tf.program_counter, 0x1234);
    assert_eq!(tf.general_registers[5], 55);
    assert_eq!(tf.general_registers[1], 0xBEEF);
}

#[test]
fn single_process_is_switched_back_in() {
    let mut heap = arena();
    let mut s = Scheduler::<Sleep>::new();
    let p1 = s.add(process(&mut heap, 0x1000)).unwrap();
    let mut tf = TrapFrame::default();
    tf.thread_id = p1;
    tf.general_registers[7] = 7;
    assert_eq!(s.switch(State::Ready, &mut tf, 0), Switch::To(p1));
    assert_eq!(tf.general_registers[7], 7);
    assert_eq!(s.current(), Some(p1));
}

#[test]
fn switch_is_idle_until_a_sleeper_wakes() {
    let mut heap = arena();
    let mut s = Scheduler::<Sleep>::new();
    let p1 = s.add(process(&mut heap, 0x1000)).unwrap();
    let mut tf = TrapFrame::default();
    tf.thread_id = p1;
    tf.general_registers[1] = 0x30;
    let nap = State::Waiting(EventPollFn::Poll(Sleep { start_time: 0, ms: 2 }));
    assert_eq!(s.switch(nap, &mut tf, 0), Switch::Idle);
    assert!(s.is_idle());
    assert_eq!(s.current(), None);
    assert_eq!(s.resume(&mut tf, 1_999), None);
    assert!(s.is_idle());
    assert_eq!(s.switch(State::Ready, &mut tf, 1_999), Switch::NoCurrent);
    assert_eq!(s.resume(&mut tf, 2_500), Some(p1));
    assert!(!s.is_idle());
    assert_eq!(s.current(), Some(p1));
    assert_eq!(tf.thread_id, p1);
    assert_eq!(tf.general_registers[31], 2);
    assert_eq!(tf.general_registers[1], 0x30);
    assert_eq!(s.resume(&mut tf, 3_000), None);
}

#[test]
fn waiting_process_keeps_its_place_in_the_queue() {
    let mut heap = arena();
    let mut s = Scheduler::<Sleep>::new();
    let p1 = s.add(process(&mut heap, 1)).unwrap();
    let p2 = s.add(process(&mut heap, 2)).unwrap();
    let p3 = s.add(process(&mut heap, 3)).unwrap();
    let mut tf = TrapFrame::default();
    tf.thread_id = p1;
    let nap = State::Waiting(EventPollFn::Poll(Sleep { start_time: 0, ms: 10 }));
    assert_eq!(s.switch(nap, &mut tf, 0), Switch::To(p2));
    assert_eq!(s.switch(State::Ready, &mut tf, 1_000), Switch::To(p3));
    assert_eq!(s.switch(State::Ready, &mut tf, 2_000), Switch::To(p2));
    assert_eq!(s.switch(State::Ready, &mut tf, 3_000), Switch::To(p3));
    assert_eq!(s.switch(State::Ready, &mut tf, 10_000), Switch::To(p1));
    assert_eq!(tf.general_registers[31], 10);
    assert_eq!(s.switch(State::Ready, &mut tf, 11_000), Switch::To(p2));
    assert_eq!(s.switch(State::Ready, &mut tf, 12_000), Switch::To(p3));
    assert_eq!(s.switch(State::Ready, &mut tf, 13_000), Switch::To(p1));
}

#[test]
fn sleeping_process_wakes_after_its_time() {
    let tick: u64 = 10_000;
    let mut heap = arena();
    let mut g = GlobalScheduler::<Sleep>::uninitialized();
    let first = g.start(0x1000, &mut heap).unwrap();
    let p1 = first.thread_id;
    let p2 = g.add(process(&mut heap, 0x2000)).unwrap();
    let mut tf = first;
    tf.general_registers[31] = 100;
    assert_eq!(handle_syscall(1, &mut tf, &mut g, 0), Switch::To(p2));
    let mut now = 0;
    let mut woke_at = None;
    for _ in 0..20 {
        now += tick;
        match handle_irq(Interrupt::Timer1, &mut tf, &mut g, now) {
            Some(Switch::To(id)) if id == p1 => {
                woke_at = Some(now);
                break;
            }
            Some(Switch::To(id)) => assert_eq!(id, p2),
            other => panic!("unexpected outcome: {:?}", other),
        }
    }
    assert_eq!(woke_at, Some(100_000));
    let slept = tf.general_registers[31];
    assert!(100 <= slept && slept <= 110);
    assert_eq!(slept, 100);
}

#[test]
fn sleep_returns_at_least_what_was_asked() {
    let mut heap = arena();
    let mut g = GlobalScheduler::<Sleep>::uninitialized();
    let mut tf = g.start(0x1000, &mut heap).unwrap();
    let p1 = tf.thread_id;
    let p2 = g.add(process(&mut heap, 0x2000)).unwrap();
    assert_eq!(sleep(25, &mut tf, &mut g, 1_000_000), Switch::To(p2));
    assert_eq!(g.switch(State::Ready, &mut tf, 1_020_000), Switch::To(p2));
    assert_eq!(g.switch(State::Ready, &mut tf, 1_024_999), Switch::To(p2));
    assert_eq!(g.switch(State::Ready, &mut tf, 1_031_500), Switch::To(p1));
    assert_eq!(tf.general_registers[31], 31);
}

#[test]
fn syscall_takes_the_low_word_of_the_argument() {
    let mut heap = arena();
    let mut g = GlobalScheduler::<Sleep>::uninitialized();
    let mut tf = g.start(0x1000, &mut heap).unwrap();
    let p1 = tf.thread_id;
    tf.general_registers[31] = (7 << 32) | 3;
    assert_eq!(handle_syscall(1, &mut tf, &mut g, 0), Switch::Idle);
    assert_eq!(g.resume(&mut tf, 2_999), None);
    assert_eq!(g.resume(&mut tf, 3_000), Some(p1));
    assert_eq!(tf.general_registers[31], 3);
}

#[test]
fn other_interrupts_are_ignored() {
    let mut heap = arena();
    let mut g = GlobalScheduler::<Sleep>::uninitialized();
    let mut tf = g.start(0x1000, &mut heap).unwrap();
    let p1 = tf.thread_id;
    g.add(process(&mut heap, 0x2000)).unwrap();
    let before = tf;
    for interrupt in [
        Interrupt::Timer3,
        Interrupt::Usb,
        Interrupt::Gpio0,
        Interrupt::Gpio1,
        Interrupt::Gpio2,
        Interrupt::Gpio3,
        Interrupt::Uart,
    ] {
        assert_eq!(handle_irq(interrupt, &mut tf, &mut g, 5), None);
        assert_eq!(tf, before);
        assert_eq!(g.current(), Some(p1));
    }
}

#[test]
fn timer_interrupt_switches_to_the_next_process() {
    let mut heap = arena();
    let mut g = GlobalScheduler::<Sleep>::uninitialized();
    let mut tf = g.start(0x1000, &mut heap).unwrap();
    let p1 = tf.thread_id;
    let p2 = g.add(process(&mut heap, 0x2000)).unwrap();
    assert_eq!(handle_irq(Interrupt::Timer1, &mut tf, &mut g, 0), Some(Switch::To(p2)));
    assert_eq!(tf.program_counter, 0x2000);
    assert_eq!(handle_irq(Interrupt::Timer1, &mut tf, &mut g, 0), Some(Switch::To(p1)));
    assert_eq!(tf.program_counter, 0x1000);
}

#[test]
fn start_makes_the_first_process_current() {
    let mut heap = arena();
    let mut g = GlobalScheduler::<Sleep>::uninitialized();
    assert!(!g.is_initialized());
    assert_eq!(g.current(), None);
    let frame = g.start(0x80000, &mut heap).unwrap();
    assert!(g.is_initialized());
    assert_eq!(frame.thread_id, 2);
    assert_eq!(frame.program_counter, 0x80000);
    assert_eq!(frame.stack_pointer, (0x100000 + STACK_SIZE) as u64);
    assert_eq!(frame.program_state, 0);
    assert_eq!(g.current(), Some(2));
    assert_eq!(TICK, 2_000_000);
}

#[test]
fn start_without_memory_leaves_an_empty_scheduler() {
    let mut heap = Allocator::new(0x100000, 0x100000 + 4096);
    let mut g = GlobalScheduler::<Sleep>::uninitialized();
    assert_eq!(g.start(0x80000, &mut heap), None);
    assert!(g.is_initialized());
    assert_eq!(g.current(), None);
}

#[test]
fn ticks_are_shared_fairly() {
    for n in 1..6usize {
        for k in 0..23usize {
            let mut heap = Allocator::new(0x100000, 0x100000 + (16 << 20));
            let mut s = Scheduler::<Sleep>::new();
            let ids: Vec<u64> =
                (0..n).map(|i| s.add(process(&mut heap, i as u64)).unwrap()).collect();
            let mut tf = TrapFrame::default();
            tf.thread_id = ids[0];
            let mut turns = vec![0usize; n];
            for tick in 0..k {
                match s.switch(State::Ready, &mut tf, tick as u64) {
                    Switch::To(id) => {
                        assert_eq!(id, ids[(tick + 1) % n]);
                        turns[(id - ids[0]) as usize] += 1;
                    }
                    other => panic!("no process was switched in: {:?}", other),
                }
            }
            for got in turns {
                assert!(k / n <= got && got <= k / n + 1);
            }
        }
    }
}

#[test]
fn process_whose_poll_fails_is_passed_over() {
    let mut heap = arena();
    let mut s = Scheduler::<Sleep>::new();
    let p1 = s.add(process(&mut heap, 1)).unwrap();
    let mut sleeper = process(&mut heap, 2);
    sleeper.state = State::Waiting(EventPollFn::Poll(Sleep { start_time: 0, ms: 1_000 }));
    let p2 = s.add(sleeper).unwrap();
    let p3 = s.add(process(&mut heap, 3)).unwrap();
    let mut tf = TrapFrame::default();
    tf.thread_id = p1;
    for round in 0..10u64 {
        assert_eq!(s.switch(State::Ready, &mut tf, round), Switch::To(p3));
        assert_eq!(s.switch(State::Ready, &mut tf, round), Switch::To(p1));
    }
    assert_eq!(s.switch(State::Ready, &mut tf, 1_000_000), Switch::To(p2));
    assert_eq!(tf.general_registers[31], 1_000);
}
