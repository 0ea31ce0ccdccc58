//! What holds of every scheduler: IDs, readiness and dispatch.
use vstd::prelude::*;
use crate::process::process::{Id, Process};
use crate::process::scheduler::{scan, Queue, Switch, INITIAL_LAST_ID};
use crate::process::state::{EventPoll, EventPollFn, State};
use crate::traps::trap_frame::TrapFrame;

verus! {

/// A readiness test leaves the thread ID in the saved frame as it is.
pub proof fn lemma_ready_keeps_thread_id<P: EventPoll>(process: Process<P>, now: u64)
    ensures
        process.ready_spec(now).1.trap_frame.thread_id == process.trap_frame.thread_id,
{
    match process.state {
        State::Waiting(EventPollFn::Poll(event)) => {
            let detached = Process { state: State::Waiting(EventPollFn::Nop), ..process };
            event.keeps_thread_id(detached, now);
        },
        _ => {},
    }
}

/// A process that is not waiting is ready exactly if it is `Ready`, and the
/// readiness test leaves it as it is.
pub proof fn lemma_ready_without_event<P: EventPoll>(process: Process<P>, now: u64)
    requires
        !(process.state is Waiting),
    ensures
        process.ready_spec(now) == (process.state is Ready, process),
{
}

/// What `scan` does: it polls the processes from `from` up to the first
/// ready one, each once, and leaves every other process as it is. The
/// process it stops at was found ready by its poll; no process before it
/// was.
pub proof fn lemma_scan<P: EventPoll>(processes: Seq<Process<P>>, from: int, now: u64)
    requires
        0 <= from <= processes.len(),
    ensures
        ({
            let (polled, found) = scan(processes, from, now);
            &&& polled.len() == processes.len()
            &&& from <= found <= processes.len()
            &&& found < processes.len() ==> processes[found].ready_spec(now).0
            &&& forall|j: int|
                from <= j < found ==> !(#[trigger] processes[j]).ready_spec(now).0
            &&& forall|j: int|
                #![trigger polled[j]]
                0 <= j < processes.len() ==> polled[j] == if from <= j <= found {
                    processes[j].ready_spec(now).1
                } else {
                    processes[j]
                }
            &&& forall|j: int|
                #![trigger polled[j]]
                0 <= j < processes.len() ==> polled[j].trap_frame.thread_id
                    == processes[j].trap_frame.thread_id
        }),
    decreases processes.len() - from,
{
    if from < processes.len() {
        let (ready, polled) = processes[from].ready_spec(now);
        lemma_ready_keeps_thread_id(processes[from], now);
        if !ready {
            let next = processes.update(from, polled);
            lemma_scan(next, from + 1, now);
            let (after, found) = scan(next, from + 1, now);
            assert forall|j: int| from <= j < found implies !(#[trigger] processes[j]).ready_spec(
                now,
            ).0 by {
                if j > from {
                    assert(next[j] == processes[j]);
                }
            }
            assert forall|j: int| #![trigger after[j]] 0 <= j < processes.len() implies after[j]
                == if from <= j <= found {
                processes[j].ready_spec(now).1
            } else {
                processes[j]
            } by {
                if j != from {
                    assert(next[j] == processes[j]);
                }
            }
            assert forall|j: int| #![trigger after[j]] 0 <= j < processes.len() implies after[j].trap_frame.thread_id
                == processes[j].trap_frame.thread_id by {
                assert(next[j].trap_frame.thread_id == processes[j].trap_frame.thread_id);
            }
            if found < processes.len() {
                assert(next[found] == processes[found]);
            }
        }
    }
}

/// Moving the first element of a sequence to its end keeps its elements
/// distinct.
pub proof fn lemma_rotate_distinct(ids: Seq<Id>)
    requires
        ids.no_duplicates(),
        ids.len() > 0,
    ensures
        ids.drop_first().push(ids[0]).no_duplicates(),
        forall|id: Id| ids.drop_first().push(ids[0]).contains(id) <==> ids.contains(id),
{
    let rotated = ids.drop_first().push(ids[0]);
    let n = ids.len() as int;
    assert forall|i: int, j: int| 0 <= i < n && 0 <= j < n && i != j implies rotated[i]
        != rotated[j] by {
        let a = if i == n - 1 { 0 } else { i + 1 };
        let b = if j == n - 1 { 0 } else { j + 1 };
        assert(rotated[i] == ids[a] && rotated[j] == ids[b]);
    }
    assert forall|id: Id| rotated.contains(id) <==> ids.contains(id) by {
        if rotated.contains(id) {
            let i = choose|i: int| 0 <= i < rotated.len() && rotated[i] == id;
            let a = if i == n - 1 { 0 } else { i + 1 };
            assert(ids[a] == id);
        }
        if ids.contains(id) {
            let a = choose|a: int| 0 <= a < ids.len() && ids[a] == id;
            let i = if a == 0 { n - 1 } else { a - 1 };
            assert(rotated[i] == id);
        }
    }
}

/// Moving one element of a sequence to its front keeps its elements
/// distinct.
pub proof fn lemma_to_front_distinct(ids: Seq<Id>, at: int)
    requires
        ids.no_duplicates(),
        0 <= at < ids.len(),
    ensures
        (seq![ids[at]] + ids.remove(at)).no_duplicates(),
        forall|id: Id| (seq![ids[at]] + ids.remove(at)).contains(id) <==> ids.contains(id),
{
    let moved = seq![ids[at]] + ids.remove(at);
    let n = ids.len() as int;
    assert forall|i: int| 0 <= i < n implies #[trigger] moved[i] == ids[if i == 0 {
        at
    } else if i <= at {
        i - 1
    } else {
        i
    }] by {}
    assert forall|i: int, j: int| 0 <= i < n && 0 <= j < n && i != j implies moved[i]
        != moved[j] by {
        let a = if i == 0 { at } else if i <= at { i - 1 } else { i };
        let b = if j == 0 { at } else if j <= at { j - 1 } else { j };
        assert(moved[i] == ids[a] && moved[j] == ids[b]);
    }
    assert forall|id: Id| moved.contains(id) <==> ids.contains(id) by {
        if moved.contains(id) {
            let i = choose|i: int| 0 <= i < moved.len() && moved[i] == id;
            let a = if i == 0 { at } else if i <= at { i - 1 } else { i };
            assert(ids[a] == id);
        }
        if ids.contains(id) {
            let a = choose|a: int| 0 <= a < ids.len() && ids[a] == id;
            let i = if a == at { 0 } else if a < at { a + 1 } else { a };
            assert(moved[i] == id);
        }
    }
}

/// `add` hands out strictly increasing IDs: the ID it returns is one above
/// the last one handed out, and above the ID of every process in the queue.
/// The process added becomes the current one if and only if the queue was
/// empty. The queue stays valid and keeps telling its processes apart.
pub proof fn lemma_add<P: EventPoll>(queue: Queue<P>, process: Process<P>)
    requires
        queue.wf(),
        queue.tracks_ids(),
    ensures
        queue.add(process).0.wf(),
        queue.add(process).0.tracks_ids(),
        queue.add(process).1 is Some <==> queue.last_id is Some,
        queue.add(process).1 matches Some(id) ==> {
            &&& id == queue.last_id->Some_0 + 1
            &&& forall|i: int| 0 <= i < queue.ids.len() ==> #[trigger] queue.ids[i] < id
            &&& queue.add(process).0.ids == queue.ids.push(id)
            &&& queue.add(process).0.processes.last().trap_frame.thread_id == id
            &&& queue.add(process).0.current == Some(id) <==> queue.processes.len() == 0
            &&& queue.processes.len() > 0 ==> queue.add(process).0.current == queue.current
        },
{
    let (after, r) = queue.add(process);
    if let Some(id) = r {
        assert forall|i: int, j: int|
            0 <= i < after.ids.len() && 0 <= j < after.ids.len() && i != j implies after.ids[i]
            != after.ids[j] by {
            if i < queue.ids.len() {
                assert(queue.ids[i] < id);
            }
            if j < queue.ids.len() {
                assert(queue.ids[j] < id);
            }
        }
        assert forall|i: int|
            #![trigger after.processes[i]]
            (if after.current is Some { 1int } else { 0int }) <= i
                < after.processes.len() implies after.processes[i].trap_frame.thread_id
            == after.ids[i] by {
            if i < queue.processes.len() {
                assert(after.processes[i] == queue.processes[i]);
            }
        }
        if queue.processes.len() > 0 && queue.current is Some {
            assert(queue.ids[0] < id);
        }
    }
}

/// Of two processes added one after the other, the second gets the larger
/// ID.
pub proof fn lemma_add_increasing<P: EventPoll>(
    queue: Queue<P>,
    first: Process<P>,
    second: Process<P>,
)
    requires
        queue.wf(),
        queue.add(first).1 is Some,
        queue.add(first).0.add(second).1 is Some,
    ensures
        queue.add(first).1->Some_0 < queue.add(first).0.add(second).1->Some_0,
{
}

/// A pass keeps the queue valid and its processes apart. The process it
/// switches in was found ready by its poll on this pass and no process
/// before it in the queue was; its ID is one of the queue, is the current
/// one afterwards, and is in the live frame.
pub proof fn lemma_pass<P: EventPoll>(queue: Queue<P>, link: u64, tf: TrapFrame, now: u64)
    requires
        queue.wf(),
        queue.tracks_ids(),
        queue.current is None,
    ensures
        ({
            let (after, frame, to) = queue.pass(link, tf, now);
            let found = scan(queue.processes, 0, now).1;
            &&& after.wf()
            &&& after.tracks_ids()
            &&& after.processes.len() == queue.processes.len()
            &&& after.last_id == queue.last_id
            &&& forall|id: Id| after.ids.contains(id) <==> queue.ids.contains(id)
            &&& to is Some <==> found < queue.processes.len()
            &&& forall|j: int| 0 <= j < found ==> !(#[trigger] queue.processes[j]).ready_spec(now).0
            &&& to matches Some(id) ==> {
                &&& queue.processes[found].ready_spec(now).0
                &&& id == queue.ids[found]
                &&& after.current == Some(id)
                &&& after.ids[0] == id
                &&& after.processes[0].state is Running
                &&& frame.thread_id == id
                &&& frame.general_registers[1] == link
                &&& after.pending is None
            }
            &&& to is None ==> after.current is None && after.pending == queue.pending && after.ids
                == queue.ids && frame == tf
        }),
{
    let (polled, found) = scan(queue.processes, 0, now);
    let (after, frame, to) = queue.pass(link, tf, now);
    lemma_scan(queue.processes, 0, now);
    if found < polled.len() {
        lemma_to_front_distinct(queue.ids, found);
        let process = polled[found];
        assert(process.trap_frame.thread_id == queue.processes[found].trap_frame.thread_id);
        assert(frame.general_registers@ == process.trap_frame.general_registers@.update(1, link));
        assert forall|i: int| 0 <= i < after.ids.len() implies INITIAL_LAST_ID < #[trigger] after.ids[i]
            && (after.last_id matches Some(last) ==> after.ids[i] <= last) by {
            let a = if i == 0 { found } else if i <= found { i - 1 } else { i };
            assert(after.ids[i] == queue.ids[a]);
        }
        assert forall|i: int| #![trigger after.processes[i]] 1 <= i < after.processes.len() implies after.processes[i].trap_frame.thread_id
            == after.ids[i] by {
            let a = if i <= found { i - 1 } else { i };
            assert(after.processes[i] == polled[a]);
            assert(after.ids[i] == queue.ids[a]);
            assert(polled[a].trap_frame.thread_id == queue.processes[a].trap_frame.thread_id);
        }
    } else {
        assert forall|i: int| #![trigger after.processes[i]] 0 <= i < after.processes.len() implies after.processes[i].trap_frame.thread_id
            == after.ids[i] by {
            assert(polled[i].trap_frame.thread_id == queue.processes[i].trap_frame.thread_id);
        }
    }
}

/// A context switch keeps the queue valid, and its processes apart if the
/// live frame carries the ID of the current process. The process it
/// switches to is the first one in queue order, the process set aside last,
/// that was found ready on this pass: a process whose poll answered `false`
/// on this pass is never the one switched to.
pub proof fn lemma_switch<P: EventPoll>(
    queue: Queue<P>,
    new_state: State<P>,
    tf: TrapFrame,
    now: u64,
)
    requires
        queue.wf(),
        queue.tracks_ids(),
        queue.current == Some(tf.thread_id),
    ensures
        ({
            let (after, frame, r) = queue.switch(new_state, tf, now);
            let order = queue.deschedule(new_state, tf).0;
            let found = scan(order.processes, 0, now).1;
            &&& after.wf()
            &&& after.tracks_ids()
            &&& after.processes.len() == queue.processes.len()
            &&& after.last_id == queue.last_id
            &&& forall|id: Id| after.ids.contains(id) <==> queue.ids.contains(id)
            &&& r !is NoCurrent
            &&& forall|j: int| 0 <= j < found ==> !(#[trigger] order.processes[j]).ready_spec(now).0
            &&& r matches Switch::To(id) ==> {
                &&& found < order.processes.len()
                &&& order.processes[found].ready_spec(now).0
                &&& id == order.ids[found]
                &&& after.current == Some(id)
                &&& after.ids[0] == id
                &&& frame.thread_id == id
                &&& frame.general_registers[1] == tf.general_registers[1]
            }
            &&& r is Idle ==> after.current is None && after.pending == Some(
                tf.general_registers[1],
            ) && after.ids == order.ids
        }),
{
    let (order, stale) = queue.deschedule(new_state, tf);
    lemma_rotate_distinct(queue.ids);
    let n = queue.processes.len() as int;
    assert forall|i: int| 0 <= i < order.ids.len() implies INITIAL_LAST_ID < #[trigger] order.ids[i]
        && (order.last_id matches Some(last) ==> order.ids[i] <= last) by {
        let a = if i == n - 1 { 0 } else { i + 1 };
        assert(order.ids[i] == queue.ids[a]);
    }
    assert forall|i: int| #![trigger order.processes[i]] 0 <= i < order.processes.len() implies order.processes[i].trap_frame.thread_id
        == order.ids[i] by {
        if i < n - 1 {
            assert(order.processes[i] == queue.processes[i + 1]);
            assert(order.ids[i] == queue.ids[i + 1]);
        }
    }
    lemma_pass(order, tf.general_registers[1], stale, now);
}

/// Another pass for a switch in waiting keeps the queue valid and its
/// processes apart; what it switches to was found ready on this pass.
pub proof fn lemma_resume<P: EventPoll>(queue: Queue<P>, tf: TrapFrame, now: u64)
    requires
        queue.wf(),
        queue.tracks_ids(),
    ensures
        ({
            let (after, frame, to) = queue.resume(tf, now);
            let found = scan(queue.processes, 0, now).1;
            &&& after.wf()
            &&& after.tracks_ids()
            &&& queue.pending is None ==> after == queue && frame == tf && to is None
            &&& to matches Some(id) ==> {
                &&& found < queue.processes.len()
                &&& queue.processes[found].ready_spec(now).0
                &&& id == queue.ids[found]
                &&& after.current == Some(id)
                &&& frame.thread_id == id
            }
        }),
{
    if let Some(link) = queue.pending {
        lemma_pass(queue, link, tf, now);
    }
}

/// A context switch keeps at most one process `Running`: if no process but
/// the current one is `Running`, the current one is not set aside as
/// `Running`, and no poll of this pass leaves its process `Running`, then
/// afterwards no process is `Running` but the one switched to.
pub proof fn lemma_switch_one_running<P: EventPoll>(
    queue: Queue<P>,
    new_state: State<P>,
    tf: TrapFrame,
    now: u64,
)
    requires
        queue.wf(),
        queue.one_running(),
        queue.current is Some,
        !(new_state is Running),
        forall|j: int|
            0 <= j < queue.processes.len() ==> !((#[trigger] queue.deschedule(
                new_state,
                tf,
            ).0.processes[j]).ready_spec(now).1.state is Running),
    ensures
        queue.switch(new_state, tf, now).0.one_running(),
        queue.switch(new_state, tf, now).2 is To ==> queue.switch(
            new_state,
            tf,
            now,
        ).0.processes[0].state is Running,
{
    let (order, stale) = queue.deschedule(new_state, tf);
    let n = queue.processes.len() as int;
    let (polled, found) = scan(order.processes, 0, now);
    lemma_scan(order.processes, 0, now);
    let after = queue.switch(new_state, tf, now).0;
    assert forall|j: int| 0 <= j < n implies !((#[trigger] polled[j]).state is Running) by {
        if j <= found {
            assert(polled[j] == order.processes[j].ready_spec(now).1);
        } else {
            assert(polled[j] == order.processes[j]);
            if j < n - 1 {
                assert(order.processes[j] == queue.processes[j + 1]);
            }
        }
    }
    if found < n {
        assert forall|i: int| #![trigger after.processes[i]] 1 <= i < n implies !(after.processes[i].state is Running) by {
            let a = if i <= found { i - 1 } else { i };
            assert(after.processes[i] == polled[a]);
        }
    } else {
        assert forall|i: int| #![trigger after.processes[i]] 0 <= i < n implies !(after.processes[i].state is Running) by {
            assert(after.processes[i] == polled[i]);
        }
    }
}

/// Adding a process that is not `Running` keeps at most one process
/// `Running`.
pub proof fn lemma_add_one_running<P: EventPoll>(queue: Queue<P>, process: Process<P>)
    requires
        queue.wf(),
        queue.one_running(),
        !(process.state is Running),
    ensures
        queue.add(process).0.one_running(),
{
    let after = queue.add(process).0;
    if queue.last_id is Some {
        assert forall|i: int|
            #![trigger after.processes[i]]
            (if after.current is Some { 1int } else { 0int }) <= i
                < after.processes.len() implies !(after.processes[i].state is Running) by {
            if i < queue.processes.len() {
                assert(after.processes[i] == queue.processes[i]);
            }
        }
    }
}

} // verus!
