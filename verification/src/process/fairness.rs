//! Round-robin fairness: with every process runnable, the timer hands the
//! CPU to the processes in turn.
use vstd::prelude::*;
use vstd::arithmetic::div_mod::{
    lemma_fundamental_div_mod, lemma_fundamental_div_mod_converse, lemma_mod_bound,
};
use crate::process::laws::lemma_switch;
use crate::process::process::Id;
use crate::process::scheduler::{scan, Queue, Switch};
use crate::process::state::{EventPoll, State};
use crate::traps::trap_frame::TrapFrame;

verus! {

/// A timer tick: the frame that was live on the CPU when the timer fired,
/// and the time.
pub struct Tick {
    pub frame: TrapFrame,
    pub now: u64,
}

/// Every process but the running one, at the head of the queue, is `Ready`.
pub open spec fn runnable<P: EventPoll>(queue: Queue<P>) -> bool {
    forall|i: int| 1 <= i < queue.processes.len() ==> (#[trigger] queue.processes[i]).state is Ready
}

/// The queue after the timer ticks `ticks`, each of which preempts the
/// running process.
pub open spec fn after_ticks<P: EventPoll>(queue: Queue<P>, ticks: Seq<Tick>) -> Queue<P>
    decreases ticks.len(),
{
    if ticks.len() == 0 {
        queue
    } else {
        after_ticks(queue, ticks.drop_last()).switch(
            State::Ready,
            ticks.last().frame,
            ticks.last().now,
        ).0
    }
}

/// How the last of the timer ticks `ticks` ended.
pub open spec fn last_switch<P: EventPoll>(queue: Queue<P>, ticks: Seq<Tick>) -> Switch
    recommends
        ticks.len() > 0,
{
    after_ticks(queue, ticks.drop_last()).switch(
        State::Ready,
        ticks.last().frame,
        ticks.last().now,
    ).2
}

/// The number of the timer ticks `ticks` that hand the CPU to the process
/// `id`.
pub open spec fn turns<P: EventPoll>(queue: Queue<P>, ticks: Seq<Tick>, id: Id) -> nat
    decreases ticks.len(),
{
    if ticks.len() == 0 {
        0
    } else {
        turns(queue, ticks.drop_last(), id) + if last_switch(queue, ticks) == Switch::To(id) {
            1nat
        } else {
            0nat
        }
    }
}

/// The number of `t` in `1..=k` that leave the remainder `r` when divided by
/// `n`.
pub open spec fn residues(n: int, r: int, k: nat) -> nat
    decreases k,
{
    if k == 0 {
        0
    } else {
        residues(n, r, (k - 1) as nat) + if k as int % n == r {
            1nat
        } else {
            0nat
        }
    }
}

/// The live frames of the ticks belong to the processes in turn: at tick
/// `k` the frame carries the ID of the process `k` places down the queue,
/// counted round.
pub open spec fn frames_in_turn<P: EventPoll>(queue: Queue<P>, ticks: Seq<Tick>) -> bool {
    forall|k: int|
        0 <= k < ticks.len() ==> (#[trigger] ticks[k]).frame.thread_id == queue.ids[k % (
        queue.ids.len() as int)]
}

/// How quotient and remainder change from `k` to `k + 1`.
proof fn lemma_succ_div_mod(k: int, n: int)
    requires
        0 <= k,
        0 < n,
    ensures
        (k + 1) % n == 0 ==> (k + 1) / n == k / n + 1 && k % n == n - 1,
        (k + 1) % n != 0 ==> (k + 1) / n == k / n && (k + 1) % n == k % n + 1,
{
    lemma_fundamental_div_mod(k, n);
    lemma_mod_bound(k, n);
    let q = k / n;
    let r = k % n;
    assert(n * q == q * n) by (nonlinear_arith);
    if r == n - 1 {
        assert(k + 1 == (q + 1) * n + 0) by (nonlinear_arith)
            requires
                k == q * n + r,
                r == n - 1,
        ;
        lemma_fundamental_div_mod_converse(k + 1, n, q + 1, 0);
    } else {
        lemma_fundamental_div_mod_converse(k + 1, n, q, r + 1);
    }
}

/// Of `k` consecutive numbers, each remainder modulo `n` is left by `k / n`
/// of them, or by one more.
pub proof fn lemma_residues(n: int, r: int, k: nat)
    requires
        0 < n,
        0 <= r < n,
    ensures
        k as int / n <= residues(n, r, k) <= k as int / n + 1,
        residues(n, r, k) == k as int / n + if 1 <= r <= k as int % n {
            1int
        } else {
            0int
        },
    decreases k,
{
    if k == 0 {
        lemma_fundamental_div_mod_converse(0, n, 0, 0);
    } else {
        lemma_residues(n, r, (k - 1) as nat);
        lemma_succ_div_mod(k - 1, n);
        lemma_mod_bound(k - 1, n);
    }
}

/// The timer preempts a running process among runnable ones: the process
/// next in the queue is switched in, the preempted one goes to the back, and
/// the queue is as before, turned by one place.
pub proof fn lemma_tick<P: EventPoll>(queue: Queue<P>, tf: TrapFrame, now: u64)
    requires
        queue.wf(),
        queue.tracks_ids(),
        runnable(queue),
        queue.current == Some(tf.thread_id),
    ensures
        ({
            let (after, frame, r) = queue.switch(State::Ready, tf, now);
            let n = queue.ids.len() as int;
            &&& after.wf()
            &&& after.tracks_ids()
            &&& runnable(after)
            &&& after.ids == queue.ids.drop_first().push(queue.ids[0])
            &&& r == Switch::To(queue.ids[1int % n])
            &&& after.current == Some(queue.ids[1int % n])
            &&& frame.thread_id == queue.ids[1int % n]
        }),
{
    let (after, frame, r) = queue.switch(State::Ready, tf, now);
    let (order, stale) = queue.deschedule(State::Ready, tf);
    let n = queue.ids.len() as int;
    lemma_switch(queue, State::Ready, tf, now);
    assert(order.processes[0].state is Ready) by {
        if n > 1 {
            assert(order.processes[0] == queue.processes[1]);
        }
    }
    let (polled, found) = scan(order.processes, 0, now);
    assert(found == 0);
    assert(polled =~= order.processes);
    assert(after.ids =~= order.ids);
    if n == 1 {
        lemma_fundamental_div_mod_converse(1, n, 1, 0);
    } else {
        lemma_fundamental_div_mod_converse(1, n, 0, 1);
    }
    assert forall|i: int| 1 <= i < after.processes.len() implies (#[trigger] after.processes[i]).state is Ready by {
        assert(after.processes[i] == order.processes[i]);
        if i < n - 1 {
            assert(order.processes[i] == queue.processes[i + 1]);
        }
    }
}

/// Round robin: while every process is runnable and the timer preempts the
/// running one at each tick, tick `k` hands the CPU to the process `k + 1`
/// places down the queue, counted round, and after the ticks the queue is
/// as at the start, turned by their number.
pub proof fn lemma_round_robin<P: EventPoll>(queue: Queue<P>, ticks: Seq<Tick>)
    requires
        queue.wf(),
        queue.tracks_ids(),
        runnable(queue),
        queue.current is Some,
        frames_in_turn(queue, ticks),
    ensures
        ({
            let after = after_ticks(queue, ticks);
            let n = queue.ids.len() as int;
            &&& n > 0
            &&& after.wf()
            &&& after.tracks_ids()
            &&& runnable(after)
            &&& after.ids.len() == n
            &&& after.current == Some(queue.ids[ticks.len() as int % n])
            &&& forall|i: int| 0 <= i < n ==> #[trigger] after.ids[i] == queue.ids[(i + ticks.len()) % n]
            &&& ticks.len() > 0 ==> last_switch(queue, ticks) == Switch::To(
                queue.ids[ticks.len() as int % n],
            )
        }),
    decreases ticks.len(),
{
    let n = queue.ids.len() as int;
    let k = ticks.len() as int;
    if k == 0 {
        lemma_fundamental_div_mod_converse(0, n, 0, 0);
        assert forall|i: int| 0 <= i < n implies #[trigger] queue.ids[i] == queue.ids[(i + 0) % n] by {
            lemma_fundamental_div_mod_converse(i, n, 0, i);
        }
    } else {
        let earlier = ticks.drop_last();
        assert forall|j: int| 0 <= j < earlier.len() implies (#[trigger] earlier[j]).frame.thread_id
            == queue.ids[j % n] by {
            assert(earlier[j] == ticks[j]);
        }
        lemma_round_robin(queue, earlier);
        let before = after_ticks(queue, earlier);
        let tick = ticks.last();
        assert(tick == ticks[k - 1]);
        lemma_mod_bound(k - 1, n);
        lemma_tick(before, tick.frame, tick.now);
        lemma_succ_div_mod(k - 1, n);
        let after = after_ticks(queue, ticks);
        assert(before.ids[0] == queue.ids[(0 + (k - 1)) % n]);
        assert(n > 1 ==> before.ids[1] == queue.ids[(1 + (k - 1)) % n]);
        if n == 1 {
            lemma_fundamental_div_mod_converse(1, n, 1, 0);
        } else {
            lemma_fundamental_div_mod_converse(1, n, 0, 1);
        }
        assert forall|i: int| 0 <= i < n implies #[trigger] after.ids[i] == queue.ids[(i + k) % n] by {
            lemma_mod_bound(i + k - 1, n);
            lemma_succ_div_mod(i + k - 1, n);
            if i < n - 1 {
                assert(after.ids[i] == before.ids[i + 1]);
                assert(before.ids[i + 1] == queue.ids[(i + 1 + (k - 1)) % n]);
            } else {
                assert(after.ids[i] == before.ids[0]);
                lemma_fundamental_div_mod(k - 1, n);
                let q = (k - 1) / n;
                let r = (k - 1) % n;
                assert(n - 1 + k == (q + 1) * n + r) by (nonlinear_arith)
                    requires
                        k - 1 == n * q + r,
                ;
                lemma_fundamental_div_mod_converse(n - 1 + k, n, q + 1, r);
            }
        }
    }
}

/// Fairness: while every process is runnable and the timer preempts the
/// running one at each tick, each process of a queue of `n` gets, of `k`
/// ticks, `k / n` turns or one more.
pub proof fn lemma_fair_share<P: EventPoll>(queue: Queue<P>, ticks: Seq<Tick>, place: int)
    requires
        queue.wf(),
        queue.tracks_ids(),
        runnable(queue),
        queue.current is Some,
        frames_in_turn(queue, ticks),
        0 <= place < queue.ids.len(),
    ensures
        ({
            let n = queue.ids.len() as int;
            let k = ticks.len() as int;
            &&& turns(queue, ticks, queue.ids[place]) == residues(n, place, ticks.len())
            &&& k / n <= turns(queue, ticks, queue.ids[place]) <= k / n + 1
        }),
    decreases ticks.len(),
{
    let n = queue.ids.len() as int;
    let k = ticks.len() as int;
    lemma_residues(n, place, ticks.len());
    if k > 0 {
        let earlier = ticks.drop_last();
        assert forall|j: int| 0 <= j < earlier.len() implies (#[trigger] earlier[j]).frame.thread_id
            == queue.ids[j % n] by {
            assert(earlier[j] == ticks[j]);
        }
        lemma_fair_share(queue, earlier, place);
        lemma_round_robin(queue, ticks);
        lemma_mod_bound(k, n);
        if k % n != place {
            assert(queue.ids[k % n] != queue.ids[place]);
        }
    }
}

} // verus!
