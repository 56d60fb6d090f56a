use crate::model::{
    Event, Phase, PoolModel, Slot, WorkerState, acts_of_workers, count_busy, sum_steps_left,
};
use vstd::prelude::*;

verus! {

/// Among any workers, no more are busy than there are workers.
pub proof fn lemma_count_busy_bounded(states: Seq<WorkerState>)
    ensures
        count_busy(states) <= states.len(),
    decreases states.len(),
{
    if states.len() > 0 {
        lemma_count_busy_bounded(states.drop_last());
    }
}

/// A fresh pool satisfies the invariant.
pub proof fn lemma_init_inv<J>(size: nat)
    ensures
        PoolModel::<J>::init(size).inv(),
        PoolModel::<J>::init(size).size() == size,
        PoolModel::<J>::init(size).phase() == Phase::Active,
{
}

/// Accepting a job keeps the invariant.
pub proof fn lemma_submit_inv<J>(m: PoolModel<J>, job: J)
    requires
        m.inv(),
    ensures
        m.submit(job).inv(),
{
    let n = m.submit(job);
    if !m.closed {
        assert forall|t: nat| t < n.taken implies #[trigger] n.finished.contains(t) || n.runs(
            t,
        ) by {
            if !m.finished.contains(t) {
                assert(m.runs(t));
            }
        }
    }
}

/// A worker's request for work keeps the invariant.
pub proof fn lemma_take_inv<J>(m: PoolModel<J>, w: int)
    requires
        m.inv(),
        m.enabled(Event::Take(w)),
    ensures
        m.take(w).inv(),
{
    let n = m.take(w);
    if m.taken < m.accepted.len() {
        assert forall|t: nat| t < n.taken implies #[trigger] n.finished.contains(t) || n.runs(
            t,
        ) by {
            if t == m.taken {
                assert(n.slots[w] == Slot::Busy(t));
            } else if !m.finished.contains(t) {
                assert(m.runs(t));
                let v = choose|v: int| 0 <= v < m.slots.len() && m.slots[v] == Slot::Busy(t);
                assert(n.slots[v] == Slot::Busy(t));
            }
        }
        assert forall|v: int| 0 <= v < n.slots.len() implies !(#[trigger] n.slots[v]
            == Slot::Stopped || n.slots[v] == Slot::Joined) by {
            if v != w {
                assert(n.slots[v] == m.slots[v]);
            }
        }
        assert forall|v: int| 0 <= v < n.slots.len() implies (#[trigger] n.slots[v] matches Slot::Busy(
            t,
        ) ==> t < n.taken && !n.finished.contains(t)) by {
            if v != w {
                assert(n.slots[v] == m.slots[v]);
            }
        }
    } else if m.closed {
        assert forall|t: nat| t < n.taken implies #[trigger] n.finished.contains(t) || n.runs(
            t,
        ) by {
            if !m.finished.contains(t) {
                assert(m.runs(t));
                let v = choose|v: int| 0 <= v < m.slots.len() && m.slots[v] == Slot::Busy(t);
                assert(n.slots[v] == Slot::Busy(t));
            }
        }
    }
}

/// The end of a job keeps the invariant, with or without a fault.
pub proof fn lemma_finish_inv<J>(m: PoolModel<J>, w: int, fault: bool)
    requires
        m.inv(),
        m.enabled(Event::Finish(w, fault)),
    ensures
        m.finish(w, fault).inv(),
{
    let n = m.finish(w, fault);
    let done = m.slots[w]->Busy_0;
    assert(n.finished == m.finished.push(done));
    assert forall|t: nat| m.finished.contains(t) implies n.finished.contains(t) by {
        let i = choose|i: int| 0 <= i < m.finished.len() && m.finished[i] == t;
        assert(n.finished[i] == t);
    }
    assert(n.finished[m.finished.len() as int] == done);
    assert forall|t: nat| n.finished.contains(t) implies m.finished.contains(t) || t == done by {
        let i = choose|i: int| 0 <= i < n.finished.len() && n.finished[i] == t;
        if i < m.finished.len() {
            assert(m.finished[i] == t);
        }
    }
    assert(n.finished.no_duplicates()) by {
        assert forall|i: int, j: int|
            0 <= i < n.finished.len() && 0 <= j < n.finished.len() && i != j implies n.finished[i]
            != n.finished[j] by {
            if i < m.finished.len() && j < m.finished.len() {
            } else if i < m.finished.len() {
                assert(m.finished.contains(m.finished[i]));
            } else if j < m.finished.len() {
                assert(m.finished.contains(m.finished[j]));
            }
        }
    }
    assert forall|t: nat| t < n.taken implies #[trigger] n.finished.contains(t) || n.runs(
        t,
    ) by {
        if t != done && !m.finished.contains(t) {
            assert(m.runs(t));
            let v = choose|v: int| 0 <= v < m.slots.len() && m.slots[v] == Slot::Busy(t);
            assert(n.slots[v] == Slot::Busy(t));
        }
    }
    assert forall|v: int| 0 <= v < n.slots.len() implies (#[trigger] n.slots[v] matches Slot::Busy(
        t,
    ) ==> t < n.taken && !n.finished.contains(t)) by {
        if v != w {
            assert(n.slots[v] == m.slots[v]);
            if v < w {
                assert(m.slots[v] is Busy ==> m.slots[v] != m.slots[w]);
            } else {
                assert(m.slots[v] is Busy ==> m.slots[w] != m.slots[v]);
            }
        }
    }
    assert forall|i: int| 0 <= i < n.finished.len() implies #[trigger] n.finished[i]
        < n.taken by {
        if i < m.finished.len() {
            assert(n.finished[i] == m.finished[i]);
        }
    }
    assert forall|t: nat| n.faulted.contains(t) implies n.finished.contains(t) by {
        if t != done {
            assert(m.faulted.contains(t));
        }
    }
    if n.slots.len() == 1 {
        assert(w == 0);
        assert forall|i: int| 0 <= i < n.finished.len() implies n.finished[i] == i by {
            if i < m.finished.len() {
                assert(n.finished[i] == m.finished[i]);
            }
        }
        assert(m.runs((m.taken - 1) as nat) || m.finished.contains((m.taken - 1) as nat));
        if m.finished.contains((m.taken - 1) as nat) {
            let i = choose|i: int|
                0 <= i < m.finished.len() && m.finished[i] == (m.taken - 1) as nat;
            assert(false);
        }
    }
}

/// The beginning of shutdown keeps the invariant.
pub proof fn lemma_shutdown_inv<J>(m: PoolModel<J>)
    requires
        m.inv(),
    ensures
        m.shutdown().inv(),
{
    let n = m.shutdown();
    assert forall|t: nat| t < n.taken implies #[trigger] n.finished.contains(t) || n.runs(
        t,
    ) by {
        if !m.finished.contains(t) {
            assert(m.runs(t));
        }
    }
}

/// Joining a stopped worker keeps the invariant.
pub proof fn lemma_join_inv<J>(m: PoolModel<J>, w: int)
    requires
        m.inv(),
        m.enabled(Event::Join(w)),
    ensures
        m.join(w).inv(),
{
    let n = m.join(w);
    assert forall|t: nat| t < n.taken implies #[trigger] n.finished.contains(t) || n.runs(
        t,
    ) by {
        if !m.finished.contains(t) {
            assert(m.runs(t));
            let v = choose|v: int| 0 <= v < m.slots.len() && m.slots[v] == Slot::Busy(t);
            assert(n.slots[v] == Slot::Busy(t));
        }
    }
    assert forall|v: int| 0 <= v < n.slots.len() implies (#[trigger] n.slots[v] matches Slot::Busy(
        t,
    ) ==> t < n.taken && !n.finished.contains(t)) by {
        if v != w {
            assert(n.slots[v] == m.slots[v]);
        }
    }
}

/// Whatever happens to a pool, the invariant survives, the number of workers
/// stays what it was, and nothing that was accepted or has ended is forgotten.
pub proof fn lemma_step_inv<J>(m: PoolModel<J>, e: Event<J>)
    requires
        m.inv(),
        m.enabled(e),
    ensures
        m.step(e).inv(),
        m.step(e).size() == m.size(),
        m.accepted.is_prefix_of(m.step(e).accepted),
        m.finished.is_prefix_of(m.step(e).finished),
        m.closed ==> m.step(e).closed && m.step(e).accepted == m.accepted,
{
    match e {
        Event::Submit(job) => lemma_submit_inv(m, job),
        Event::Take(w) => lemma_take_inv(m, w),
        Event::Finish(w, fault) => lemma_finish_inv(m, w, fault),
        Event::Shutdown => lemma_shutdown_inv(m),
        Event::Join(w) => lemma_join_inv(m, w),
    }
}

/// The same, for any number of events in a row.
pub proof fn lemma_run_inv<J>(m: PoolModel<J>, trace: Seq<Event<J>>)
    requires
        m.inv(),
        m.admits(trace),
    ensures
        m.run(trace).inv(),
        m.run(trace).size() == m.size(),
        m.accepted.is_prefix_of(m.run(trace).accepted),
        m.finished.is_prefix_of(m.run(trace).finished),
        m.closed ==> m.run(trace).closed && m.run(trace).accepted == m.accepted,
    decreases trace.len(),
{
    if trace.len() > 0 {
        lemma_run_inv(m, trace.drop_last());
        lemma_step_inv(m.run(trace.drop_last()), trace.last());
    }
}

/// Where no worker is busy, the count of busy workers is zero.
pub proof fn lemma_count_busy_none(states: Seq<WorkerState>)
    requires
        forall|w: int| 0 <= w < states.len() ==> states[w] != WorkerState::Busy,
    ensures
        count_busy(states) == 0,
    decreases states.len(),
{
    if states.len() > 0 {
        lemma_count_busy_none(states.drop_last());
    }
}

/// There are exactly `n` tickets below `n`.
pub proof fn lemma_tickets_below(n: nat)
    ensures
        Set::new(|t: nat| t < n).finite(),
        Set::new(|t: nat| t < n).len() == n,
    decreases n,
{
    if n == 0 {
        assert(Set::new(|t: nat| t < n) =~= Set::<nat>::empty());
    } else {
        let less = (n - 1) as nat;
        lemma_tickets_below(less);
        assert(Set::new(|t: nat| t < less).insert(less) =~= Set::new(|t: nat| t < n));
    }
}

/// At no moment does a pool run more jobs than it has workers, and no two
/// workers run the same job.
pub proof fn lemma_running_bounded<J>(m: PoolModel<J>)
    requires
        m.inv(),
    ensures
        m.busy() <= m.size(),
        forall|v: int, w: int|
            0 <= v < m.size() && 0 <= w < m.size() && v != w && m.slots[v] is Busy
                ==> m.slots[v] != m.slots[w],
{
    lemma_count_busy_bounded(m.states());
    assert forall|v: int, w: int|
        0 <= v < m.size() && 0 <= w < m.size() && v != w && m.slots[v] is Busy implies m.slots[v]
        != m.slots[w] by {
        if m.slots[w] is Busy {
            if v < w {
                assert(m.slots[v] != m.slots[w]);
            } else {
                assert(m.slots[w] != m.slots[v]);
            }
        }
    }
}

/// In a stopped pool nothing waits, nothing runs, and the jobs that have
/// ended are exactly the accepted ones, each of them once.
pub proof fn lemma_stopped_every_job_ran_once<J>(m: PoolModel<J>)
    requires
        m.inv(),
        m.size() >= 1,
        m.phase() == Phase::Stopped,
    ensures
        m.pending().len() == 0,
        m.busy() == 0,
        m.finished.no_duplicates(),
        m.finished.len() == m.accepted.len(),
        forall|t: nat| t < m.accepted.len() <==> m.finished.contains(t),
{
    assert(m.slots[0] == Slot::Joined);
    assert(m.taken == m.accepted.len());
    lemma_count_busy_none(m.states());
    assert forall|t: nat| t < m.accepted.len() implies m.finished.contains(t) by {
        if m.runs(t) {
            let w = choose|w: int| 0 <= w < m.slots.len() && m.slots[w] == Slot::Busy(t);
            assert(m.slots[w] == Slot::Joined);
        }
    }
    assert forall|t: nat| m.finished.contains(t) implies t < m.accepted.len() by {
        let i = choose|i: int| 0 <= i < m.finished.len() && m.finished[i] == t;
        assert(m.finished[i] < m.taken);
    }
    m.finished.unique_seq_to_set();
    lemma_tickets_below(m.taken);
    assert(m.finished.to_set() =~= Set::new(|t: nat| t < m.taken));
}

/// No worker of a stopped pool is alive: each has left its loop and has
/// been joined.
pub proof fn lemma_stopped_no_worker_alive<J>(m: PoolModel<J>)
    requires
        m.phase() == Phase::Stopped,
    ensures
        forall|w: int| 0 <= w < m.size() ==> m.states()[w] == WorkerState::Joined,
{
}

/// A stopped pool stays as it is: the only events left are a submission,
/// which is refused, and another shutdown, and neither changes anything.
pub proof fn lemma_stopped_is_final<J>(m: PoolModel<J>, e: Event<J>)
    requires
        m.phase() == Phase::Stopped,
        m.enabled(e),
    ensures
        m.step(e) == m,
{
    match e {
        Event::Take(w) => assert(m.slots[w] == Slot::Joined),
        Event::Finish(w, _) => assert(m.slots[w] == Slot::Joined),
        Event::Join(w) => assert(m.slots[w] == Slot::Joined),
        _ => {},
    }
}

/// A pool never goes back to an earlier phase.
pub proof fn lemma_phase_one_way<J>(m: PoolModel<J>, e: Event<J>)
    requires
        m.enabled(e),
    ensures
        m.phase().rank() <= m.step(e).phase().rank(),
{
    if m.phase() == Phase::Stopped {
        lemma_stopped_is_final(m, e);
    }
}

/// A fault in a job touches nothing but the record of faults: the worker is
/// idle again and may ask for the next job, the other workers and the queue
/// are as they would be after a job that ended well.
pub proof fn lemma_fault_is_contained<J>(m: PoolModel<J>, w: int)
    requires
        m.inv(),
        m.enabled(Event::Finish(w, true)),
    ensures
        m.finish(w, true).slots == m.finish(w, false).slots,
        m.finish(w, true).accepted == m.finish(w, false).accepted,
        m.finish(w, true).taken == m.finish(w, false).taken,
        m.finish(w, true).closed == m.finish(w, false).closed,
        m.finish(w, true).finished == m.finish(w, false).finished,
        m.finish(w, true).enabled(Event::Take(w)),
        m.finish(w, true).offer() == m.offer(),
        m.finish(w, true).pending() == m.pending(),
        forall|v: int| 0 <= v < m.size() && v != w ==> m.finish(w, true).slots[v] == m.slots[v],
{
}

/// With a single worker the jobs end in the order in which they were
/// submitted: the job that ends as number `i` is the one accepted as number `i`.
pub proof fn lemma_single_worker_fifo<J>(m: PoolModel<J>)
    requires
        m.inv(),
        m.size() == 1,
    ensures
        forall|i: int| 0 <= i < m.finished.len() ==> m.finished[i] == i,
{
}

/// Whatever the schedule, a pool of `size` workers never runs more than
/// `size` jobs at once.
pub proof fn theorem_never_more_than_size_running<J>(size: nat, trace: Seq<Event<J>>)
    requires
        PoolModel::<J>::init(size).admits(trace),
    ensures
        PoolModel::<J>::init(size).run(trace).size() == size,
        PoolModel::<J>::init(size).run(trace).busy() <= size,
{
    lemma_init_inv::<J>(size);
    lemma_run_inv(PoolModel::<J>::init(size), trace);
    lemma_running_bounded(PoolModel::<J>::init(size).run(trace));
}

/// Whatever the schedule that takes a pool from its creation to `Stopped`,
/// every job that was accepted on the way has then run to its end exactly
/// once.
pub proof fn theorem_every_job_runs_once<J>(size: nat, trace: Seq<Event<J>>)
    requires
        size >= 1,
        PoolModel::<J>::init(size).admits(trace),
        PoolModel::<J>::init(size).run(trace).phase() == Phase::Stopped,
    ensures
        ({
            let end = PoolModel::<J>::init(size).run(trace);
            &&& end.finished.no_duplicates()
            &&& end.finished.len() == end.accepted.len()
            &&& forall|t: nat| t < end.accepted.len() <==> end.finished.contains(t)
        }),
{
    lemma_init_inv::<J>(size);
    lemma_run_inv(PoolModel::<J>::init(size), trace);
    lemma_stopped_every_job_ran_once(PoolModel::<J>::init(size).run(trace));
}

/// Shutdown drains the queue: of the jobs that a pool holds when shutdown has
/// begun, waiting or running, every one has ended, exactly once, by the time
/// the pool is stopped, and none was added or replaced in between.
pub proof fn theorem_shutdown_drains<J>(m: PoolModel<J>, trace: Seq<Event<J>>)
    requires
        m.inv(),
        m.size() >= 1,
        m.closed,
        m.admits(trace),
        m.run(trace).phase() == Phase::Stopped,
    ensures
        m.run(trace).accepted == m.accepted,
        m.run(trace).finished.no_duplicates(),
        forall|t: nat| t < m.accepted.len() ==> m.run(trace).finished.contains(t),
{
    lemma_run_inv(m, trace);
    lemma_stopped_every_job_ran_once(m.run(trace));
}

/// Whatever the schedule, a pool with a single worker ends its jobs in the
/// order of submission.
pub proof fn theorem_single_worker_in_submission_order<J>(trace: Seq<Event<J>>)
    requires
        PoolModel::<J>::init(1).admits(trace),
    ensures
        ({
            let end = PoolModel::<J>::init(1).run(trace);
            forall|i: int| 0 <= i < end.finished.len() ==> end.finished[i] == i
        }),
{
    lemma_init_inv::<J>(1);
    lemma_run_inv(PoolModel::<J>::init(1), trace);
}

/// Every accepted job is in exactly one place: it waits, or one worker runs
/// it, or it has ended; and it has ended at most once.
pub proof fn lemma_job_is_in_one_place<J>(m: PoolModel<J>, t: nat)
    requires
        m.inv(),
        t < m.accepted.len(),
    ensures
        t >= m.taken <==> !m.runs(t) && !m.finished.contains(t),
        !(m.runs(t) && m.finished.contains(t)),
        forall|v: int, w: int|
            0 <= v < m.size() && 0 <= w < m.size() && m.slots[v] == Slot::Busy(t) && m.slots[w]
                == Slot::Busy(t) ==> v == w,
        forall|i: int, j: int|
            0 <= i < m.finished.len() && 0 <= j < m.finished.len() && m.finished[i] == t
                && m.finished[j] == t ==> i == j,
{
    if m.runs(t) {
        let w = choose|w: int| 0 <= w < m.slots.len() && m.slots[w] == Slot::Busy(t);
        assert(m.slots[w] matches Slot::Busy(u) ==> u < m.taken && !m.finished.contains(u));
    }
    if m.finished.contains(t) {
        let i = choose|i: int| 0 <= i < m.finished.len() && m.finished[i] == t;
        assert(m.finished[i] < m.taken);
    }
    lemma_running_bounded(m);
}

/// Jobs are handed to the workers in the order of submission, however many
/// workers there are: once a job has been handed out, so has every job that
/// was accepted before it.
pub proof fn lemma_handed_out_in_order<J>(m: PoolModel<J>, earlier: nat, later: nat)
    requires
        m.inv(),
        earlier <= later < m.accepted.len(),
        m.runs(later) || m.finished.contains(later),
    ensures
        m.runs(earlier) || m.finished.contains(earlier),
{
    lemma_job_is_in_one_place(m, later);
}

/// What replacing one worker's state does to the sum of the steps left.
pub proof fn lemma_sum_steps_left_update(slots: Seq<Slot>, w: int, s: Slot)
    requires
        0 <= w < slots.len(),
    ensures
        sum_steps_left(slots.update(w, s)) + slots[w].steps_left() == sum_steps_left(slots)
            + s.steps_left(),
    decreases slots.len(),
{
    let after = slots.update(w, s);
    if w == slots.len() - 1 {
        assert(after.drop_last() =~= slots.drop_last());
    } else {
        lemma_sum_steps_left_update(slots.drop_last(), w, s);
        assert(after.drop_last() =~= slots.drop_last().update(w, s));
    }
}

/// Where every worker has been joined, no worker has a step left, and the
/// other way round.
pub proof fn lemma_sum_steps_left_zero(slots: Seq<Slot>)
    ensures
        sum_steps_left(slots) == 0 <==> forall|w: int|
            0 <= w < slots.len() ==> slots[w] == Slot::Joined,
    decreases slots.len(),
{
    if slots.len() > 0 {
        let front = slots.drop_last();
        lemma_sum_steps_left_zero(front);
        if sum_steps_left(slots) == 0 {
            assert forall|w: int| 0 <= w < slots.len() implies slots[w] == Slot::Joined by {
                if w < front.len() {
                    assert(front[w] == slots[w]);
                }
            }
        }
        if forall|w: int| 0 <= w < slots.len() ==> slots[w] == Slot::Joined {
            assert forall|w: int| 0 <= w < front.len() implies front[w] == Slot::Joined by {
                assert(front[w] == slots[w]);
            }
        }
    }
}

/// Once shutdown has begun, the pool is stopped exactly when nothing remains
/// to be done.
pub proof fn lemma_stopped_iff_nothing_remains<J>(m: PoolModel<J>)
    requires
        m.inv(),
        m.size() >= 1,
        m.closed,
    ensures
        m.phase() == Phase::Stopped <==> m.remaining() == 0,
{
    lemma_sum_steps_left_zero(m.slots);
    if m.phase() == Phase::Stopped {
        lemma_stopped_every_job_ran_once(m);
    }
}

/// Until a pool is stopped, some worker can act: shutdown cannot get stuck.
pub proof fn lemma_some_worker_can_act<J>(m: PoolModel<J>)
    requires
        m.closed,
        m.phase() != Phase::Stopped,
    ensures
        exists|w: int|
            0 <= w < m.size() && (m.enabled(Event::Take(w)) || m.enabled(
                Event::Finish(w, false),
            ) || m.enabled(Event::Join(w))),
{
    let w = choose|w: int| 0 <= w < m.slots.len() && m.slots[w] != Slot::Joined;
    assert(m.enabled(Event::Take(w)) || m.enabled(Event::Finish(w, false)) || m.enabled(
        Event::Join(w),
    ));
}

/// Once shutdown has begun, every act of a worker brings the pool one step
/// closer to `Stopped`, and nothing that a caller does takes it further away.
pub proof fn lemma_step_towards_stopped<J>(m: PoolModel<J>, e: Event<J>)
    requires
        m.inv(),
        m.closed,
        m.enabled(e),
    ensures
        e.by_worker() ==> m.step(e).remaining() + 1 == m.remaining(),
        !e.by_worker() ==> m.step(e) == m,
{
    let n = m.step(e);
    match e {
        Event::Take(w) => {
            if m.taken < m.accepted.len() {
                lemma_sum_steps_left_update(m.slots, w, Slot::Busy(m.taken));
            } else {
                lemma_sum_steps_left_update(m.slots, w, Slot::Stopped);
            }
        },
        Event::Finish(w, _) => {
            lemma_sum_steps_left_update(m.slots, w, Slot::Idle);
        },
        Event::Join(w) => {
            lemma_sum_steps_left_update(m.slots, w, Slot::Joined);
        },
        _ => {},
    }
}

/// Teardown ends, and when: from the moment shutdown has begun, any schedule
/// stops the pool after exactly `remaining` acts of its workers, whatever
/// their order and whatever callers try in between.
pub proof fn theorem_shutdown_terminates<J>(m: PoolModel<J>, trace: Seq<Event<J>>)
    requires
        m.inv(),
        m.size() >= 1,
        m.closed,
        m.admits(trace),
    ensures
        m.run(trace).remaining() + acts_of_workers(trace) == m.remaining(),
        m.run(trace).phase() == Phase::Stopped <==> acts_of_workers(trace) == m.remaining(),
    decreases trace.len(),
{
    if trace.len() > 0 {
        let front = trace.drop_last();
        theorem_shutdown_terminates(m, front);
        lemma_run_inv(m, front);
        lemma_step_towards_stopped(m.run(front), trace.last());
    }
    lemma_run_inv(m, trace);
    lemma_stopped_iff_nothing_remains(m.run(trace));
}

} // verus!
