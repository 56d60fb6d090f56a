use vstd::prelude::*;

verus! {

/// Where the pool as a whole stands. A pool only ever moves forward through
/// these three phases.
#[derive(Clone, Copy, Debug, PartialEq, Eq, Structural)]
pub enum Phase {
    /// Jobs are accepted and the workers serve them.
    Active,
    /// Shutdown has begun: no job is accepted any more, and the workers
    /// finish what was queued.
    Draining,
    /// Every worker has stopped and has been joined.
    Stopped,
}

impl Phase {
    /// The phase's place in the order in which a pool goes through them.
    pub open spec fn rank(self) -> nat {
        match self {
            Phase::Active => 0,
            Phase::Draining => 1,
            Phase::Stopped => 2,
        }
    }
}

/// What one worker is doing.
#[derive(Clone, Copy, Debug, PartialEq, Eq, Structural)]
pub enum WorkerState {
    /// The worker waits for a job.
    Idle,
    /// The worker runs a job.
    Busy,
    /// The worker found the queue closed and drained, and left its loop.
    Stopped,
    /// The worker has stopped, and its thread has been joined.
    Joined,
}

/// The pool's answer to a worker that asks for work.
#[derive(Debug, PartialEq, Eq)]
pub enum Dispatch<J> {
    /// Run this job, then report that it has finished.
    Run(J),
    /// Nothing to do for now: wait until something is submitted or the pool
    /// shuts down, then ask again.
    Wait,
    /// The pool is shut down and nothing is left: leave the loop.
    Exit,
}

/// A worker's state in the model. A busy worker carries the ticket of the
/// job it runs: the position of that job among all accepted jobs.
pub enum Slot {
    Idle,
    Busy(nat),
    Stopped,
    Joined,
}

impl Slot {
    /// The state without the ticket.
    pub open spec fn state(self) -> WorkerState {
        match self {
            Slot::Idle => WorkerState::Idle,
            Slot::Busy(_) => WorkerState::Busy,
            Slot::Stopped => WorkerState::Stopped,
            Slot::Joined => WorkerState::Joined,
        }
    }
}

impl Slot {
    /// How many more times a worker in this state acts before it has been
    /// joined, once shutdown has begun and nothing waits any more: a busy
    /// worker ends its job, an idle one asks and is told to leave, a stopped
    /// one is joined.
    pub open spec fn steps_left(self) -> nat {
        match self {
            Slot::Busy(_) => 3,
            Slot::Idle => 2,
            Slot::Stopped => 1,
            Slot::Joined => 0,
        }
    }
}

/// The sum of `steps_left` over `slots`.
pub open spec fn sum_steps_left(slots: Seq<Slot>) -> nat
    decreases slots.len(),
{
    if slots.len() == 0 {
        0
    } else {
        sum_steps_left(slots.drop_last()) + slots.last().steps_left()
    }
}

/// How many of `states` are `Busy`.
pub open spec fn count_busy(states: Seq<WorkerState>) -> nat
    decreases states.len(),
{
    if states.len() == 0 {
        0
    } else {
        count_busy(states.drop_last()) + if states.last() == WorkerState::Busy {
            1nat
        } else {
            0nat
        }
    }
}

/// Something that happens to a pool. Workers are named by their index.
pub enum Event<J> {
    /// A caller submits a job.
    Submit(J),
    /// An idle worker asks for work.
    Take(int),
    /// A busy worker reports that its job has ended; the flag tells whether
    /// the job ended in a fault.
    Finish(int, bool),
    /// Shutdown begins.
    Shutdown,
    /// The thread of a stopped worker has been joined.
    Join(int),
}

impl<J> Event<J> {
    /// Whether the event is a worker's doing, and not a caller's.
    pub open spec fn by_worker(self) -> bool {
        self is Take || self is Finish || self is Join
    }
}

/// How many events of `trace` are a worker's doing.
pub open spec fn acts_of_workers<J>(trace: Seq<Event<J>>) -> nat
    decreases trace.len(),
{
    if trace.len() == 0 {
        0
    } else {
        acts_of_workers(trace.drop_last()) + if trace.last().by_worker() {
            1nat
        } else {
            0nat
        }
    }
}

/// The mathematical state of a pool, with its whole history.
///
/// Every accepted job gets a ticket, its index in `accepted`. Tickets are
/// handed to workers in increasing order, so the jobs that still wait are
/// exactly those with a ticket of `taken` or more.
pub struct PoolModel<J> {
    /// Whether shutdown has begun.
    pub closed: bool,
    /// Every job that was ever accepted, in the order of acceptance.
    pub accepted: Seq<J>,
    /// How many jobs have been handed to a worker.
    pub taken: nat,
    /// The workers. Their number never changes.
    pub slots: Seq<Slot>,
    /// The tickets of the jobs that have ended, in the order in which they ended.
    pub finished: Seq<nat>,
    /// The tickets of the jobs that ended in a fault.
    pub faulted: Set<nat>,
}

impl<J> PoolModel<J> {
    /// A fresh pool of `size` idle workers.
    pub open spec fn init(size: nat) -> Self {
        PoolModel {
            closed: false,
            accepted: Seq::empty(),
            taken: 0,
            slots: Seq::new(size, |w: int| Slot::Idle),
            finished: Seq::empty(),
            faulted: Set::empty(),
        }
    }

    /// The number of workers.
    pub open spec fn size(self) -> nat {
        self.slots.len()
    }

    /// The jobs that wait in the queue, oldest first.
    pub open spec fn pending(self) -> Seq<J> {
        self.accepted.subrange(self.taken as int, self.accepted.len() as int)
    }

    /// The workers' states, without the tickets.
    pub open spec fn states(self) -> Seq<WorkerState> {
        Seq::new(self.slots.len(), |w: int| self.slots[w].state())
    }

    /// The number of jobs that are being run.
    pub open spec fn busy(self) -> nat {
        count_busy(self.states())
    }

    /// Whether some worker runs the job with ticket `t`.
    pub open spec fn runs(self, t: nat) -> bool {
        exists|w: int| 0 <= w < self.slots.len() && self.slots[w] == Slot::Busy(t)
    }

    /// Whether every worker has been joined.
    pub open spec fn all_joined(self) -> bool {
        forall|w: int| 0 <= w < self.slots.len() ==> self.slots[w] == Slot::Joined
    }

    /// The pool's phase: active until shutdown begins, stopped once every
    /// worker has been joined, draining in between.
    pub open spec fn phase(self) -> Phase {
        if !self.closed {
            Phase::Active
        } else if self.all_joined() {
            Phase::Stopped
        } else {
            Phase::Draining
        }
    }

    /// What a worker that asks now is told: the oldest waiting job if there
    /// is one; else to leave, if shutdown has begun; else to wait.
    pub open spec fn offer(self) -> Dispatch<J> {
        if self.taken < self.accepted.len() {
            Dispatch::Run(self.accepted[self.taken as int])
        } else if self.closed {
            Dispatch::Exit
        } else {
            Dispatch::Wait
        }
    }

    /// A submission: the job is accepted behind all others, unless shutdown
    /// has begun, in which case nothing changes.
    pub open spec fn submit(self, job: J) -> Self {
        if self.closed {
            self
        } else {
            PoolModel { accepted: self.accepted.push(job), ..self }
        }
    }

    /// Worker `w` asks for work and acts on the offer: it takes the oldest
    /// waiting job, or stops, or goes on waiting.
    pub open spec fn take(self, w: int) -> Self {
        if self.taken < self.accepted.len() {
            PoolModel {
                taken: self.taken + 1,
                slots: self.slots.update(w, Slot::Busy(self.taken)),
                ..self
            }
        } else if self.closed {
            PoolModel { slots: self.slots.update(w, Slot::Stopped), ..self }
        } else {
            self
        }
    }

    /// Worker `w` reports the end of its job and is idle again, whether or
    /// not the job ended in a fault.
    pub open spec fn finish(self, w: int, fault: bool) -> Self {
        match self.slots[w] {
            Slot::Busy(t) => PoolModel {
                slots: self.slots.update(w, Slot::Idle),
                finished: self.finished.push(t),
                faulted: if fault {
                    self.faulted.insert(t)
                } else {
                    self.faulted
                },
                ..self
            },
            _ => self,
        }
    }

    /// Shutdown begins. A second shutdown changes nothing.
    pub open spec fn shutdown(self) -> Self {
        PoolModel { closed: true, ..self }
    }

    /// The thread of the stopped worker `w` has been joined.
    pub open spec fn join(self, w: int) -> Self {
        PoolModel { slots: self.slots.update(w, Slot::Joined), ..self }
    }

    /// Whether `e` can happen in this state. A job can be submitted and
    /// shutdown can be asked for at any time; a worker can only do what fits
    /// its state.
    pub open spec fn enabled(self, e: Event<J>) -> bool {
        match e {
            Event::Submit(_) => true,
            Event::Take(w) => 0 <= w < self.slots.len() && self.slots[w] == Slot::Idle,
            Event::Finish(w, _) => 0 <= w < self.slots.len() && self.slots[w] is Busy,
            Event::Shutdown => true,
            Event::Join(w) => 0 <= w < self.slots.len() && self.slots[w] == Slot::Stopped,
        }
    }

    /// The state after `e`.
    pub open spec fn step(self, e: Event<J>) -> Self {
        match e {
            Event::Submit(job) => self.submit(job),
            Event::Take(w) => self.take(w),
            Event::Finish(w, fault) => self.finish(w, fault),
            Event::Shutdown => self.shutdown(),
            Event::Join(w) => self.join(w),
        }
    }

    /// Whether the events of `trace` can happen one after the other, starting
    /// from this state.
    pub open spec fn admits(self, trace: Seq<Event<J>>) -> bool
        decreases trace.len(),
    {
        trace.len() == 0 || (self.admits(trace.drop_last()) && self.run(
            trace.drop_last(),
        ).enabled(trace.last()))
    }

    /// The state after all events of `trace`.
    pub open spec fn run(self, trace: Seq<Event<J>>) -> Self
        decreases trace.len(),
    {
        if trace.len() == 0 {
            self
        } else {
            self.run(trace.drop_last()).step(trace.last())
        }
    }

    /// The length of the road to `Stopped` once shutdown has begun: two steps
    /// for every waiting job, which has to be taken and ended, and the steps
    /// that are left to each worker.
    pub open spec fn remaining(self) -> nat {
        2 * self.pending().len() + sum_steps_left(self.slots)
    }

    /// With a single worker, jobs end in the order of their tickets, and the
    /// job that runs is the next one in that order.
    pub open spec fn in_order(self) -> bool {
        &&& forall|i: int| 0 <= i < self.finished.len() ==> self.finished[i] == i
        &&& match self.slots[0] {
            Slot::Busy(t) => t == self.finished.len(),
            _ => self.finished.len() == self.taken,
        }
    }

    /// What holds of every state that a pool can reach.
    pub open spec fn inv(self) -> bool {
        &&& self.taken <= self.accepted.len()
        &&& self.finished.no_duplicates()
        &&& forall|i: int| 0 <= i < self.finished.len() ==> #[trigger] self.finished[i] < self.taken
        &&& forall|w: int|
            0 <= w < self.slots.len() ==> (#[trigger] self.slots[w] matches Slot::Busy(t) ==> t
                < self.taken && !self.finished.contains(t))
        &&& forall|v: int, w: int|
            0 <= v < w < self.slots.len() && #[trigger] self.slots[v] is Busy
                && #[trigger] self.slots[w] is Busy ==> self.slots[v] != self.slots[w]
        &&& forall|t: nat|
            t < self.taken ==> #[trigger] self.finished.contains(t) || self.runs(t)
        &&& forall|w: int|
            0 <= w < self.slots.len() && (#[trigger] self.slots[w] == Slot::Stopped
                || self.slots[w] == Slot::Joined) ==> self.closed && self.taken
                == self.accepted.len()
        &&& forall|t: nat| self.faulted.contains(t) ==> self.finished.contains(t)
        &&& self.slots.len() == 1 ==> self.in_order()
    }
}

} // verus!
