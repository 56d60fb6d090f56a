use crate::error::PoolError;
use crate::laws::{
    lemma_count_busy_bounded, lemma_finish_inv, lemma_init_inv, lemma_join_inv,
    lemma_shutdown_inv, lemma_submit_inv, lemma_take_inv,
};
use crate::model::{Dispatch, Event, Phase, PoolModel, Slot, WorkerState, count_busy};
use crate::queue::{JobQueue, Taken};
use vstd::prelude::*;

verus! {

/// A pool of a fixed number of workers that serve one queue of jobs.
///
/// The pool decides; it runs nothing itself. Whoever drives it owns the
/// threads: each worker thread asks with `take`, runs what it is given
/// outside the pool, and reports back with `finish`. The pool's view is
/// its `PoolModel`, history included.
pub struct Pool<J> {
    queue: JobQueue<J>,
    workers: Vec<WorkerState>,
    model: Ghost<PoolModel<J>>,
}

impl<J> View for Pool<J> {
    type V = PoolModel<J>;

    closed spec fn view(&self) -> PoolModel<J> {
        self.model@
    }
}

impl<J> Pool<J> {
    /// The pool is consistent: its queue and its workers are those of its
    /// model, the model satisfies the invariant of all reachable states, and
    /// there is at least one worker.
    pub closed spec fn wf(&self) -> bool {
        &&& self.model@.inv()
        &&& self.model@.size() >= 1
        &&& self.queue.closed() == self.model@.closed
        &&& self.queue.pending() == self.model@.pending()
        &&& self.workers@ == self.model@.states()
    }

    /// What `wf` gives to a caller: the invariant of the model, and at least
    /// one worker.
    pub proof fn lemma_wf_gives_inv(&self)
        requires
            self.wf(),
        ensures
            self@.inv(),
            self@.size() >= 1,
            self@.size() <= usize::MAX,
    {
        assert(self.workers.len() == self.model@.states().len());
    }

    /// A pool of `size` idle workers with an empty queue. A `size` of zero or
    /// less is refused with `InvalidPoolSize`.
    pub fn new(size: isize) -> (r: Result<Pool<J>, PoolError>)
        ensures
            size <= 0 ==> r == Err::<Pool<J>, PoolError>(PoolError::InvalidPoolSize),
            size >= 1 ==> r is Ok && r.unwrap().wf() && r.unwrap()@ == PoolModel::<J>::init(
                size as nat,
            ),
    {
        if size <= 0 {
            return Err(PoolError::InvalidPoolSize);
        }
        let n: usize = size as usize;
        let mut workers: Vec<WorkerState> = Vec::new();
        while workers.len() < n
            invariant
                workers.len() <= n,
                forall|w: int| 0 <= w < workers.len() ==> workers[w] == WorkerState::Idle,
            decreases n - workers.len(),
        {
            workers.push(WorkerState::Idle);
        }
        let pool = Pool {
            queue: JobQueue::new(),
            workers,
            model: Ghost(PoolModel::<J>::init(size as nat)),
        };
        proof {
            lemma_init_inv::<J>(size as nat);
            assert(pool.queue.pending() =~= pool.model@.pending());
            assert(pool.workers@ =~= pool.model@.states());
        }
        Ok(pool)
    }

    /// The number of workers, as it was given to `new`.
    pub fn size(&self) -> (n: usize)
        requires
            self.wf(),
        ensures
            n == self@.size(),
            n >= 1,
    {
        self.workers.len()
    }

    /// Whether shutdown has begun.
    pub fn is_closed(&self) -> (b: bool)
        requires
            self.wf(),
        ensures
            b == self@.closed,
    {
        self.queue.is_closed()
    }

    /// The number of jobs that wait in the queue.
    pub fn queued(&self) -> (n: usize)
        requires
            self.wf(),
        ensures
            n == self@.pending().len(),
    {
        self.queue.len()
    }

    /// The state of worker `worker`, or `None` if the pool has no such worker.
    pub fn worker_state(&self, worker: usize) -> (s: Option<WorkerState>)
        requires
            self.wf(),
        ensures
            worker < self@.size() ==> s == Some(self@.states()[worker as int]),
            worker >= self@.size() ==> s.is_none(),
    {
        if worker < self.workers.len() {
            Some(self.workers[worker])
        } else {
            None
        }
    }

    /// The number of jobs that are being run. It never exceeds the number of
    /// workers.
    pub fn running(&self) -> (n: usize)
        requires
            self.wf(),
        ensures
            n == self@.busy(),
            n <= self@.size(),
    {
        let mut n: usize = 0;
        let mut i: usize = 0;
        while i < self.workers.len()
            invariant
                i <= self.workers.len(),
                n <= i,
                n == count_busy(self.workers@.subrange(0, i as int)),
            decreases self.workers.len() - i,
        {
            proof {
                assert(self.workers@.subrange(0, i + 1).drop_last() =~= self.workers@.subrange(
                    0,
                    i as int,
                ));
            }
            if self.workers[i] == WorkerState::Busy {
                n = n + 1;
            }
            i = i + 1;
        }
        proof {
            assert(self.workers@.subrange(0, i as int) =~= self.workers@);
            lemma_count_busy_bounded(self.workers@);
        }
        n
    }

    /// The pool's phase.
    pub fn phase(&self) -> (p: Phase)
        requires
            self.wf(),
        ensures
            p == self@.phase(),
    {
        if !self.queue.is_closed() {
            return Phase::Active;
        }
        let mut i: usize = 0;
        while i < self.workers.len()
            invariant
                i <= self.workers.len(),
                self.wf(),
                self.model@.closed,
                forall|w: int| 0 <= w < i ==> self.workers[w] == WorkerState::Joined,
            decreases self.workers.len() - i,
        {
            if self.workers[i] != WorkerState::Joined {
                assert(self.model@.states()[i as int] != WorkerState::Joined);
                assert(self.model@.slots[i as int] != Slot::Joined);
                return Phase::Draining;
            }
            i = i + 1;
        }
        proof {
            assert forall|w: int| 0 <= w < self.model@.slots.len() implies self.model@.slots[w]
                == Slot::Joined by {
                assert(self.model@.states()[w] == WorkerState::Joined);
            }
        }
        Phase::Stopped
    }

    /// Submits `job`. While the pool is active the job is queued behind all
    /// others and `Ok` is returned; it will be handed to exactly one worker.
    /// Once shutdown has begun the job is refused with `PoolClosed`, and the
    /// pool stays as it was.
    pub fn execute(&mut self, job: J) -> (r: Result<(), PoolError>)
        requires
            old(self).wf(),
        ensures
            final(self).wf(),
            final(self)@ == old(self)@.submit(job),
            !old(self)@.closed ==> r == Ok::<(), PoolError>(()),
            old(self)@.closed ==> r == Err::<(), PoolError>(PoolError::PoolClosed),
    {
        let ghost before = self.model@;
        let ghost submitted = job;
        let r = self.queue.submit(job);
        proof {
            lemma_submit_inv(before, submitted);
            self.model = Ghost(before.submit(submitted));
            assert(self.queue.pending() =~= self.model@.pending());
            assert(self.workers@ =~= self.model@.states());
        }
        r
    }

    /// Worker `worker`, which is idle, asks for work. It is given the oldest
    /// waiting job and is busy from then on; or, with nothing waiting, it is
    /// told to leave and is stopped, if shutdown has begun, and told to wait
    /// otherwise.
    pub fn take(&mut self, worker: usize) -> (d: Dispatch<J>)
        requires
            old(self).wf(),
            old(self)@.enabled(Event::Take(worker as int)),
        ensures
            final(self).wf(),
            final(self)@ == old(self)@.take(worker as int),
            d == old(self)@.offer(),
    {
        let ghost before = self.model@;
        proof {
            lemma_take_inv(before, worker as int);
        }
        match self.queue.take() {
            Taken::Job(job) => {
                self.workers.set(worker, WorkerState::Busy);
                proof {
                    self.model = Ghost(before.take(worker as int));
                    assert(self.queue.pending() =~= self.model@.pending());
                    assert(self.workers@ =~= self.model@.states());
                }
                Dispatch::Run(job)
            },
            Taken::Closed => {
                self.workers.set(worker, WorkerState::Stopped);
                proof {
                    self.model = Ghost(before.take(worker as int));
                    assert(self.queue.pending() =~= self.model@.pending());
                    assert(self.workers@ =~= self.model@.states());
                }
                Dispatch::Exit
            },
            Taken::Empty => Dispatch::Wait,
        }
    }

    /// Worker `worker`, which is busy, reports that its job has ended, with
    /// a fault if `fault` is set. Either way the worker is idle again and
    /// nothing else changes; the fault is only recorded in the history.
    #[allow(unused_variables)]
    pub fn finish(&mut self, worker: usize, fault: bool)
        requires
            old(self).wf(),
            old(self)@.enabled(Event::Finish(worker as int, fault)),
        ensures
            final(self).wf(),
            final(self)@ == old(self)@.finish(worker as int, fault),
    {
        let ghost before = self.model@;
        self.workers.set(worker, WorkerState::Idle);
        proof {
            lemma_finish_inv(before, worker as int, fault);
            self.model = Ghost(before.finish(worker as int, fault));
            assert(self.workers@ =~= self.model@.states());
        }
    }

    /// Begins shutdown: from now on no job is accepted. What is queued stays
    /// queued, for the workers to finish. A second call changes nothing.
    pub fn shutdown(&mut self)
        requires
            old(self).wf(),
        ensures
            final(self).wf(),
            final(self)@ == old(self)@.shutdown(),
    {
        let ghost before = self.model@;
        self.queue.close();
        proof {
            lemma_shutdown_inv(before);
            self.model = Ghost(before.shutdown());
            assert(self.workers@ =~= self.model@.states());
        }
    }

    /// Records that the thread of worker `worker`, which has stopped, has
    /// been joined. Once this has been done for every worker the pool is
    /// `Stopped`.
    pub fn join(&mut self, worker: usize)
        requires
            old(self).wf(),
            old(self)@.enabled(Event::Join(worker as int)),
        ensures
            final(self).wf(),
            final(self)@ == old(self)@.join(worker as int),
    {
        let ghost before = self.model@;
        self.workers.set(worker, WorkerState::Joined);
        proof {
            lemma_join_inv(before, worker as int);
            self.model = Ghost(before.join(worker as int));
            assert(self.workers@ =~= self.model@.states());
        }
    }
}

} // verus!
