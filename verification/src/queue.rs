use crate::error::PoolError;
use std::collections::VecDeque;
use vstd::prelude::*;

verus! {

/// What a worker gets when it asks the queue for work.
#[derive(Debug, PartialEq, Eq)]
pub enum Taken<J> {
    /// The job at the head of the queue, now removed from it.
    Job(J),
    /// Nothing is queued, but more may come: the worker has to wait.
    Empty,
    /// Nothing is queued and nothing will come: the queue is closed and drained.
    Closed,
}

/// An unbounded first-in first-out queue of jobs that can be closed.
///
/// Closing stops further submissions; what is queued at that moment can
/// still be taken.
pub struct JobQueue<J> {
    items: VecDeque<J>,
    closed: bool,
}

impl<J> JobQueue<J> {
    /// The jobs that wait in the queue, oldest first.
    pub closed spec fn pending(&self) -> Seq<J> {
        self.items@
    }

    /// Whether the queue has been closed.
    pub closed spec fn closed(&self) -> bool {
        self.closed
    }

    /// An open queue that holds nothing.
    pub fn new() -> (q: Self)
        ensures
            q.pending() == Seq::<J>::empty(),
            !q.closed(),
    {
        JobQueue { items: VecDeque::new(), closed: false }
    }

    /// Appends `job` behind everything queued so far, unless the queue is
    /// closed: then the job is refused with `PoolClosed` and the queue stays
    /// as it was.
    pub fn submit(&mut self, job: J) -> (r: Result<(), PoolError>)
        ensures
            final(self).closed() == old(self).closed(),
            !old(self).closed() ==> {
                &&& r == Ok::<(), PoolError>(())
                &&& final(self).pending() == old(self).pending().push(job)
            },
            old(self).closed() ==> {
                &&& r == Err::<(), PoolError>(PoolError::PoolClosed)
                &&& final(self).pending() == old(self).pending()
            },
    {
        if self.closed {
            Err(PoolError::PoolClosed)
        } else {
            self.items.push_back(job);
            Ok(())
        }
    }

    /// Removes and returns the oldest job. With nothing queued it reports
    /// `Closed` on a closed queue and `Empty` on an open one, and changes
    /// nothing.
    pub fn take(&mut self) -> (t: Taken<J>)
        ensures
            final(self).closed() == old(self).closed(),
            old(self).pending().len() > 0 ==> {
                &&& t == Taken::Job(old(self).pending()[0])
                &&& final(self).pending() == old(self).pending().drop_first()
            },
            old(self).pending().len() == 0 ==> final(self).pending() == old(self).pending(),
            old(self).pending().len() == 0 && old(self).closed() ==> t == Taken::<J>::Closed,
            old(self).pending().len() == 0 && !old(self).closed() ==> t == Taken::<J>::Empty,
    {
        match self.items.pop_front() {
            Some(job) => {
                Taken::Job(job)
            },
            None => {
                if self.closed {
                    Taken::Closed
                } else {
                    Taken::Empty
                }
            },
        }
    }

    /// Closes the queue. What is queued stays queued. Closing twice is the
    /// same as closing once.
    pub fn close(&mut self)
        ensures
            final(self).closed(),
            final(self).pending() == old(self).pending(),
    {
        self.closed = true;
    }

    /// The number of jobs that wait in the queue.
    pub fn len(&self) -> (n: usize)
        ensures
            n == self.pending().len(),
    {
        self.items.len()
    }

    /// Whether no job waits in the queue.
    pub fn is_empty(&self) -> (b: bool)
        ensures
            b == (self.pending().len() == 0),
    {
        self.items.len() == 0
    }

    /// Whether the queue has been closed.
    pub fn is_closed(&self) -> (b: bool)
        ensures
            b == self.closed(),
    {
        self.closed
    }
}

} // verus!
