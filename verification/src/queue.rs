//! The admission queue: a bounded FIFO of pending scan jobs between
//! the request boundary and the dispatcher.
//!
//! A non-blocking offer fails fast with `QueueFull` at capacity; a
//! closed queue accepts nothing further but still drains the jobs it
//! holds, in strict FIFO order.

use vstd::prelude::*;
use crate::errors::EnqueueError;
use crate::store::ScanId;

verus! {

/// One pending scan job: consumed exactly once by the dispatcher.
#[derive(Debug)]
pub struct ScanJob {
    pub id: ScanId,
    pub target: String,
}

/// Bounded FIFO of pending jobs.
#[derive(Debug)]
pub struct AdmissionQueue {
    pub jobs: Vec<ScanJob>,
    pub capacity: usize,
    pub closed: bool,
}

impl AdmissionQueue {
    /// The queue never holds more than `capacity` jobs.
    pub open spec fn wf(self) -> bool {
        self.jobs@.len() <= self.capacity
    }

    /// An empty, open queue with the given capacity.
    pub fn new(capacity: usize) -> (q: AdmissionQueue)
        ensures
            q.wf(),
            q.jobs@.len() == 0,
            q.capacity == capacity,
            !q.closed,
    {
        AdmissionQueue { jobs: Vec::new(), capacity, closed: false }
    }

    /// Number of jobs waiting.
    pub fn len(&self) -> (n: usize)
        ensures
            n == self.jobs@.len(),
    {
        self.jobs.len()
    }

    /// Non-blocking offer: appends the job when the queue is open and
    /// below capacity, else fails fast without side effects.
    pub fn try_offer(&mut self, job: ScanJob) -> (r: Result<(), EnqueueError>)
        requires
            old(self).wf(),
        ensures
            final(self).wf(),
            final(self).capacity == old(self).capacity,
            final(self).closed == old(self).closed,
            old(self).closed ==> r == Err::<(), EnqueueError>(EnqueueError::QueueClosed)
                && final(self).jobs@ == old(self).jobs@,
            !old(self).closed && old(self).jobs@.len() == old(self).capacity ==> r == Err::<
                (),
                EnqueueError,
            >(EnqueueError::QueueFull) && final(self).jobs@ == old(self).jobs@,
            !old(self).closed && old(self).jobs@.len() < old(self).capacity ==> r == Ok::<
                (),
                EnqueueError,
            >(()) && final(self).jobs@ == old(self).jobs@.push(job),
    {
        if self.closed {
            Err(EnqueueError::QueueClosed)
        } else if self.jobs.len() == self.capacity {
            Err(EnqueueError::QueueFull)
        } else {
            self.jobs.push(job);
            Ok(())
        }
    }

    /// Take the oldest waiting job, if any; a closed queue still
    /// drains. Strict FIFO: always the front of the queue.
    pub fn poll_next(&mut self) -> (r: Option<ScanJob>)
        requires
            old(self).wf(),
        ensures
            final(self).wf(),
            final(self).capacity == old(self).capacity,
            final(self).closed == old(self).closed,
            old(self).jobs@.len() == 0 ==> r is None && final(self).jobs@ == old(self).jobs@,
            old(self).jobs@.len() > 0 ==> r == Some(old(self).jobs@[0]) && final(self).jobs@ == old(
                self,
            ).jobs@.drop_first(),
    {
        if self.jobs.len() == 0 {
            None
        } else {
            let job = self.jobs.remove(0);
            proof {
                assert(old(self).jobs@.remove(0) =~= old(self).jobs@.drop_first());
            }
            Some(job)
        }
    }

    /// Close the queue: no further admissions; waiting jobs drain.
    pub fn close(&mut self)
        requires
            old(self).wf(),
        ensures
            final(self).wf(),
            final(self).capacity == old(self).capacity,
            final(self).jobs@ == old(self).jobs@,
            final(self).closed,
    {
        self.closed = true;
    }
}

} // verus!
