//! The job queue: an ordered, multi-producer hand-off channel between
//! submitters and workers.
//!
//! Jobs are carried as opaque tokens (`u64`); the runtime that drives a pool
//! maps each token to the actual unit of work. The queue delivers tokens in
//! FIFO order, and once every sending endpoint is gone (`close`), an empty
//! queue reports `Disconnected`, which is the workers' shutdown signal rather
//! than an error.

use vstd::prelude::*;

verus! {

/// Errors surfaced by the queue and the pool built on top of it.
#[derive(Clone, Copy, Debug, PartialEq, Eq, Structural)]
pub enum PoolError {
    /// A pool was asked for with zero workers.
    ZeroSize,
    /// A send was attempted after every sending endpoint was dropped.
    ChannelClosed,
}

/// What a worker sees when it asks the queue for work.
#[derive(Clone, Copy, Debug, PartialEq, Eq, Structural)]
pub enum RecvOutcome {
    /// The next job token, delivered to this receiver alone.
    Job(u64),
    /// Nothing queued yet, but senders remain: the worker keeps waiting.
    Pending,
    /// The queue is closed and drained: the shutdown signal.
    Disconnected,
}

/// The ordered channel of job tokens.
pub struct JobQueue {
    jobs: Vec<u64>,
    open: bool,
}

impl JobQueue {
    /// The tokens waiting in the queue, oldest first.
    pub closed spec fn contents(&self) -> Seq<u64> {
        self.jobs@
    }

    /// Whether a sending endpoint still exists.
    pub closed spec fn is_open(&self) -> bool {
        self.open
    }

    pub fn new() -> (q: JobQueue)
        ensures
            q.contents() == Seq::<u64>::empty(),
            q.is_open(),
    {
        JobQueue { jobs: Vec::new(), open: true }
    }

    /// Enqueues a job token; fails with `ChannelClosed` once the queue is
    /// closed, and leaves the queue unchanged in that case.
    pub fn send(&mut self, job: u64) -> (r: Result<(), PoolError>)
        ensures
            old(self).is_open() ==> r is Ok,
            old(self).is_open() ==> final(self).contents() == old(self).contents().push(job),
            !old(self).is_open() ==> r == Err::<(), PoolError>(PoolError::ChannelClosed),
            !old(self).is_open() ==> final(self).contents() == old(self).contents(),
            final(self).is_open() == old(self).is_open(),
    {
        if self.open {
            self.jobs.push(job);
            Ok(())
        } else {
            Err(PoolError::ChannelClosed)
        }
    }

    /// One receive attempt. The front token is removed and handed over
    /// exclusively; an empty open queue reports `Pending` (a blocking runtime
    /// would park the worker and try again); an empty closed queue reports
    /// `Disconnected`.
    pub fn recv(&mut self) -> (r: RecvOutcome)
        ensures
            old(self).contents().len() > 0 ==> r == RecvOutcome::Job(old(self).contents()[0])
                && final(self).contents() == old(self).contents().drop_first(),
            old(self).contents().len() == 0 ==> final(self).contents() == old(self).contents(),
            old(self).contents().len() == 0 && old(self).is_open() ==> r == RecvOutcome::Pending,
            old(self).contents().len() == 0 && !old(self).is_open() ==> r
                == RecvOutcome::Disconnected,
            final(self).is_open() == old(self).is_open(),
    {
        if self.jobs.len() > 0 {
            let job = self.jobs.remove(0);
            assert(self.jobs@ =~= old(self).jobs@.drop_first());
            RecvOutcome::Job(job)
        } else if self.open {
            RecvOutcome::Pending
        } else {
            RecvOutcome::Disconnected
        }
    }

    /// Drops the last sending endpoint: no further `send` succeeds, and the
    /// queue drains toward `Disconnected`.
    pub fn close(&mut self)
        ensures
            final(self).contents() == old(self).contents(),
            !final(self).is_open(),
    {
        self.open = false;
    }

    pub fn len(&self) -> (r: usize)
        ensures
            r == self.contents().len(),
    {
        self.jobs.len()
    }

    pub fn open(&self) -> (r: bool)
        ensures
            r == self.is_open(),
    {
        self.open
    }
}

} // verus!
