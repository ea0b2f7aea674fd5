//! The worker pool model: a fixed number of workers pulling job tokens from a
//! shared [`JobQueue`](crate::queue::JobQueue), with exactly-once dispatch and
//! a teardown that finishes only when every submitted job has run.
//!
//! The pool is a step machine. A runtime drives it: each OS worker thread of
//! the runtime mirrors one worker slot here, calling `worker_step` when it
//! asks the queue for work, and `worker_finish` (or `recover_panicked`, when
//! the job panicked and was caught at the job boundary) when the job it was
//! handed has run. `shutdown` plays the whole teardown schedule out and is
//! what `drop`ping a real pool performs: close the queue, then drive every
//! worker to `Terminated`, which blocks the caller until all in-flight and
//! queued jobs are done.
//!
//! Jobs are opaque tokens (`u64`); the pool never looks inside a job, it only
//! moves tokens. Three logs record the pool's history: `submitted` (what
//! `submit` accepted, in order), `dispatched` (what workers were handed, in
//! order), and `executed` (what finished, in completion order).

use crate::queue::{JobQueue, PoolError, RecvOutcome};
use vstd::multiset::Multiset;
use vstd::prelude::*;
use vstd::seq_lib::group_to_multiset_ensures;

verus! {

broadcast use group_to_multiset_ensures, vstd::multiset::group_multiset_axioms;

/// The lifecycle of one worker slot.
#[derive(Clone, Copy, Debug, PartialEq, Eq, Structural)]
pub enum WorkerState {
    /// Blocked on the queue, ready to take a job.
    Waiting,
    /// Running the job with this token.
    Executing(u64),
    /// Saw the queue disconnect; the worker's thread has returned.
    Terminated,
}

/// What one scheduling step did for a waiting worker.
#[derive(Clone, Copy, Debug, PartialEq, Eq, Structural)]
pub enum WorkerEvent {
    /// The worker took this job token and is now executing it.
    Started(u64),
    /// Nothing to do yet; the worker keeps waiting.
    Idle,
    /// The queue is closed and drained; the worker terminated.
    Stopped,
}

/// The jobs a single worker holds: one for `Executing`, none otherwise.
pub open spec fn worker_jobs(w: WorkerState) -> Multiset<u64> {
    match w {
        WorkerState::Executing(j) => Multiset::empty().insert(j),
        _ => Multiset::empty(),
    }
}

/// The same, as a sequence, for the single-worker ordering invariant.
pub open spec fn worker_jobs_seq(w: WorkerState) -> Seq<u64> {
    match w {
        WorkerState::Executing(j) => seq![j],
        _ => Seq::empty(),
    }
}

/// Every job currently held by some worker.
pub open spec fn inflight(ws: Seq<WorkerState>) -> Multiset<u64>
    decreases ws.len(),
{
    if ws.len() == 0 {
        Multiset::empty()
    } else {
        worker_jobs(ws[0]).add(inflight(ws.drop_first()))
    }
}

/// Updating one worker slot exchanges that slot's contribution to the
/// in-flight multiset and touches nothing else.
proof fn lemma_inflight_update(ws: Seq<WorkerState>, i: int, w: WorkerState)
    requires
        0 <= i < ws.len(),
    ensures
        inflight(ws.update(i, w)).add(worker_jobs(ws[i])) =~= inflight(ws).add(worker_jobs(w)),
    decreases ws.len(),
{
    let upd = ws.update(i, w);
    assert(upd.len() == ws.len());
    assert(inflight(upd) == worker_jobs(upd[0]).add(inflight(upd.drop_first())));
    assert(inflight(ws) == worker_jobs(ws[0]).add(inflight(ws.drop_first())));
    if i == 0 {
        assert(upd.drop_first() =~= ws.drop_first());
        assert(upd[0] == w);
    } else {
        lemma_inflight_update(ws.drop_first(), i - 1, w);
        assert(upd.drop_first() =~= ws.drop_first().update(i - 1, w));
        assert(upd[0] == ws[0]);
        assert(ws.drop_first()[i - 1] == ws[i]);
        let rest = ws.drop_first();
        assert forall|v: u64|
            inflight(upd).add(worker_jobs(ws[i])).count(v) == inflight(ws).add(
                worker_jobs(w),
            ).count(v) by {
            assert(inflight(rest.update(i - 1, w)).add(worker_jobs(ws[i])).count(v) == inflight(
                rest,
            ).add(worker_jobs(w)).count(v));
        }
    }
}

/// A waiting worker that takes job `j` adds exactly `j` to the in-flight jobs.
proof fn lemma_inflight_take(ws: Seq<WorkerState>, i: int, j: u64)
    requires
        0 <= i < ws.len(),
        ws[i] is Waiting,
    ensures
        inflight(ws.update(i, WorkerState::Executing(j))) =~= inflight(ws).insert(j),
{
    lemma_inflight_update(ws, i, WorkerState::Executing(j));
    let upd = ws.update(i, WorkerState::Executing(j));
    assert forall|v: u64| inflight(upd).count(v) == inflight(ws).insert(j).count(v) by {
        assert(inflight(upd).add(worker_jobs(ws[i])).count(v) == inflight(ws).add(
            worker_jobs(WorkerState::Executing(j)),
        ).count(v));
    }
}

/// A worker that finishes its job removes exactly that job from the
/// in-flight jobs.
proof fn lemma_inflight_put_back(ws: Seq<WorkerState>, i: int)
    requires
        0 <= i < ws.len(),
        ws[i] is Executing,
    ensures
        inflight(ws) =~= inflight(ws.update(i, WorkerState::Waiting)).insert(
            ws[i]->Executing_0,
        ),
{
    lemma_inflight_update(ws, i, WorkerState::Waiting);
    let upd = ws.update(i, WorkerState::Waiting);
    let j = ws[i]->Executing_0;
    assert forall|v: u64| inflight(ws).count(v) == inflight(upd).insert(j).count(v) by {
        assert(inflight(upd).add(worker_jobs(ws[i])).count(v) == inflight(ws).add(
            worker_jobs(WorkerState::Waiting),
        ).count(v));
    }
}

/// A waiting worker that terminates leaves the in-flight jobs unchanged.
proof fn lemma_inflight_retire(ws: Seq<WorkerState>, i: int)
    requires
        0 <= i < ws.len(),
        ws[i] is Waiting,
    ensures
        inflight(ws.update(i, WorkerState::Terminated)) =~= inflight(ws),
{
    lemma_inflight_update(ws, i, WorkerState::Terminated);
    let upd = ws.update(i, WorkerState::Terminated);
    assert forall|v: u64| inflight(upd).count(v) == inflight(ws).count(v) by {
        assert(inflight(upd).add(worker_jobs(ws[i])).count(v) == inflight(ws).add(
            worker_jobs(WorkerState::Terminated),
        ).count(v));
    }
}

/// When no worker is executing, nothing is in flight.
proof fn lemma_inflight_empty(ws: Seq<WorkerState>)
    requires
        forall|i: int| 0 <= i < ws.len() ==> !(#[trigger] ws[i] is Executing),
    ensures
        inflight(ws) =~= Multiset::<u64>::empty(),
    decreases ws.len(),
{
    if ws.len() > 0 {
        assert(forall|i: int|
            0 <= i < ws.drop_first().len() ==> #[trigger] ws.drop_first()[i] == ws[i + 1]);
        lemma_inflight_empty(ws.drop_first());
        assert(!(ws[0] is Executing));
    }
}

/// The fixed-size worker pool.
pub struct WorkerPool {
    queue: JobQueue,
    workers: Vec<WorkerState>,
    submitted: Vec<u64>,
    dispatched: Vec<u64>,
    executed: Vec<u64>,
}

impl WorkerPool {
    /// The state of each worker slot.
    pub closed spec fn workers(&self) -> Seq<WorkerState> {
        self.workers@
    }

    /// Every token `submit` accepted, in submission order.
    pub closed spec fn submitted(&self) -> Seq<u64> {
        self.submitted@
    }

    /// Every token handed to a worker, in hand-off order.
    pub closed spec fn dispatched(&self) -> Seq<u64> {
        self.dispatched@
    }

    /// Every token whose job has run, in completion order.
    pub closed spec fn executed(&self) -> Seq<u64> {
        self.executed@
    }

    /// The tokens still queued, oldest first.
    pub closed spec fn pending(&self) -> Seq<u64> {
        self.queue.contents()
    }

    /// Whether `submit` can still succeed (teardown has not begun).
    pub closed spec fn is_accepting(&self) -> bool {
        self.queue.is_open()
    }

    pub open spec fn all_terminated(&self) -> bool {
        forall|i: int| 0 <= i < self.workers().len() ==> #[trigger] self.workers()[i] is Terminated
    }

    /// The pool's invariant: dispatch order is submission order, and every
    /// dispatched job is either executed once or held by exactly one worker.
    pub open spec fn wf(&self) -> bool {
        &&& self.workers().len() >= 1
        &&& self.submitted() == self.dispatched() + self.pending()
        &&& self.dispatched().to_multiset() == self.executed().to_multiset().add(
            inflight(self.workers()),
        )
        &&& forall|i: int|
            0 <= i < self.workers().len() && #[trigger] self.workers()[i] is Terminated
                ==> !self.is_accepting()
        &&& (self.all_terminated() ==> self.pending().len() == 0)
        &&& (self.workers().len() == 1 ==> self.dispatched() == self.executed()
            + worker_jobs_seq(self.workers()[0]))
    }

    /// Creates a pool with exactly `size` workers, all waiting. A size of
    /// zero is rejected loudly: a pool that could never run a job.
    pub fn new(size: usize) -> (r: Result<WorkerPool, PoolError>)
        ensures
            size == 0 ==> r == Err::<WorkerPool, PoolError>(PoolError::ZeroSize),
            size >= 1 ==> r is Ok && {
                let p = r->Ok_0;
                &&& p.wf()
                &&& p.workers().len() == size
                &&& forall|i: int| 0 <= i < size ==> #[trigger] p.workers()[i] is Waiting
                &&& p.submitted() == Seq::<u64>::empty()
                &&& p.dispatched() == Seq::<u64>::empty()
                &&& p.executed() == Seq::<u64>::empty()
                &&& p.pending() == Seq::<u64>::empty()
                &&& p.is_accepting()
            },
    {
        if size == 0 {
            return Err(PoolError::ZeroSize);
        }
        let mut workers: Vec<WorkerState> = Vec::new();
        let mut k: usize = 0;
        while k < size
            invariant
                k <= size,
                workers@.len() == k,
                forall|i: int| 0 <= i < k ==> #[trigger] workers@[i] is Waiting,
            decreases size - k,
        {
            workers.push(WorkerState::Waiting);
            k = k + 1;
        }
        let pool = WorkerPool {
            queue: JobQueue::new(),
            workers,
            submitted: Vec::new(),
            dispatched: Vec::new(),
            executed: Vec::new(),
        };
        proof {
            assert(inflight(pool.workers()) =~= Multiset::<u64>::empty()) by {
                lemma_inflight_empty(pool.workers());
            }
            assert(pool.submitted() =~= pool.dispatched() + pool.pending());
            assert(pool.dispatched().to_multiset() =~= pool.executed().to_multiset().add(
                inflight(pool.workers()),
            ));
            if pool.workers().len() == 1 {
                assert(pool.dispatched() =~= pool.executed() + worker_jobs_seq(
                    pool.workers()[0],
                ));
            }
        }
        Ok(pool)
    }

    /// Hands a job to the pool. Fire and forget: the job will run exactly
    /// once unless the pool is torn down first; which worker runs it, and
    /// when, is not promised. Submission after teardown has begun is the
    /// caller's error and reports `ChannelClosed`.
    pub fn submit(&mut self, job: u64) -> (r: Result<(), PoolError>)
        requires
            old(self).wf(),
        ensures
            final(self).wf(),
            final(self).workers() == old(self).workers(),
            final(self).executed() == old(self).executed(),
            final(self).dispatched() == old(self).dispatched(),
            final(self).is_accepting() == old(self).is_accepting(),
            old(self).is_accepting() ==> r is Ok,
            old(self).is_accepting() ==> final(self).submitted() == old(self).submitted().push(
                job,
            ),
            old(self).is_accepting() ==> final(self).pending() == old(self).pending().push(job),
            !old(self).is_accepting() ==> r == Err::<(), PoolError>(PoolError::ChannelClosed),
            !old(self).is_accepting() ==> final(self).submitted() == old(self).submitted(),
            !old(self).is_accepting() ==> final(self).pending() == old(self).pending(),
    {
        let r = self.queue.send(job);
        if r.is_ok() {
            self.submitted.push(job);
            proof {
                assert(self.submitted() =~= self.dispatched() + self.pending());
            }
        }
        r
    }

    /// One scheduling step for a waiting worker: take the front job if there
    /// is one, terminate if the queue is closed and drained, otherwise keep
    /// waiting. Exactly-once delivery: the taken token leaves the queue.
    pub fn worker_step(&mut self, k: usize) -> (r: WorkerEvent)
        requires
            old(self).wf(),
            k < old(self).workers().len(),
            old(self).workers()[k as int] is Waiting,
        ensures
            final(self).wf(),
            final(self).workers().len() == old(self).workers().len(),
            final(self).submitted() == old(self).submitted(),
            final(self).executed() == old(self).executed(),
            final(self).is_accepting() == old(self).is_accepting(),
            old(self).pending().len() > 0 ==> {
                let job = old(self).pending()[0];
                &&& r == WorkerEvent::Started(job)
                &&& final(self).workers() == old(self).workers().update(
                    k as int,
                    WorkerState::Executing(job),
                )
                &&& final(self).pending() == old(self).pending().drop_first()
                &&& final(self).dispatched() == old(self).dispatched().push(job)
            },
            old(self).pending().len() == 0 ==> final(self).pending() == old(self).pending()
                && final(self).dispatched() == old(self).dispatched(),
            old(self).pending().len() == 0 && old(self).is_accepting() ==> r == WorkerEvent::Idle
                && final(self).workers() == old(self).workers(),
            old(self).pending().len() == 0 && !old(self).is_accepting() ==> r
                == WorkerEvent::Stopped && final(self).workers() == old(self).workers().update(
                k as int,
                WorkerState::Terminated,
            ),
    {
        let outcome = self.queue.recv();
        match outcome {
            RecvOutcome::Job(job) => {
                proof {
                    lemma_inflight_take(self.workers(), k as int, job);
                }
                self.workers.set(k, WorkerState::Executing(job));
                self.dispatched.push(job);
                proof {
                    assert(!self.all_terminated()) by {
                        assert(!(self.workers()[k as int] is Terminated));
                    }
                    assert(self.submitted() =~= self.dispatched() + self.pending());
                    assert(inflight(self.workers()) =~= inflight(old(self).workers()).insert(
                        job,
                    ));
                    assert(self.dispatched().to_multiset() =~= self.executed().to_multiset().add(
                        inflight(self.workers()),
                    ));
                    if self.workers().len() == 1 {
                        assert(self.dispatched() =~= self.executed() + worker_jobs_seq(
                            self.workers()[0],
                        ));
                    }
                }
                WorkerEvent::Started(job)
            }
            RecvOutcome::Pending => WorkerEvent::Idle,
            RecvOutcome::Disconnected => {
                proof {
                    lemma_inflight_retire(self.workers(), k as int);
                }
                self.workers.set(k, WorkerState::Terminated);
                proof {
                    assert(inflight(self.workers()) =~= inflight(old(self).workers()));
                    assert(self.dispatched().to_multiset() =~= self.executed().to_multiset().add(
                        inflight(self.workers()),
                    ));
                    if self.workers().len() == 1 {
                        assert(self.dispatched() =~= self.executed() + worker_jobs_seq(
                            self.workers()[0],
                        ));
                    }
                }
                WorkerEvent::Stopped
            }
        }
    }

    /// The job held by worker `k` has run to completion: the worker goes
    /// back to waiting and the token joins the execution log.
    pub fn worker_finish(&mut self, k: usize)
        requires
            old(self).wf(),
            k < old(self).workers().len(),
            old(self).workers()[k as int] is Executing,
        ensures
            final(self).wf(),
            final(self).workers() == old(self).workers().update(k as int, WorkerState::Waiting),
            final(self).submitted() == old(self).submitted(),
            final(self).pending() == old(self).pending(),
            final(self).dispatched() == old(self).dispatched(),
            final(self).is_accepting() == old(self).is_accepting(),
            final(self).executed() == old(self).executed().push(
                old(self).workers()[k as int]->Executing_0,
            ),
    {
        self.finish_slot(k);
    }

    /// The job held by worker `k` panicked and the panic was caught at the
    /// job boundary. Policy: the worker is kept, not replaced — it returns
    /// to waiting with the pool's capacity intact, the panicked job counts
    /// as executed (it ran once), and the submission side is untouched, so
    /// later `submit` calls still succeed while the pool is accepting.
    pub fn recover_panicked(&mut self, k: usize)
        requires
            old(self).wf(),
            k < old(self).workers().len(),
            old(self).workers()[k as int] is Executing,
        ensures
            final(self).wf(),
            final(self).workers() == old(self).workers().update(k as int, WorkerState::Waiting),
            final(self).submitted() == old(self).submitted(),
            final(self).pending() == old(self).pending(),
            final(self).dispatched() == old(self).dispatched(),
            final(self).is_accepting() == old(self).is_accepting(),
            final(self).executed() == old(self).executed().push(
                old(self).workers()[k as int]->Executing_0,
            ),
    {
        self.finish_slot(k);
    }

    fn finish_slot(&mut self, k: usize)
        requires
            old(self).wf(),
            k < old(self).workers().len(),
            old(self).workers()[k as int] is Executing,
        ensures
            final(self).wf(),
            final(self).workers() == old(self).workers().update(k as int, WorkerState::Waiting),
            final(self).submitted() == old(self).submitted(),
            final(self).pending() == old(self).pending(),
            final(self).dispatched() == old(self).dispatched(),
            final(self).is_accepting() == old(self).is_accepting(),
            final(self).executed() == old(self).executed().push(
                old(self).workers()[k as int]->Executing_0,
            ),
    {
        let w = self.workers[k];
        match w {
            WorkerState::Executing(job) => {
                proof {
                    lemma_inflight_put_back(self.workers(), k as int);
                }
                self.workers.set(k, WorkerState::Waiting);
                self.executed.push(job);
                proof {
                    assert(!self.all_terminated()) by {
                        assert(!(self.workers()[k as int] is Terminated));
                    }
                    assert(inflight(old(self).workers()) =~= inflight(self.workers()).insert(
                        job,
                    ));
                    assert(self.dispatched().to_multiset() =~= self.executed().to_multiset().add(
                        inflight(self.workers()),
                    ));
                    if self.workers().len() == 1 {
                        assert(self.dispatched() =~= self.executed() + worker_jobs_seq(
                            self.workers()[0],
                        ));
                    }
                }
            }
            _ => {
                proof {
                    assert(false);
                }
            }
        }
    }

    /// Graceful teardown, what dropping the pool performs: close the queue so
    /// no further submission succeeds, then drive every worker until it has
    /// finished its jobs and terminated. The caller is blocked for as long
    /// as in-flight jobs run: when this returns, every submitted job has
    /// executed exactly once, and with a single worker the execution order
    /// is exactly the submission order.
    pub fn shutdown(&mut self)
        requires
            old(self).wf(),
        ensures
            final(self).wf(),
            final(self).workers().len() == old(self).workers().len(),
            final(self).all_terminated(),
            !final(self).is_accepting(),
            final(self).submitted() == old(self).submitted(),
            final(self).executed().to_multiset() == final(self).submitted().to_multiset(),
            old(self).workers().len() == 1 ==> final(self).executed() == old(self).submitted(),
    {
        self.queue.close();
        proof {
            assert(self.wf());
        }
        let n = self.workers.len();
        let mut k: usize = 0;
        while k < n
            invariant
                self.wf(),
                !self.is_accepting(),
                n == self.workers().len(),
                k <= n,
                self.submitted() == old(self).submitted(),
                forall|i: int| 0 <= i < k ==> #[trigger] self.workers()[i] is Terminated,
            decreases n - k,
        {
            loop
                invariant
                    self.wf(),
                    !self.is_accepting(),
                    n == self.workers().len(),
                    k < n,
                    self.submitted() == old(self).submitted(),
                    forall|i: int| 0 <= i < k ==> #[trigger] self.workers()[i] is Terminated,
                ensures
                    self.wf(),
                    !self.is_accepting(),
                    n == self.workers().len(),
                    self.submitted() == old(self).submitted(),
                    forall|i: int| 0 <= i < k ==> #[trigger] self.workers()[i] is Terminated,
                    self.workers()[k as int] is Terminated,
                decreases 2 * self.pending().len() + (if self.workers()[k as int] is Executing {
                    2int
                } else {
                    0int
                }) + (if self.workers()[k as int] is Waiting {
                    1int
                } else {
                    0int
                }),
            {
                let w = self.workers[k];
                match w {
                    WorkerState::Terminated => {
                        break;
                    }
                    WorkerState::Executing(_) => {
                        self.worker_finish(k);
                    }
                    WorkerState::Waiting => {
                        let _ev = self.worker_step(k);
                    }
                }
            }
            k = k + 1;
        }
        proof {
            lemma_inflight_empty(self.workers());
            assert(self.dispatched().to_multiset() =~= self.executed().to_multiset());
            assert(self.submitted() =~= self.dispatched());
            assert(self.executed().to_multiset() =~= self.submitted().to_multiset());
            if self.workers().len() == 1 {
                assert(self.executed() =~= self.submitted());
            }
        }
    }

    /// The fixed number of worker slots.
    pub fn size(&self) -> (r: usize)
        ensures
            r == self.workers().len(),
    {
        self.workers.len()
    }

    pub fn worker_state(&self, k: usize) -> (r: WorkerState)
        requires
            k < self.workers().len(),
        ensures
            r == self.workers()[k as int],
    {
        self.workers[k]
    }

    pub fn accepting(&self) -> (r: bool)
        ensures
            r == self.is_accepting(),
    {
        self.queue.open()
    }

    pub fn pending_len(&self) -> (r: usize)
        ensures
            r == self.pending().len(),
    {
        self.queue.len()
    }

    pub fn submitted_jobs(&self) -> (r: &Vec<u64>)
        ensures
            r@ == self.submitted(),
    {
        &self.submitted
    }

    pub fn executed_jobs(&self) -> (r: &Vec<u64>)
        ensures
            r@ == self.executed(),
    {
        &self.executed
    }
}

/// Teardown is exactly-once execution: in any well-formed pool whose workers
/// have all terminated, the execution log is a permutation of the submission
/// log — no submitted job was lost, none ran twice.
pub proof fn lemma_terminated_pool_ran_everything_once(p: &WorkerPool)
    requires
        p.wf(),
        p.all_terminated(),
    ensures
        p.executed().to_multiset() == p.submitted().to_multiset(),
{
    lemma_inflight_empty(p.workers());
    assert(p.dispatched().to_multiset() =~= p.executed().to_multiset());
    assert(p.submitted() =~= p.dispatched());
}

/// With a single worker the pool is a FIFO: once the worker has terminated,
/// the execution log equals the submission log, order included.
pub proof fn lemma_single_worker_fifo(p: &WorkerPool)
    requires
        p.wf(),
        p.workers().len() == 1,
        p.all_terminated(),
    ensures
        p.executed() == p.submitted(),
{
    assert(p.executed() =~= p.submitted());
}

} // verus!
