use vstd::prelude::*;
use std::collections::VecDeque;
use crate::walker::{Job, JobView};

verus! {

/// Where a worker stands.
#[derive(Debug, Clone, Copy, PartialEq, Eq)]
pub enum WorkerState {
    /// It waits for a job.
    Idle,
    /// It transfers a job.
    Busy,
    /// It has left its loop.
    Exited,
}

/// What a worker does next.
#[derive(Debug, Clone, PartialEq, Eq)]
pub enum WorkerStep {
    /// Transfer this job, then ask again.
    Transfer(Job),
    /// No job is there yet: wait until the queue changes, then ask again.
    Wait,
    /// The queue is closed and empty: leave the loop.
    Exit,
}

/// The mathematical value of a [`WorkerStep`].
pub enum WorkerStepView {
    Transfer(JobView),
    Wait,
    Exit,
}

impl View for WorkerStep {
    type V = WorkerStepView;

    open spec fn view(&self) -> WorkerStepView {
        match *self {
            WorkerStep::Transfer(job) => WorkerStepView::Transfer(job@),
            WorkerStep::Wait => WorkerStepView::Wait,
            WorkerStep::Exit => WorkerStepView::Exit,
        }
    }
}

/// The number of workers in `workers` that have not left their loop.
pub open spec fn live_count(workers: Seq<WorkerState>) -> nat
    decreases workers.len(),
{
    if workers.len() == 0 {
        0
    } else {
        live_count(workers.drop_last()) + if workers.last() == WorkerState::Exited {
            0nat
        } else {
            1nat
        }
    }
}

/// The number of workers in `workers` that transfer a job.
pub open spec fn busy_count(workers: Seq<WorkerState>) -> nat
    decreases workers.len(),
{
    if workers.len() == 0 {
        0
    } else {
        busy_count(workers.drop_last()) + if workers.last() == WorkerState::Busy {
            1nat
        } else {
            0nat
        }
    }
}

/// The mathematical state of a pool: the jobs that wait, first in first out,
/// whether the producer has closed the queue, and where each worker stands.
pub struct PoolView {
    pub queue: Seq<JobView>,
    pub closed: bool,
    pub workers: Seq<WorkerState>,
}

impl PoolView {
    /// A pool of `worker_count` idle workers around an open, empty queue.
    pub open spec fn initial(worker_count: nat) -> PoolView {
        PoolView {
            queue: Seq::empty(),
            closed: false,
            workers: Seq::new(worker_count, |i: int| WorkerState::Idle),
        }
    }

    /// Adds `job` behind the jobs that wait; a closed queue takes none.
    pub open spec fn submit(self, job: JobView) -> (PoolView, bool) {
        if self.closed {
            (self, false)
        } else {
            (PoolView { queue: self.queue.push(job), ..self }, true)
        }
    }

    /// Closes the queue: the jobs that wait stay, no more are taken.
    pub open spec fn close(self) -> PoolView {
        PoolView { closed: true, ..self }
    }

    /// Whether `worker` is a worker of the pool that has not left its loop.
    pub open spec fn is_live(self, worker: int) -> bool {
        0 <= worker < self.workers.len() && self.workers[worker] != WorkerState::Exited
    }

    /// The worker `worker` is done with what it had and asks for a job. It
    /// gets the job that waited longest; without one it waits while the queue
    /// is open and leaves once it is closed. A worker that has left, or that
    /// the pool does not have, is told to leave and changes nothing.
    pub open spec fn poll(self, worker: int) -> (PoolView, WorkerStepView) {
        if !self.is_live(worker) {
            (self, WorkerStepView::Exit)
        } else if self.queue.len() > 0 {
            (
                PoolView {
                    queue: self.queue.drop_first(),
                    workers: self.workers.update(worker, WorkerState::Busy),
                    ..self
                },
                WorkerStepView::Transfer(self.queue.first()),
            )
        } else if self.closed {
            (
                PoolView { workers: self.workers.update(worker, WorkerState::Exited), ..self },
                WorkerStepView::Exit,
            )
        } else {
            (
                PoolView { workers: self.workers.update(worker, WorkerState::Idle), ..self },
                WorkerStepView::Wait,
            )
        }
    }

    /// The pool after the workers `workers` have polled, one after the other.
    pub open spec fn after_polls(self, workers: Seq<int>) -> PoolView
        decreases workers.len(),
    {
        if workers.len() == 0 {
            self
        } else {
            self.after_polls(workers.drop_last()).poll(workers.last()).0
        }
    }

    /// The jobs that those polls have handed out, in order.
    pub open spec fn handed_out(self, workers: Seq<int>) -> Seq<JobView>
        decreases workers.len(),
    {
        if workers.len() == 0 {
            Seq::empty()
        } else {
            self.handed_out(workers.drop_last()) + match self.after_polls(
                workers.drop_last(),
            ).poll(workers.last()).1 {
                WorkerStepView::Transfer(job) => seq![job],
                _ => Seq::empty(),
            }
        }
    }

    /// Whether each of those polls is made by a worker that has not left.
    pub open spec fn all_live(self, workers: Seq<int>) -> bool
        decreases workers.len(),
    {
        workers.len() == 0 || (self.all_live(workers.drop_last()) && self.after_polls(
            workers.drop_last(),
        ).is_live(workers.last()))
    }

    /// What holds of every pool that started with idle workers: a worker
    /// has left only if the queue is closed and empty.
    pub open spec fn sound(self) -> bool {
        (exists|i: int|
            0 <= i < self.workers.len() && #[trigger] self.workers[i] == WorkerState::Exited)
            ==> self.closed && self.queue.len() == 0
    }

    /// What is left to do before the pool has drained: the jobs that wait
    /// and the workers that have not left.
    pub open spec fn remaining(self) -> nat {
        self.queue.len() + live_count(self.workers)
    }

    /// The pool has drained: the queue is closed and empty and every worker
    /// has left its loop.
    pub open spec fn drained(self) -> bool {
        &&& self.closed
        &&& self.queue.len() == 0
        &&& forall|i: int| 0 <= i < self.workers.len() ==> self.workers[i] == WorkerState::Exited
    }
}

/// The job queue and the workers around it.
///
/// One producer submits jobs and closes the queue; each worker polls for its
/// next step. Every job goes to exactly one worker, in the order of submission.
pub struct Pool {
    queue: VecDeque<Job>,
    closed: bool,
    workers: Vec<WorkerState>,
}

impl View for Pool {
    type V = PoolView;

    closed spec fn view(&self) -> PoolView {
        PoolView {
            queue: self.queue@.map_values(|j: Job| j@),
            closed: self.closed,
            workers: self.workers@,
        }
    }
}

impl Pool {
    /// A pool of `worker_count` idle workers around an open, empty queue.
    pub fn new(worker_count: usize) -> (pool: Pool)
        ensures
            pool@ == PoolView::initial(worker_count as nat),
    {
        let mut workers: Vec<WorkerState> = Vec::new();
        while workers.len() < worker_count
            invariant
                workers@.len() <= worker_count,
                forall|i: int| 0 <= i < workers@.len() ==> workers@[i] == WorkerState::Idle,
            decreases worker_count - workers.len(),
        {
            workers.push(WorkerState::Idle);
        }
        let pool = Pool { queue: VecDeque::new(), closed: false, workers };
        proof {
            assert(pool@.queue =~= Seq::empty());
            assert(pool@.workers =~= PoolView::initial(worker_count as nat).workers);
        }
        pool
    }

    /// Hands `job` to the queue. A closed queue refuses it and gives it back.
    pub fn submit(&mut self, job: Job) -> (r: Result<(), Job>)
        ensures
            final(self)@ == old(self)@.submit(job@).0,
            r is Ok == old(self)@.submit(job@).1,
            r matches Err(refused) ==> refused@ == job@,
    {
        if self.closed {
            Err(job)
        } else {
            self.queue.push_back(job);
            proof {
                assert(self@.queue =~= old(self)@.queue.push(job@));
            }
            Ok(())
        }
    }

    /// Closes the queue.
    pub fn close(&mut self)
        ensures
            final(self)@ == old(self)@.close(),
    {
        self.closed = true;
    }

    /// Says what the worker `worker` does next.
    pub fn poll(&mut self, worker: usize) -> (step: WorkerStep)
        ensures
            final(self)@ == old(self)@.poll(worker as int).0,
            step@ == old(self)@.poll(worker as int).1,
    {
        if worker >= self.workers.len() {
            return WorkerStep::Exit;
        }
        match self.workers[worker] {
            WorkerState::Exited => {
                return WorkerStep::Exit;
            },
            _ => {},
        }
        match self.queue.pop_front() {
            Some(job) => {
                self.workers.set(worker, WorkerState::Busy);
                proof {
                    assert(self@.queue =~= old(self)@.queue.drop_first());
                }
                WorkerStep::Transfer(job)
            },
            None => {
                proof {
                    assert(self@.queue =~= old(self)@.queue);
                }
                if self.closed {
                    self.workers.set(worker, WorkerState::Exited);
                    WorkerStep::Exit
                } else {
                    self.workers.set(worker, WorkerState::Idle);
                    WorkerStep::Wait
                }
            },
        }
    }

    /// The number of jobs that wait.
    pub fn waiting_jobs(&self) -> (n: usize)
        ensures
            n == self@.queue.len(),
    {
        self.queue.len()
    }

    /// Whether the pool has drained.
    pub fn is_drained(&self) -> (b: bool)
        ensures
            b == self@.drained(),
    {
        if !self.closed || self.queue.len() > 0 {
            return false;
        }
        let mut i: usize = 0;
        while i < self.workers.len()
            invariant
                i <= self.workers@.len(),
                forall|k: int| 0 <= k < i ==> self.workers@[k] == WorkerState::Exited,
            decreases self.workers.len() - i,
        {
            match self.workers[i] {
                WorkerState::Exited => {},
                _ => {
                    return false;
                },
            }
            i = i + 1;
        }
        true
    }
}

/// Changing where one worker stands changes the number of live workers by
/// that worker alone.
pub proof fn lemma_live_count_update(workers: Seq<WorkerState>, worker: int, state: WorkerState)
    requires
        0 <= worker < workers.len(),
    ensures
        live_count(workers.update(worker, state)) + (if workers[worker] == WorkerState::Exited {
            0nat
        } else {
            1nat
        }) == live_count(workers) + (if state == WorkerState::Exited {
            0nat
        } else {
            1nat
        }),
    decreases workers.len(),
{
    let changed = workers.update(worker, state);
    if worker == workers.len() - 1 {
        assert(changed.drop_last() =~= workers.drop_last());
    } else {
        assert(changed.drop_last() =~= workers.drop_last().update(worker, state));
        lemma_live_count_update(workers.drop_last(), worker, state);
    }
}

/// No worker is live exactly when all have left; then none is busy.
pub proof fn lemma_no_live_worker(workers: Seq<WorkerState>)
    ensures
        live_count(workers) == 0 <==> (forall|i: int|
            0 <= i < workers.len() ==> workers[i] == WorkerState::Exited),
        live_count(workers) == 0 ==> busy_count(workers) == 0,
        busy_count(workers) <= live_count(workers),
    decreases workers.len(),
{
    if workers.len() > 0 {
        lemma_no_live_worker(workers.drop_last());
        if live_count(workers) == 0 {
            assert forall|i: int| 0 <= i < workers.len() implies workers[i]
                == WorkerState::Exited by {
                if i < workers.len() - 1 {
                    assert(workers.drop_last()[i] == workers[i]);
                }
            }
        }
        if forall|i: int| 0 <= i < workers.len() ==> workers[i] == WorkerState::Exited {
            assert forall|i: int| 0 <= i < workers.drop_last().len() implies workers.drop_last()[i]
                == WorkerState::Exited by {
                assert(workers.drop_last()[i] == workers[i]);
            }
        }
    }
}

/// Once the queue is closed, every poll of a live worker brings the pool one
/// step nearer to drained: it takes a job from the queue or the worker
/// leaves. The queue stays closed, and no poll ever adds a job.
pub proof fn law_poll_drains(pool: PoolView, worker: int)
    requires
        pool.closed,
        pool.is_live(worker),
    ensures
        pool.poll(worker).0.remaining() + 1 == pool.remaining(),
        pool.poll(worker).0.closed,
        pool.queue.len() == 0 ==> pool.poll(worker).1 == WorkerStepView::Exit,
        pool.queue.len() > 0 ==> pool.poll(worker).1 == WorkerStepView::Transfer(pool.queue.first()),
{
    if pool.queue.len() > 0 {
        lemma_live_count_update(pool.workers, worker, WorkerState::Busy);
    } else {
        lemma_live_count_update(pool.workers, worker, WorkerState::Exited);
    }
}

/// Whatever the order in which workers poll, every job goes out at most
/// once and in the order of submission: the jobs handed out, followed by
/// those that still wait, are the jobs that waited at first. Once the pool
/// has drained, they have all gone out.
pub proof fn law_jobs_go_out_once(pool: PoolView, workers: Seq<int>)
    ensures
        pool.handed_out(workers) + pool.after_polls(workers).queue == pool.queue,
        pool.after_polls(workers).closed == pool.closed,
        pool.after_polls(workers).workers.len() == pool.workers.len(),
        pool.after_polls(workers).drained() ==> pool.handed_out(workers) == pool.queue,
    decreases workers.len(),
{
    if workers.len() > 0 {
        law_jobs_go_out_once(pool, workers.drop_last());
        let before = pool.after_polls(workers.drop_last());
        let handed = pool.handed_out(workers.drop_last());
        if before.is_live(workers.last()) && before.queue.len() > 0 {
            assert(seq![before.queue.first()] + before.queue.drop_first() =~= before.queue);
            assert(handed + seq![before.queue.first()] + before.queue.drop_first() =~= handed
                + before.queue);
        } else {
            assert(handed + Seq::<JobView>::empty() =~= handed);
        }
    }
    if pool.after_polls(workers).drained() {
        assert(pool.handed_out(workers) + pool.after_polls(workers).queue =~= pool.handed_out(
            workers,
        ));
    }
}

/// A pool starts sound and stays sound, whatever is submitted, whoever
/// polls, and when the queue is closed.
pub proof fn law_pool_stays_sound(pool: PoolView, job: JobView, worker: int, worker_count: nat)
    requires
        pool.sound(),
    ensures
        PoolView::initial(worker_count).sound(),
        pool.submit(job).0.sound(),
        pool.close().sound(),
        pool.poll(worker).0.sound(),
{
    let polled = pool.poll(worker).0;
    if exists|i: int|
        0 <= i < polled.workers.len() && #[trigger] polled.workers[i] == WorkerState::Exited {
        let i = choose|i: int|
            0 <= i < polled.workers.len() && #[trigger] polled.workers[i] == WorkerState::Exited;
        if pool.is_live(worker) && i != worker {
            assert(pool.workers[i] == WorkerState::Exited);
        }
    }
}

/// A closed pool with at least one worker that has not drained has a
/// worker that can poll: the pool cannot get stuck with jobs left.
pub proof fn law_pool_can_go_on(pool: PoolView)
    requires
        pool.sound(),
        pool.closed,
        pool.workers.len() >= 1,
        !pool.drained(),
    ensures
        exists|worker: int| pool.is_live(worker),
{
    if pool.queue.len() > 0 {
        if pool.workers[0] == WorkerState::Exited {
            assert(false);
        }
        assert(pool.is_live(0));
    } else {
        let i = choose|i: int| 0 <= i < pool.workers.len() && pool.workers[i] != WorkerState::Exited;
        assert(pool.is_live(i));
    }
}

/// Once the queue is closed, the pool has drained after exactly as many
/// polls of live workers as jobs waited and workers were left, in whatever
/// order they poll; by then every job that waited has been handed out.
pub proof fn law_pool_drains(pool: PoolView, workers: Seq<int>)
    requires
        pool.closed,
        pool.all_live(workers),
    ensures
        pool.after_polls(workers).remaining() + workers.len() == pool.remaining(),
        workers.len() == pool.remaining() ==> pool.after_polls(workers).drained()
            && pool.handed_out(workers) == pool.queue,
    decreases workers.len(),
{
    law_jobs_go_out_once(pool, workers);
    if workers.len() > 0 {
        law_pool_drains(pool, workers.drop_last());
        law_jobs_go_out_once(pool, workers.drop_last());
        law_poll_drains(pool.after_polls(workers.drop_last()), workers.last());
    }
    law_drained_pool_is_at_rest(pool.after_polls(workers), 0);
}

/// A closed pool has drained exactly when nothing remains; a drained pool
/// has no job in transfer, and every further poll, of any worker, says to
/// leave and changes nothing. This holds for any number of workers and of
/// jobs, none included.
pub proof fn law_drained_pool_is_at_rest(pool: PoolView, worker: int)
    requires
        pool.closed,
    ensures
        pool.remaining() == 0 <==> pool.drained(),
        pool.drained() ==> busy_count(pool.workers) == 0,
        pool.drained() ==> pool.poll(worker) == (pool, WorkerStepView::Exit),
{
    lemma_no_live_worker(pool.workers);
}

} // verus!
