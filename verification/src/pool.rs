//! The worker pool: a fixed number of workers that take jobs from one
//! shared queue, first come, first served.
//!
//! [`ThreadPool`] is the pool's book-keeping: which workers have been
//! started, what each of them is doing, which jobs are waiting and whether
//! more are accepted. It creates no thread and never blocks. Whoever owns
//! the threads reports what happened (a worker was started, a worker asks
//! for a job, a job is done) and is told what to do about it. Each report
//! is one event of [`PoolEvent`], and [`PoolModel::step`] says what it does
//! to the pool.

use crate::text::{decimal, push_decimal};
use std::collections::VecDeque;
use vstd::prelude::*;
use vstd::string::*;

verus! {

/// The failure to start the thread of one worker.
#[derive(Clone, Copy, Debug, PartialEq, Eq, Structural)]
pub struct ThreadSpawnError {
    id: usize,
}

impl View for ThreadSpawnError {
    type V = nat;

    /// The id of the worker that could not be started.
    closed spec fn view(&self) -> nat {
        self.id as nat
    }
}

impl ThreadSpawnError {
    /// The failure to start worker `id`.
    pub fn new(id: usize) -> (error: Self)
        ensures
            error@ == id,
    {
        ThreadSpawnError { id }
    }

    /// The id of the worker that could not be started.
    pub fn id(&self) -> (id: usize)
        ensures
            id == self@,
    {
        self.id
    }

    /// The failure in words.
    pub fn message(&self) -> (text: String)
        ensures
            text@ == "OS failed to spawn thread for worker "@ + decimal(self@),
    {
        let mut text = String::from_str("OS failed to spawn thread for worker ");
        push_decimal(&mut text, self.id);
        text
    }
}

/// What a worker is doing.
#[derive(Clone, Copy, Debug, PartialEq, Eq, Structural)]
pub enum WorkerState {
    /// Waiting for a job.
    Idle,
    /// Running a job.
    Busy,
    /// Gone for good, after it found the queue closed and empty.
    Stopped,
    /// Gone for good, taken down by a job that failed.
    Lost,
}

/// One worker of the pool.
#[derive(Clone, Copy, Debug, PartialEq, Eq, Structural)]
pub struct Worker {
    /// The worker's position in the order of construction.
    pub id: usize,
    /// What the worker is doing.
    pub state: WorkerState,
    /// Whether the worker's thread has been reclaimed.
    pub joined: bool,
}

/// The pool as a mathematical value.
#[verifier::ext_equal]
pub struct PoolModel<J> {
    /// The number of workers the pool is to have.
    pub size: nat,
    /// How many times the start of one worker is attempted.
    pub tries: nat,
    /// How many attempts have failed for the worker that is being started.
    pub failures: nat,
    /// The workers that have been started, in the order of construction.
    pub workers: Seq<Worker>,
    /// The jobs that wait for a worker, oldest first.
    pub pending: Seq<J>,
    /// Whether the queue is open: once closed, it stays closed.
    pub open: bool,
}

/// What can happen to a pool.
pub enum PoolEvent<J> {
    /// The thread of the next worker was started.
    Spawned,
    /// An attempt to start the thread of the next worker failed.
    SpawnFailed,
    /// A job was submitted.
    Submit(J),
    /// The worker with this id asked for a job.
    Take(nat),
    /// The worker with this id finished its job.
    Finish(nat),
    /// The job of the worker with this id failed and took the worker down.
    Fail(nat),
    /// Teardown began: the queue was closed.
    Close,
    /// The thread of the worker with this id was reclaimed.
    Join(nat),
}

impl<J> PoolModel<J> {
    /// The pool before any worker has been started. With no attempt
    /// allowed, construction has failed before it began.
    pub open spec fn starting(size: nat, tries: nat) -> Self {
        PoolModel {
            size,
            tries,
            failures: 0,
            workers: Seq::empty(),
            pending: Seq::empty(),
            open: tries > 0,
        }
    }

    /// Every worker has been started.
    pub open spec fn ready(self) -> bool {
        self.workers.len() == self.size
    }

    /// Every attempt to start some worker has failed.
    pub open spec fn failed(self) -> bool {
        self.workers.len() < self.size && self.failures >= self.tries
    }

    /// A worker is still to be started, and an attempt is left for it.
    pub open spec fn spawning(self) -> bool {
        self.workers.len() < self.size && self.failures < self.tries
    }

    /// Jobs are accepted: the pool has been constructed and teardown has
    /// not begun.
    pub open spec fn accepting(self) -> bool {
        self.open && self.ready()
    }

    /// Worker `id` has been started and is in `state`.
    pub open spec fn in_state(self, id: nat, state: WorkerState) -> bool {
        id < self.workers.len() && self.workers[id as int].state == state
    }

    /// The thread of worker `id` can be reclaimed: teardown has begun, the
    /// thread has ended, and it is this worker's turn in the order of
    /// construction.
    pub open spec fn joinable(self, id: nat) -> bool {
        &&& !self.open
        &&& id < self.workers.len()
        &&& !self.workers[id as int].joined
        &&& (self.workers[id as int].state == WorkerState::Stopped || self.workers[id as int].state
            == WorkerState::Lost)
        &&& forall|i: int| 0 <= i < id ==> (#[trigger] self.workers[i]).joined
    }

    /// Every started worker has been reclaimed.
    pub open spec fn all_joined(self) -> bool {
        forall|i: int| 0 <= i < self.workers.len() ==> (#[trigger] self.workers[i]).joined
    }

    /// The pool with worker `id` in `state`.
    pub open spec fn with_state(self, id: nat, state: WorkerState) -> Self {
        PoolModel {
            workers: self.workers.update(
                id as int,
                Worker { id: self.workers[id as int].id, state, joined: self.workers[id as int].joined },
            ),
            ..self
        }
    }

    /// The pool after `event`. An event that cannot happen in this state
    /// leaves the pool as it is.
    pub open spec fn step(self, event: PoolEvent<J>) -> Self {
        match event {
            PoolEvent::Spawned => if self.spawning() {
                PoolModel {
                    failures: 0,
                    workers: self.workers.push(
                        Worker {
                            id: self.workers.len() as usize,
                            state: WorkerState::Idle,
                            joined: false,
                        },
                    ),
                    ..self
                }
            } else {
                self
            },
            PoolEvent::SpawnFailed => if self.spawning() {
                PoolModel {
                    failures: self.failures + 1,
                    open: self.open && self.failures + 1 < self.tries,
                    ..self
                }
            } else {
                self
            },
            PoolEvent::Submit(job) => if self.accepting() {
                PoolModel { pending: self.pending.push(job), ..self }
            } else {
                self
            },
            PoolEvent::Take(id) => if !self.in_state(id, WorkerState::Idle) {
                self
            } else if self.pending.len() > 0 {
                PoolModel { pending: self.pending.drop_first(), ..self }.with_state(
                    id,
                    WorkerState::Busy,
                )
            } else if self.open {
                self
            } else {
                self.with_state(id, WorkerState::Stopped)
            },
            PoolEvent::Finish(id) => if self.in_state(id, WorkerState::Busy) {
                self.with_state(id, WorkerState::Idle)
            } else {
                self
            },
            PoolEvent::Fail(id) => if self.in_state(id, WorkerState::Busy) {
                self.with_state(id, WorkerState::Lost)
            } else {
                self
            },
            PoolEvent::Close => PoolModel { open: false, ..self },
            PoolEvent::Join(id) => if self.joinable(id) {
                PoolModel {
                    workers: self.workers.update(
                        id as int,
                        Worker {
                            id: self.workers[id as int].id,
                            state: self.workers[id as int].state,
                            joined: true,
                        },
                    ),
                    ..self
                }
            } else {
                self
            },
        }
    }

    /// What holds of every pool: it has at least one worker to start and
    /// never more than its size; workers are numbered in the order of
    /// construction; a failed construction closes the queue; no job waits
    /// before construction is over; a worker stops only when the queue is
    /// closed and empty; and threads are reclaimed after teardown began,
    /// once they have ended, in the order of construction.
    pub open spec fn wf(self) -> bool {
        &&& self.size >= 1
        &&& self.size <= usize::MAX
        &&& self.workers.len() <= self.size
        &&& self.failures <= self.tries
        &&& forall|i: int| 0 <= i < self.workers.len() ==> (#[trigger] self.workers[i]).id == i
        &&& (self.failed() ==> !self.open)
        &&& (!self.ready() ==> self.pending.len() == 0)
        &&& forall|i: int|
            0 <= i < self.workers.len() && (#[trigger] self.workers[i]).state
                == WorkerState::Stopped ==> !self.open && self.pending.len() == 0
        &&& forall|i: int|
            0 <= i < self.workers.len() && (#[trigger] self.workers[i]).joined ==> !self.open && (
            self.workers[i].state == WorkerState::Stopped || self.workers[i].state
                == WorkerState::Lost)
        &&& forall|i: int, j: int|
            0 <= i <= j < self.workers.len() && (#[trigger] self.workers[j]).joined ==> (
            #[trigger] self.workers[i]).joined
    }
}

/// Every event keeps a pool well formed.
pub proof fn lemma_step_wf<J>(pool: PoolModel<J>, event: PoolEvent<J>)
    requires
        pool.wf(),
    ensures
        pool.step(event).wf(),
{
}

/// What construction calls for next.
#[derive(Clone, Copy, Debug, PartialEq, Eq)]
pub enum Startup {
    /// Try to start the thread of the worker with this id.
    Spawn(usize),
    /// Every worker has been started.
    Ready,
    /// Every attempt to start this worker failed: the pool cannot be
    /// constructed.
    Failed(ThreadSpawnError),
}

/// The answer to a worker that asks for a job.
#[derive(Debug, PartialEq, Eq)]
pub enum Take<J> {
    /// Run this job, then report that it is finished.
    Job(J),
    /// No job waits and more may come: ask again when one was submitted or
    /// the queue was closed.
    Wait,
    /// No job waits and none will come: let the thread end.
    Exit,
}

/// The book-keeping of a pool whose jobs are of type `J`.
pub struct ThreadPool<J> {
    size: usize,
    tries: usize,
    failures: usize,
    workers: Vec<Worker>,
    queue: VecDeque<J>,
    open: bool,
}

impl<J> View for ThreadPool<J> {
    type V = PoolModel<J>;

    closed spec fn view(&self) -> PoolModel<J> {
        PoolModel {
            size: self.size as nat,
            tries: self.tries as nat,
            failures: self.failures as nat,
            workers: self.workers@,
            pending: self.queue@,
            open: self.open,
        }
    }
}

impl<J> ThreadPool<J> {
    /// A pool of `size` workers, none of them started yet, that allows
    /// `tries` attempts at starting each.
    pub fn new(size: usize, tries: usize) -> (pool: Self)
        requires
            size > 0,
        ensures
            pool@ == PoolModel::<J>::starting(size as nat, tries as nat),
            pool@.wf(),
    {
        let pool = ThreadPool {
            size,
            tries,
            failures: 0,
            workers: Vec::new(),
            queue: VecDeque::new(),
            open: tries > 0,
        };
        assert(pool@ =~= PoolModel::<J>::starting(size as nat, tries as nat));
        pool
    }

    /// What construction calls for next: workers are started one by one in
    /// the order of their ids, and one that could not be started within
    /// the allowed attempts ends construction.
    pub fn startup(&self) -> (next: Startup)
        requires
            self@.wf(),
        ensures
            match next {
                Startup::Spawn(id) => self@.spawning() && id == self@.workers.len(),
                Startup::Ready => self@.ready(),
                Startup::Failed(error) => self@.failed() && error@ == self@.workers.len(),
            },
    {
        if self.workers.len() == self.size {
            Startup::Ready
        } else if self.failures >= self.tries {
            Startup::Failed(ThreadSpawnError::new(self.workers.len()))
        } else {
            Startup::Spawn(self.workers.len())
        }
    }

    /// Records how the attempt to start the next worker ended. A worker
    /// that was started is idle. The last failure that is allowed closes
    /// the queue, so that the workers started before it come to an end.
    pub fn record_spawn(&mut self, started: bool)
        requires
            old(self)@.wf(),
            old(self)@.spawning(),
        ensures
            final(self)@ == old(self)@.step(
                if started {
                    PoolEvent::Spawned
                } else {
                    PoolEvent::SpawnFailed
                },
            ),
            final(self)@.wf(),
    {
        if started {
            let id = self.workers.len();
            self.workers.push(Worker { id, state: WorkerState::Idle, joined: false });
            self.failures = 0;
            assert(final(self)@ =~= old(self)@.step(PoolEvent::Spawned));
        } else {
            self.failures = self.failures + 1;
            if self.failures >= self.tries {
                self.open = false;
            }
            assert(final(self)@ =~= old(self)@.step(PoolEvent::SpawnFailed));
        }
    }

    /// Submits a job. While the pool is alive, constructed and not being
    /// torn down, the job joins the queue behind those that wait. Otherwise
    /// the pool is left as it is and the job is handed back.
    pub fn execute(&mut self, job: J) -> (accepted: Result<(), J>)
        requires
            old(self)@.wf(),
        ensures
            final(self)@ == old(self)@.step(PoolEvent::Submit(job)),
            final(self)@.wf(),
            match accepted {
                Ok(_) => old(self)@.accepting(),
                Err(back) => !old(self)@.accepting() && back == job,
            },
    {
        if self.open && self.workers.len() == self.size {
            self.queue.push_back(job);
            assert(final(self)@ =~= old(self)@.step(PoolEvent::Submit(job)));
            Ok(())
        } else {
            Err(job)
        }
    }

    /// Answers the idle worker `id`, who asks for a job: the oldest job
    /// that waits, if any, which the worker is then busy with; else to wait
    /// while the queue is open; else to stop.
    pub fn take(&mut self, id: usize) -> (answer: Take<J>)
        requires
            old(self)@.wf(),
            old(self)@.in_state(id as nat, WorkerState::Idle),
        ensures
            final(self)@ == old(self)@.step(PoolEvent::Take(id as nat)),
            final(self)@.wf(),
            match answer {
                Take::Job(job) => old(self)@.pending.len() > 0 && job == old(self)@.pending[0],
                Take::Wait => old(self)@.pending.len() == 0 && old(self)@.open,
                Take::Exit => old(self)@.pending.len() == 0 && !old(self)@.open,
            },
    {
        let joined = self.workers[id].joined;
        match self.queue.pop_front() {
            Some(job) => {
                self.workers.set(id, Worker { id, state: WorkerState::Busy, joined });
                assert(final(self)@ =~= old(self)@.step(PoolEvent::Take(id as nat)));
                Take::Job(job)
            },
            None => {
                if self.open {
                    assert(final(self)@ =~= old(self)@.step(PoolEvent::Take(id as nat)));
                    Take::Wait
                } else {
                    self.workers.set(id, Worker { id, state: WorkerState::Stopped, joined });
                    assert(final(self)@ =~= old(self)@.step(PoolEvent::Take(id as nat)));
                    Take::Exit
                }
            },
        }
    }

    /// Records that the busy worker `id` finished its job: it is idle
    /// again.
    pub fn finish(&mut self, id: usize)
        requires
            old(self)@.wf(),
            old(self)@.in_state(id as nat, WorkerState::Busy),
        ensures
            final(self)@ == old(self)@.step(PoolEvent::Finish(id as nat)),
            final(self)@.wf(),
    {
        let joined = self.workers[id].joined;
        self.workers.set(id, Worker { id, state: WorkerState::Idle, joined });
        assert(final(self)@ =~= old(self)@.step(PoolEvent::Finish(id as nat)));
    }

    /// Records that the job of the busy worker `id` failed and took the
    /// worker down: from now on the pool runs with one worker fewer.
    pub fn abandon(&mut self, id: usize)
        requires
            old(self)@.wf(),
            old(self)@.in_state(id as nat, WorkerState::Busy),
        ensures
            final(self)@ == old(self)@.step(PoolEvent::Fail(id as nat)),
            final(self)@.wf(),
    {
        let joined = self.workers[id].joined;
        self.workers.set(id, Worker { id, state: WorkerState::Lost, joined });
        assert(final(self)@ =~= old(self)@.step(PoolEvent::Fail(id as nat)));
    }

    /// Begins teardown: the queue is closed, no job is accepted any more,
    /// and workers that find it empty stop.
    pub fn shutdown(&mut self)
        requires
            old(self)@.wf(),
        ensures
            final(self)@ == old(self)@.step(PoolEvent::Close),
            final(self)@.wf(),
    {
        self.open = false;
        assert(final(self)@ =~= old(self)@.step(PoolEvent::Close));
    }

    /// The worker whose thread is to be reclaimed next, the first in the
    /// order of construction that has not been reclaimed; `None` once all
    /// have been.
    pub fn next_join(&self) -> (next: Option<usize>)
        requires
            self@.wf(),
        ensures
            match next {
                Some(id) => {
                    &&& id < self@.workers.len()
                    &&& !self@.workers[id as int].joined
                    &&& forall|i: int| 0 <= i < id ==> (#[trigger] self@.workers[i]).joined
                },
                None => self@.all_joined(),
            },
    {
        let mut id: usize = 0;
        while id < self.workers.len()
            invariant
                id <= self.workers.len(),
                forall|i: int| 0 <= i < id ==> (#[trigger] self.workers@[i]).joined,
            decreases self.workers.len() - id,
        {
            if !self.workers[id].joined {
                return Some(id);
            }
            id += 1;
        }
        None
    }

    /// Records that the thread of worker `id` was reclaimed.
    pub fn reclaim(&mut self, id: usize)
        requires
            old(self)@.wf(),
            old(self)@.joinable(id as nat),
        ensures
            final(self)@ == old(self)@.step(PoolEvent::Join(id as nat)),
            final(self)@.wf(),
    {
        let state = self.workers[id].state;
        self.workers.set(id, Worker { id, state, joined: true });
        assert(final(self)@ =~= old(self)@.step(PoolEvent::Join(id as nat)));
    }

    /// The number of workers the pool is to have.
    pub fn size(&self) -> (size: usize)
        ensures
            size == self@.size,
    {
        self.size
    }

    /// Whether the queue is open.
    pub fn is_open(&self) -> (open: bool)
        ensures
            open == self@.open,
    {
        self.open
    }

    /// The number of jobs that wait for a worker.
    pub fn pending(&self) -> (count: usize)
        ensures
            count == self@.pending.len(),
    {
        self.queue.len()
    }

    /// Worker `id`, if it has been started.
    pub fn worker(&self, id: usize) -> (worker: Option<Worker>)
        ensures
            worker == if id < self@.workers.len() {
                Some(self@.workers[id as int])
            } else {
                None
            },
    {
        if id < self.workers.len() {
            Some(self.workers[id])
        } else {
            None
        }
    }
}

} // verus!
