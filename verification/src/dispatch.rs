//! What holds of every run of a pool.
//!
//! A run is a pool as it was constructed and the events that happened to
//! it since, in order. Beside the pool stands a [`Ledger`], the record an
//! observer would keep of the jobs: which were accepted, which were handed
//! to which worker, which are running and which are done. The theorems at
//! the end of this file are stated over the two.

use crate::pool::{PoolEvent, PoolModel, Worker, WorkerState};
use vstd::prelude::*;

verus! {

/// The record of a run. A job that was handed to a worker is known by its
/// ticket, the number of jobs that were handed out before it.
#[verifier::ext_equal]
pub struct Ledger<J> {
    /// The jobs that were accepted, in the order of submission.
    pub accepted: Seq<J>,
    /// The jobs that were handed to a worker, in the order of hand-out.
    pub handed: Seq<J>,
    /// For each ticket, the worker that the job was handed to.
    pub holder: Seq<nat>,
    /// For each busy worker, the ticket of the job that it runs.
    pub running: Map<nat, nat>,
    /// The tickets of the jobs that were finished.
    pub completed: Set<nat>,
}

impl<J> Ledger<J> {
    /// The record of a run in which nothing has happened.
    pub open spec fn empty() -> Self {
        Ledger {
            accepted: Seq::empty(),
            handed: Seq::empty(),
            holder: Seq::empty(),
            running: Map::empty(),
            completed: Set::empty(),
        }
    }

    /// The record after `event` happened to `pool`.
    pub open spec fn record(self, pool: PoolModel<J>, event: PoolEvent<J>) -> Self {
        match event {
            PoolEvent::Submit(job) => if pool.accepting() {
                Ledger { accepted: self.accepted.push(job), ..self }
            } else {
                self
            },
            PoolEvent::Take(id) => if pool.in_state(id, WorkerState::Idle) && pool.pending.len()
                > 0 {
                Ledger {
                    handed: self.handed.push(pool.pending[0]),
                    holder: self.holder.push(id),
                    running: self.running.insert(id, self.handed.len()),
                    ..self
                }
            } else {
                self
            },
            PoolEvent::Finish(id) => if pool.in_state(id, WorkerState::Busy) {
                Ledger {
                    running: self.running.remove(id),
                    completed: self.completed.insert(self.running[id]),
                    ..self
                }
            } else {
                self
            },
            PoolEvent::Fail(id) => if pool.in_state(id, WorkerState::Busy) {
                Ledger { running: self.running.remove(id), ..self }
            } else {
                self
            },
            _ => self,
        }
    }
}

/// The pool after the events of `trace` happened to `start`, in order.
pub open spec fn run<J>(start: PoolModel<J>, trace: Seq<PoolEvent<J>>) -> PoolModel<J>
    decreases trace.len(),
{
    if trace.len() == 0 {
        start
    } else {
        run(start, trace.drop_last()).step(trace.last())
    }
}

/// The record of the run of `trace` from `start`.
pub open spec fn observe<J>(start: PoolModel<J>, trace: Seq<PoolEvent<J>>) -> Ledger<J>
    decreases trace.len(),
{
    if trace.len() == 0 {
        Ledger::empty()
    } else {
        observe(start, trace.drop_last()).record(run(start, trace.drop_last()), trace.last())
    }
}

/// The record agrees with the pool: the jobs handed out and the jobs that
/// wait are, in this order, the jobs accepted; the busy workers are those
/// with a running job; and every job handed out is done, or running on the
/// worker that took it, or that worker was lost.
pub open spec fn consistent<J>(pool: PoolModel<J>, seen: Ledger<J>) -> bool {
    &&& pool.wf()
    &&& seen.handed + pool.pending == seen.accepted
    &&& seen.holder.len() == seen.handed.len()
    &&& forall|id: nat| #[trigger]
        seen.running.dom().contains(id) <==> pool.in_state(id, WorkerState::Busy)
    &&& forall|id: nat| #[trigger]
        seen.running.dom().contains(id) ==> seen.running[id] < seen.handed.len()
            && seen.holder[seen.running[id] as int] == id && !seen.completed.contains(
            seen.running[id],
        )
    &&& forall|ticket: nat| #[trigger]
        seen.completed.contains(ticket) ==> ticket < seen.handed.len()
    &&& forall|ticket: int|
        0 <= ticket < seen.handed.len() ==> {
            let id = #[trigger] seen.holder[ticket];
            ||| seen.completed.contains(ticket as nat)
            ||| seen.running.dom().contains(id) && seen.running[id] == ticket
            ||| pool.in_state(id, WorkerState::Lost)
        }
}

/// Every event keeps the record in agreement with the pool.
pub proof fn lemma_step_consistent<J>(pool: PoolModel<J>, seen: Ledger<J>, event: PoolEvent<J>)
    requires
        consistent(pool, seen),
    ensures
        consistent(pool.step(event), seen.record(pool, event)),
{
    let next = pool.step(event);
    let then = seen.record(pool, event);
    crate::pool::lemma_step_wf(pool, event);
    match event {
        PoolEvent::Submit(job) => {
            assert(then.handed + next.pending =~= then.accepted);
            assert(consistent(next, then));
        },
        PoolEvent::Take(id) => {
            assert(then.handed + next.pending =~= then.accepted);
            assert(!seen.completed.contains(seen.handed.len()));
            assert forall|ticket: nat| #[trigger] then.completed.contains(ticket) implies ticket
                < then.handed.len() by {
                assert(seen.completed.contains(ticket));
            }
            assert forall|w: nat| #[trigger] then.running.dom().contains(w) implies then.running[w]
                < then.handed.len() && then.holder[then.running[w] as int] == w
                && !then.completed.contains(then.running[w]) by {
                if w != id {
                    assert(seen.running.dom().contains(w));
                }
            }
            assert(forall|w: nat| #[trigger]
                then.running.dom().contains(w) <==> next.in_state(w, WorkerState::Busy));
            assert forall|ticket: int| 0 <= ticket < then.handed.len() implies {
                let w = #[trigger] then.holder[ticket];
                ||| then.completed.contains(ticket as nat)
                ||| then.running.dom().contains(w) && then.running[w] == ticket
                ||| next.in_state(w, WorkerState::Lost)
            } by {
                if ticket < seen.handed.len() {
                    let w = seen.holder[ticket];
                    assert(then.holder[ticket] == w);
                }
            }
            assert(consistent(next, then));
        },
        PoolEvent::Finish(id) => {
            assert(consistent(next, then));
        },
        PoolEvent::Fail(id) => {
            assert(consistent(next, then));
        },
        PoolEvent::Spawned => {
            assert(consistent(next, then));
        },
        PoolEvent::SpawnFailed => {
            assert(consistent(next, then));
        },
        PoolEvent::Close => {
            assert(consistent(next, then));
        },
        PoolEvent::Join(id) => {
            assert(consistent(next, then));
        },
    }
}

/// The record of a run from a newly constructed pool agrees with the pool.
pub proof fn lemma_run_consistent<J>(size: nat, tries: nat, trace: Seq<PoolEvent<J>>)
    requires
        PoolModel::<J>::starting(size, tries).wf(),
    ensures
        consistent(
            run(PoolModel::<J>::starting(size, tries), trace),
            observe(PoolModel::<J>::starting(size, tries), trace),
        ),
    decreases trace.len(),
{
    let start = PoolModel::<J>::starting(size, tries);
    if trace.len() == 0 {
        assert(Ledger::<J>::empty().handed + start.pending =~= Ledger::<J>::empty().accepted);
    } else {
        lemma_run_consistent::<J>(size, tries, trace.drop_last());
        lemma_step_consistent(
            run(start, trace.drop_last()),
            observe(start, trace.drop_last()),
            trace.last(),
        );
    }
}

/// Jobs are served first come, first served: at every moment of every run,
/// the jobs that have been handed to workers are, in the order of
/// hand-out, the jobs that were accepted first, and the jobs that wait are
/// the rest, oldest first.
pub proof fn lemma_first_come_first_served<J>(size: nat, tries: nat, trace: Seq<PoolEvent<J>>)
    requires
        PoolModel::<J>::starting(size, tries).wf(),
    ensures
        ({
            let pool = run(PoolModel::<J>::starting(size, tries), trace);
            let seen = observe(PoolModel::<J>::starting(size, tries), trace);
            &&& seen.handed.len() <= seen.accepted.len()
            &&& seen.handed == seen.accepted.take(seen.handed.len() as int)
            &&& pool.pending == seen.accepted.skip(seen.handed.len() as int)
        }),
{
    let pool = run(PoolModel::<J>::starting(size, tries), trace);
    let seen = observe(PoolModel::<J>::starting(size, tries), trace);
    lemma_run_consistent::<J>(size, tries, trace);
    assert(seen.handed =~= seen.accepted.take(seen.handed.len() as int));
    assert(pool.pending =~= seen.accepted.skip(seen.handed.len() as int));
}

/// No job is delivered twice: at every moment of every run, each job that
/// was handed out went to one worker, no two workers run the same job, and
/// a job that is done is not running. Where no job was submitted twice,
/// none was handed out twice, and none that was handed out still waits.
pub proof fn lemma_delivered_once<J>(size: nat, tries: nat, trace: Seq<PoolEvent<J>>)
    requires
        PoolModel::<J>::starting(size, tries).wf(),
    ensures
        ({
            let pool = run(PoolModel::<J>::starting(size, tries), trace);
            let seen = observe(PoolModel::<J>::starting(size, tries), trace);
            &&& seen.holder.len() == seen.handed.len()
            &&& forall|a: nat, b: nat|
                seen.running.dom().contains(a) && seen.running.dom().contains(b) && a != b
                    ==> #[trigger] seen.running[a] != #[trigger] seen.running[b]
            &&& forall|id: nat| #[trigger]
                seen.running.dom().contains(id) ==> !seen.completed.contains(seen.running[id])
            &&& seen.accepted.no_duplicates() ==> seen.handed.no_duplicates() && forall|
                i: int,
                j: int,
            |
                0 <= i < seen.handed.len() && 0 <= j < pool.pending.len() ==> #[trigger] seen.handed[i]
                    != #[trigger] pool.pending[j]
        }),
{
    let pool = run(PoolModel::<J>::starting(size, tries), trace);
    let seen = observe(PoolModel::<J>::starting(size, tries), trace);
    lemma_run_consistent::<J>(size, tries, trace);
    if seen.accepted.no_duplicates() {
        assert forall|i: int, j: int|
            0 <= i < seen.handed.len() && 0 <= j < seen.handed.len() && i != j implies seen.handed[i]
            != seen.handed[j] by {
            assert(seen.accepted[i] == seen.handed[i]);
            assert(seen.accepted[j] == seen.handed[j]);
        }
        assert forall|i: int, j: int|
            0 <= i < seen.handed.len() && 0 <= j < pool.pending.len() implies #[trigger] seen.handed[i]
            != #[trigger] pool.pending[j] by {
            assert(seen.accepted[i] == seen.handed[i]);
            assert(seen.accepted[seen.handed.len() + j] == pool.pending[j]);
        }
    }
}

/// Once the queue is closed it stays closed, and no job is accepted any
/// more, whatever is submitted.
pub proof fn lemma_closed_for_good<J>(pool: PoolModel<J>, trace: Seq<PoolEvent<J>>)
    requires
        !pool.open,
    ensures
        !run(pool, trace).open,
        run(pool, trace).pending.len() <= pool.pending.len(),
        observe(pool, trace).accepted.len() == 0,
    decreases trace.len(),
{
    if trace.len() > 0 {
        lemma_closed_for_good(pool, trace.drop_last());
    }
}

/// Teardown waits for the jobs: in a run in which no job failed, once the
/// thread of every worker of a constructed pool has been reclaimed, no job
/// waits, none is running, and every job that was ever accepted has been
/// handed out and finished.
pub proof fn lemma_teardown_completes_jobs<J>(size: nat, tries: nat, trace: Seq<PoolEvent<J>>)
    requires
        PoolModel::<J>::starting(size, tries).wf(),
        run(PoolModel::<J>::starting(size, tries), trace).ready(),
        run(PoolModel::<J>::starting(size, tries), trace).all_joined(),
        forall|id: nat|
            !run(PoolModel::<J>::starting(size, tries), trace).in_state(id, WorkerState::Lost),
    ensures
        ({
            let pool = run(PoolModel::<J>::starting(size, tries), trace);
            let seen = observe(PoolModel::<J>::starting(size, tries), trace);
            &&& !pool.open
            &&& pool.pending.len() == 0
            &&& seen.running.dom() == Set::<nat>::empty()
            &&& seen.handed == seen.accepted
            &&& seen.completed == Set::new(|ticket: nat| ticket < seen.accepted.len())
        }),
{
    let pool = run(PoolModel::<J>::starting(size, tries), trace);
    let seen = observe(PoolModel::<J>::starting(size, tries), trace);
    lemma_run_consistent::<J>(size, tries, trace);
    assert forall|i: int| 0 <= i < pool.workers.len() implies (#[trigger] pool.workers[i]).state
        == WorkerState::Stopped by {
        assert(pool.workers[i].joined);
        assert(!pool.in_state(i as nat, WorkerState::Lost));
    }
    assert(pool.workers[0].state == WorkerState::Stopped);
    assert forall|id: nat| !seen.running.dom().contains(id) by {
        if seen.running.dom().contains(id) {
            assert(pool.in_state(id, WorkerState::Busy));
            assert(pool.workers[id as int].state == WorkerState::Stopped);
        }
    }
    assert(seen.running.dom() =~= Set::<nat>::empty());
    assert(seen.handed =~= seen.accepted);
    assert forall|ticket: nat| ticket < seen.accepted.len() implies seen.completed.contains(
        ticket,
    ) by {
        let id = seen.holder[ticket as int];
        assert(!pool.in_state(id, WorkerState::Lost));
        assert(!seen.running.dom().contains(id));
    }
    assert(seen.completed =~= Set::new(|ticket: nat| ticket < seen.accepted.len()));
}

/// `count` failed attempts to start a worker.
pub open spec fn misses<J>(count: nat) -> Seq<PoolEvent<J>> {
    Seq::new(count, |i: int| PoolEvent::SpawnFailed)
}

/// The events of a construction in which the start of each of `workers`
/// workers fails `count` times and then succeeds.
pub open spec fn startup_trace<J>(workers: nat, count: nat) -> Seq<PoolEvent<J>>
    decreases workers,
{
    if workers == 0 {
        Seq::empty()
    } else {
        startup_trace::<J>((workers - 1) as nat, count) + misses::<J>(count).push(
            PoolEvent::Spawned,
        )
    }
}

/// A pool in which `count` workers have been started and nothing else has
/// happened: all of them are idle, no job waits, and the queue is open.
pub open spec fn started<J>(size: nat, tries: nat, count: nat) -> PoolModel<J> {
    PoolModel {
        size,
        tries,
        failures: 0,
        workers: Seq::new(
            count,
            |i: int| Worker { id: i as usize, state: WorkerState::Idle, joined: false },
        ),
        pending: Seq::empty(),
        open: true,
    }
}

/// A run of two traces, one after the other, is the run of the second
/// from where the first has led.
pub proof fn lemma_run_concat<J>(
    start: PoolModel<J>,
    first: Seq<PoolEvent<J>>,
    second: Seq<PoolEvent<J>>,
)
    ensures
        run(start, first + second) == run(run(start, first), second),
    decreases second.len(),
{
    if second.len() == 0 {
        assert(first + second =~= first);
    } else {
        lemma_run_concat(start, first, second.drop_last());
        assert((first + second).drop_last() =~= first + second.drop_last());
    }
}

/// Failed attempts add up until the allowed number is reached; the last
/// one allowed closes the queue, and those after it change nothing.
proof fn lemma_run_misses<J>(pool: PoolModel<J>, count: nat)
    requires
        pool.wf(),
        !pool.ready(),
    ensures
        run(pool, misses::<J>(count)) == if pool.failures + count < pool.tries {
            PoolModel { failures: pool.failures + count, ..pool }
        } else {
            PoolModel { failures: pool.tries, open: false, ..pool }
        },
    decreases count,
{
    if count == 0 {
        assert(pool =~= PoolModel { failures: pool.failures + count, ..pool });
        assert(pool.failures >= pool.tries ==> pool =~= PoolModel {
            failures: pool.tries,
            open: false,
            ..pool
        });
    } else {
        lemma_run_misses(pool, (count - 1) as nat);
        assert(misses::<J>(count).drop_last() =~= misses::<J>((count - 1) as nat));
    }
}

/// After a construction that has failed, attempts to start workers change
/// nothing.
proof fn lemma_run_after_failure<J>(pool: PoolModel<J>, workers: nat, count: nat)
    requires
        pool.wf(),
        pool.failed(),
        pool.failures == pool.tries,
    ensures
        run(pool, startup_trace::<J>(workers, count)) == pool,
    decreases workers,
{
    if workers > 0 {
        let before = startup_trace::<J>((workers - 1) as nat, count);
        let attempts = misses::<J>(count).push(PoolEvent::Spawned);
        lemma_run_after_failure(pool, (workers - 1) as nat, count);
        lemma_run_concat(pool, before, attempts);
        lemma_run_misses(pool, count);
        assert(attempts.drop_last() =~= misses::<J>(count));
        assert(PoolModel { failures: pool.tries, open: false, ..pool } =~= pool);
    }
}

/// Construction retries within its allowance: where the start of every
/// worker fails fewer times than attempts are allowed and then succeeds,
/// the pool comes up with all its workers, idle, in the order of their
/// ids. Where it fails as many times as attempts are allowed, or more,
/// construction fails at the first worker: none is started and the queue
/// is closed.
pub proof fn lemma_startup_retries<J>(size: nat, tries: nat, count: nat)
    requires
        PoolModel::<J>::starting(size, tries).wf(),
    ensures
        ({
            let pool = run(PoolModel::<J>::starting(size, tries), startup_trace::<J>(size, count));
            if count < tries {
                pool.ready() && pool == started::<J>(size, tries, size)
            } else {
                pool.failed() && !pool.open && pool.workers.len() == 0
            }
        }),
{
    let start = PoolModel::<J>::starting(size, tries);
    if count < tries {
        lemma_startup_progress::<J>(size, tries, count, size);
    } else {
        // The attempts for the first worker end in failure; what follows changes nothing.
        let attempts = misses::<J>(count).push(PoolEvent::Spawned);
        let failed = PoolModel { failures: tries, open: false, ..start };
        lemma_run_misses(start, count);
        lemma_startup_split::<J>(size, count);
        lemma_run_concat(start, attempts, startup_trace::<J>((size - 1) as nat, count));
        assert(attempts.drop_last() =~= misses::<J>(count));
        lemma_run_after_failure(failed, (size - 1) as nat, count);
    }
}

/// The events of a construction, first worker first.
proof fn lemma_startup_split<J>(workers: nat, count: nat)
    requires
        workers > 0,
    ensures
        startup_trace::<J>(workers, count) == misses::<J>(count).push(PoolEvent::Spawned)
            + startup_trace::<J>((workers - 1) as nat, count),
    decreases workers,
{
    let attempts = misses::<J>(count).push(PoolEvent::Spawned);
    if workers == 1 {
        assert(startup_trace::<J>(0, count) =~= Seq::<PoolEvent<J>>::empty());
        assert(startup_trace::<J>(1, count) =~= attempts + startup_trace::<J>(0, count));
    } else {
        lemma_startup_split::<J>((workers - 1) as nat, count);
        assert(startup_trace::<J>(workers, count) =~= attempts + startup_trace::<J>(
            (workers - 1) as nat,
            count,
        ));
    }
}

/// With fewer failures than attempts allowed, the first `workers` workers
/// are started one after the other.
proof fn lemma_startup_progress<J>(size: nat, tries: nat, count: nat, workers: nat)
    requires
        PoolModel::<J>::starting(size, tries).wf(),
        count < tries,
        workers <= size,
    ensures
        run(PoolModel::<J>::starting(size, tries), startup_trace::<J>(workers, count)) == started::<
            J,
        >(size, tries, workers),
    decreases workers,
{
    let start = PoolModel::<J>::starting(size, tries);
    if workers == 0 {
        assert(start =~= started::<J>(size, tries, 0));
    } else {
        let before = startup_trace::<J>((workers - 1) as nat, count);
        let attempts = misses::<J>(count).push(PoolEvent::Spawned);
        let pool = started::<J>(size, tries, (workers - 1) as nat);
        lemma_startup_progress::<J>(size, tries, count, (workers - 1) as nat);
        lemma_run_concat(start, before, attempts);
        assert(pool.wf());
        lemma_run_misses(pool, count);
        assert(attempts.drop_last() =~= misses::<J>(count));
        assert(run(pool, attempts) =~= started::<J>(size, tries, workers));
    }
}

} // verus!
