//! The protocol by which the workers of a pool agree that no work is left.
//!
//! A shared counter holds the number of busy workers. A worker that finds
//! the queue empty lowers the counter and waits, for a bounded time or until
//! the counter changes. When it wakes up it looks at the counter and at the
//! queue: if no worker is busy and no job waits, it leaves for good; else it
//! raises the counter and goes back to work.
//!
//! This module holds the decision of the worker that wakes up, and a model
//! of the pool in which the consequences of that decision are proved.

use vstd::prelude::*;

verus! {

/// What a worker does when it wakes up from its wait.
#[derive(Debug, Clone, Copy, PartialEq, Eq, Structural)]
pub enum Wake {
    /// It leaves its loop for good.
    Exit,
    /// It announces itself busy again and goes back to the queue.
    Resume,
}

/// The decision of a worker that wakes up having seen `busy` busy workers
/// and the queue empty or not: it leaves exactly if no worker is busy and the
/// queue is empty.
pub open spec fn decision(busy: nat, queue_is_empty: bool) -> Wake {
    if busy == 0 && queue_is_empty {
        Wake::Exit
    } else {
        Wake::Resume
    }
}

/// Decides what a worker does that wakes up having seen `busy` busy
/// workers and the queue empty or not.
pub fn wake_up(busy: usize, queue_is_empty: bool) -> (wake: Wake)
    ensures
        wake == decision(busy as nat, queue_is_empty),
{
    if busy == 0 && queue_is_empty {
        Wake::Exit
    } else {
        Wake::Resume
    }
}

/// A pool of workers at one moment, as the protocol sees it.
pub struct Pool {
    /// The number of jobs that wait in the queue.
    pub waiting: nat,
    /// The value of the counter: the number of workers that are busy.
    pub busy: nat,
    /// The number of workers that have lowered the counter and wait.
    pub idle: nat,
    /// The number of workers that have left for good.
    pub exited: nat,
}

impl Pool {
    /// The pool of `workers` workers at its start: all are busy, and
    /// `seeds` jobs wait.
    pub open spec fn start(workers: nat, seeds: nat) -> Pool {
        Pool { waiting: seeds, busy: workers, idle: 0, exited: 0 }
    }

    /// The number of workers of the pool.
    pub open spec fn workers(self) -> nat {
        self.busy + self.idle + self.exited
    }

    /// Whether the work is done: no worker is busy and no job waits.
    pub open spec fn quiet(self) -> bool {
        self.busy == 0 && self.waiting == 0
    }

    /// A busy worker takes a job out of the queue and ends it, which puts
    /// `found` jobs into the queue: those that the page gave, or the job
    /// itself where it failed.
    pub open spec fn works(self, after: Pool, found: nat) -> bool {
        &&& self.busy > 0
        &&& self.waiting > 0
        &&& after == Pool { waiting: (self.waiting - 1 + found) as nat, ..self }
    }

    /// A busy worker finds the queue empty, lowers the counter and waits.
    pub open spec fn rests(self, after: Pool) -> bool {
        &&& self.busy > 0
        &&& self.waiting == 0
        &&& after == Pool { busy: (self.busy - 1) as nat, idle: self.idle + 1, ..self }
    }

    /// A waiting worker wakes up and does what it decides: it leaves, or
    /// it raises the counter and is busy again.
    pub open spec fn wakes(self, after: Pool) -> bool {
        &&& self.idle > 0
        &&& after == match decision(self.busy, self.waiting == 0) {
            Wake::Exit => Pool { idle: (self.idle - 1) as nat, exited: self.exited + 1, ..self },
            Wake::Resume => Pool { idle: (self.idle - 1) as nat, busy: self.busy + 1, ..self },
        }
    }

    /// One step of one worker.
    pub open spec fn step(self, after: Pool) -> bool {
        ||| exists|found: nat| self.works(after, found)
        ||| self.rests(after)
        ||| self.wakes(after)
    }

    /// Whether `trace` is a run of the pool: each state follows from the
    /// one before it by one step.
    pub open spec fn run(trace: Seq<Pool>) -> bool {
        forall|i: int| 0 <= i < trace.len() - 1 ==> (#[trigger] trace[i]).step(trace[i + 1])
    }
}

/// No step changes the number of workers, and none brings back a worker
/// that has left.
pub proof fn workers_are_kept(before: Pool, after: Pool)
    requires
        before.step(after),
    ensures
        after.workers() == before.workers(),
        after.exited >= before.exited,
{
}

/// A worker leaves only when no worker is busy and no job waits: a step
/// after which more workers have left began in a quiet pool, and it left the
/// pool quiet.
pub proof fn exit_only_when_quiet(before: Pool, after: Pool)
    requires
        before.step(after),
        after.exited > before.exited,
    ensures
        before.quiet(),
        after.quiet(),
        after.exited == before.exited + 1,
{
}

/// A quiet pool stays quiet, and every step in it is the exit of a waiting
/// worker.
pub proof fn quiet_is_final(before: Pool, after: Pool)
    requires
        before.quiet(),
        before.step(after),
    ensures
        after.quiet(),
        after.idle + 1 == before.idle,
        after.exited == before.exited + 1,
{
}

/// In a pool that is quiet and in which all have left, no step is possible.
pub proof fn run_ends_when_all_have_left(before: Pool, after: Pool)
    requires
        before.quiet(),
        before.idle == 0,
    ensures
        !before.step(after),
{
}

/// In a run the number of workers stays what it was.
pub proof fn no_worker_comes_back(trace: Seq<Pool>)
    requires
        trace.len() > 0,
        Pool::run(trace),
    ensures
        trace.last().workers() == trace[0].workers(),
        trace.last().exited >= trace[0].exited,
    decreases trace.len(),
{
    if trace.len() > 1 {
        let shorter = trace.drop_last();
        assert forall|i: int| 0 <= i < shorter.len() - 1 implies (#[trigger] shorter[i]).step(
            shorter[i + 1],
        ) by {
            assert(trace[i].step(trace[i + 1]));
        }
        no_worker_comes_back(shorter);
        let n = trace.len() - 2;
        assert(shorter.last() == trace[n]);
        assert(trace[n].step(trace[n + 1]));
    }
}

/// The pool never gets stuck: as long as a worker has not left, some
/// worker can take a step.
pub proof fn some_step_is_possible(before: Pool)
    requires
        before.exited < before.workers(),
    ensures
        exists|after: Pool| before.step(after),
{
    if before.busy > 0 && before.waiting > 0 {
        let after = Pool { waiting: (before.waiting - 1) as nat, ..before };
        assert(before.works(after, 0));
        assert(before.step(after));
    } else if before.busy > 0 {
        let after = Pool { busy: (before.busy - 1) as nat, idle: before.idle + 1, ..before };
        assert(before.rests(after));
        assert(before.step(after));
    } else {
        let after = match decision(before.busy, before.waiting == 0) {
            Wake::Exit => Pool {
                idle: (before.idle - 1) as nat,
                exited: before.exited + 1,
                ..before
            },
            Wake::Resume => Pool {
                idle: (before.idle - 1) as nat,
                busy: before.busy + 1,
                ..before
            },
        };
        assert(before.wakes(after));
        assert(before.step(after));
    }
}

/// No job is left behind: in a run that begins with every worker busy,
/// a job waits only while a worker is busy. So when the last worker has left,
/// the queue is empty.
pub proof fn no_job_is_left_behind(trace: Seq<Pool>, workers: nat, seeds: nat)
    requires
        trace.len() > 0,
        Pool::run(trace),
        trace[0] == Pool::start(workers, seeds),
        workers >= 1,
    ensures
        forall|i: int|
            0 <= i < trace.len() ==> (#[trigger] trace[i]).workers() == workers && (trace[i].busy
                == 0 ==> trace[i].waiting == 0),
        trace.last().exited == workers ==> trace.last().waiting == 0,
    decreases trace.len(),
{
    if trace.len() > 1 {
        let shorter = trace.drop_last();
        assert forall|i: int| 0 <= i < shorter.len() - 1 implies (#[trigger] shorter[i]).step(
            shorter[i + 1],
        ) by {
            assert(trace[i].step(trace[i + 1]));
        }
        no_job_is_left_behind(shorter, workers, seeds);
        let n = trace.len() - 2;
        assert(shorter[n] == trace[n]);
        assert(trace[n].step(trace[n + 1]));
        assert forall|i: int| 0 <= i < trace.len() implies (#[trigger] trace[i]).workers()
            == workers && (trace[i].busy == 0 ==> trace[i].waiting == 0) by {
            if i < shorter.len() {
                assert(shorter[i] == trace[i]);
            }
        }
    }
}

/// The number of steps of `trace` in which a waiting worker goes back to
/// work.
pub open spec fn resumes(trace: Seq<Pool>) -> nat
    decreases trace.len(),
{
    if trace.len() <= 1 {
        0
    } else if trace.last().busy > trace[trace.len() - 2].busy {
        resumes(trace.drop_last()) + 1
    } else {
        resumes(trace.drop_last())
    }
}

/// Once no job waits, none will: a run that begins with an empty queue
/// goes on only as long as workers go back to work in vain. Each step in
/// which a worker rests or leaves uses up one of the `2 * busy + idle` steps
/// that the workers have before them, and each step in which a worker goes
/// back to work adds one. So such a run has at most `2 * busy + idle` steps
/// and two more for each resumption, and it never gets stuck before the last
/// worker has left.
pub proof fn all_leave_once_the_work_is_done(trace: Seq<Pool>)
    requires
        trace.len() > 0,
        Pool::run(trace),
        trace[0].waiting == 0,
    ensures
        forall|i: int| 0 <= i < trace.len() ==> (#[trigger] trace[i]).waiting == 0,
        trace.len() - 1 + 2 * trace.last().busy + trace.last().idle == 2 * trace[0].busy
            + trace[0].idle + 2 * resumes(trace),
        trace.len() - 1 <= 2 * trace[0].busy + trace[0].idle + 2 * resumes(trace),
        trace.last().exited < trace[0].workers() ==> exists|after: Pool|
            trace.last().step(after),
    decreases trace.len(),
{
    if trace.len() > 1 {
        let shorter = trace.drop_last();
        assert forall|i: int| 0 <= i < shorter.len() - 1 implies (#[trigger] shorter[i]).step(
            shorter[i + 1],
        ) by {
            assert(trace[i].step(trace[i + 1]));
        }
        all_leave_once_the_work_is_done(shorter);
        let n = trace.len() - 2;
        assert(shorter[n] == trace[n]);
        assert(shorter.last() == trace[n]);
        assert(trace[n].step(trace[n + 1]));
        assert(trace.last() == trace[n + 1]);
        assert forall|i: int| 0 <= i < trace.len() implies (#[trigger] trace[i]).waiting
            == 0 by {
            if i < shorter.len() {
                assert(shorter[i] == trace[i]);
            }
        }
    }
    no_worker_comes_back(trace);
    if trace.last().exited < trace[0].workers() {
        some_step_is_possible(trace.last());
    }
}

/// Once the pool is quiet, every worker leaves: a run that begins in a
/// quiet pool has at most as many steps as workers wait, each of its steps is
/// an exit, and after as many steps as workers waited all workers of the pool
/// have left.
pub proof fn all_leave_a_quiet_pool(trace: Seq<Pool>)
    requires
        trace.len() > 0,
        Pool::run(trace),
        trace[0].quiet(),
    ensures
        trace.len() - 1 <= trace[0].idle,
        forall|i: int|
            0 <= i < trace.len() ==> (#[trigger] trace[i]).quiet() && trace[i].exited
                == trace[0].exited + i && trace[i].idle + i == trace[0].idle,
        trace.len() - 1 == trace[0].idle ==> trace.last().exited == trace[0].workers(),
    decreases trace.len(),
{
    if trace.len() > 1 {
        let shorter = trace.drop_last();
        assert forall|i: int| 0 <= i < shorter.len() - 1 implies (#[trigger] shorter[i]).step(
            shorter[i + 1],
        ) by {
            assert(trace[i].step(trace[i + 1]));
        }
        all_leave_a_quiet_pool(shorter);
        let n = trace.len() - 2;
        assert(shorter[n] == trace[n]);
        assert(trace[n].step(trace[n + 1]));
        quiet_is_final(trace[n], trace[n + 1]);
        assert forall|i: int| 0 <= i < trace.len() implies (#[trigger] trace[i]).quiet()
            && trace[i].exited == trace[0].exited + i && trace[i].idle + i == trace[0].idle by {
            if i < shorter.len() {
                assert(shorter[i] == trace[i]);
            }
        }
    }
}

} // verus!
