//! A worker pool over a dispatcher, with per-task failure accounting and graceful shutdown.
use crate::runtime::dispatcher::{DispatchError, NextTask, TaskDispatcher};
use vstd::prelude::*;

verus! {

/// Raised when a pool is built with no workers.
#[derive(Clone, Copy, Debug, PartialEq, Eq, Structural)]
pub enum PoolError {
    ZeroWorkers,
}

/// Where one worker stands.
#[derive(Clone, Copy, Debug, PartialEq, Eq, Structural)]
pub enum WorkerState {
    /// Ready to ask for work.
    Idle,
    /// Executing the task with this id.
    Running(u64),
    /// Saw the dispatcher closed and drained, and terminated.
    Stopped,
}

/// The number of workers in `ws` that are executing a task.
pub open spec fn running_count(ws: Seq<WorkerState>) -> nat
    decreases ws.len(),
{
    if ws.len() == 0 {
        0
    } else {
        running_count(ws.drop_last()) + if ws.last() is Running {
            1nat
        } else {
            0nat
        }
    }
}

proof fn lemma_running_update(ws: Seq<WorkerState>, i: int, v: WorkerState)
    requires
        0 <= i < ws.len(),
    ensures
        running_count(ws.update(i, v)) + (if ws[i] is Running {
            1nat
        } else {
            0nat
        }) == running_count(ws) + (if v is Running {
            1nat
        } else {
            0nat
        }),
    decreases ws.len(),
{
    let u = ws.update(i, v);
    if i < ws.len() - 1 {
        assert(u.drop_last() =~= ws.drop_last().update(i, v));
        lemma_running_update(ws.drop_last(), i, v);
    } else {
        assert(u.drop_last() =~= ws.drop_last());
    }
}

proof fn lemma_none_running(ws: Seq<WorkerState>)
    requires
        forall|i: int| 0 <= i < ws.len() ==> ws[i] is Stopped,
    ensures
        running_count(ws) == 0,
    decreases ws.len(),
{
    if ws.len() > 0 {
        lemma_none_running(ws.drop_last());
    }
}

/// A fixed set of workers fed by a dispatcher, as the state machine that a
/// threaded host drives: each worker asks for work, runs what it is handed,
/// and reports whether the task succeeded; a failed task is counted and the
/// worker carries on.
pub struct WorkerPool<T> {
    dispatcher: TaskDispatcher<T>,
    workers: Vec<WorkerState>,
    completed: u64,
    failed: u64,
    finished: Ghost<Seq<u64>>,
}

impl<T> WorkerPool<T> {
    /// The ids of the tasks that ended, completed or failed, in the order
    /// they ended.
    pub closed spec fn finished(&self) -> Seq<u64> {
        self.finished@
    }

    pub closed spec fn dispatcher(&self) -> TaskDispatcher<T> {
        self.dispatcher
    }

    pub closed spec fn workers(&self) -> Seq<WorkerState> {
        self.workers@
    }

    /// Tasks that ran to the end.
    pub closed spec fn completed(&self) -> nat {
        self.completed as nat
    }

    /// Tasks whose payload failed.
    pub closed spec fn failed(&self) -> nat {
        self.failed as nat
    }

    /// No two workers run the same task; every task a worker runs was handed
    /// out by the dispatcher; every handed-out task is running or accounted
    /// for as completed or failed; and a worker stops only once the
    /// dispatcher is closed and drained.
    pub closed spec fn wf(&self) -> bool {
        &&& self.dispatcher.wf()
        &&& self.workers.len() > 0
        &&& forall|i: int, j: int|
            0 <= i < self.workers.len() && 0 <= j < self.workers.len() && i != j
                && self.workers[i] is Running && self.workers[j] is Running
                ==> self.workers[i]->Running_0 != self.workers[j]->Running_0
        &&& forall|i: int|
            0 <= i < self.workers.len() && #[trigger] self.workers[i] is Running
                ==> self.workers[i]->Running_0 < self.dispatcher.delivered()
        &&& self.completed + self.failed + running_count(self.workers@)
            == self.dispatcher.delivered()
        &&& self.finished@.len() == self.completed + self.failed
        &&& self.finished@.no_duplicates()
        &&& forall|j: int|
            0 <= j < self.finished@.len() ==> #[trigger] self.finished@[j]
                < self.dispatcher.delivered()
        &&& forall|i: int, j: int|
            0 <= i < self.workers.len() && 0 <= j < self.finished@.len()
                && self.workers[i] is Running ==> self.workers[i]->Running_0
                != self.finished@[j]
        &&& forall|id: u64|
            id < self.dispatcher.delivered() ==> self.finished@.contains(id) || exists|i: int|
                0 <= i < self.workers.len() && #[trigger] self.workers[i] == WorkerState::Running(id)
        &&& forall|i: int|
            0 <= i < self.workers.len() && #[trigger] self.workers[i] is Stopped
                ==> self.dispatcher.is_closed() && self.dispatcher.queued().len() == 0
    }

    /// A pool of `n` idle workers (ids `0..n`) over `dispatcher`, which no
    /// worker has taken from yet. Zero workers are refused.
    pub fn new(n: usize, dispatcher: TaskDispatcher<T>) -> (r: Result<WorkerPool<T>, PoolError>)
        requires
            dispatcher.wf(),
            dispatcher.delivered() == 0,
        ensures
            r is Err <==> n == 0,
            r matches Err(e) ==> e == PoolError::ZeroWorkers,
            r matches Ok(p) ==> p.wf() && p.dispatcher() == dispatcher && p.workers().len() == n
                && (forall|i: int| 0 <= i < n ==> p.workers()[i] == WorkerState::Idle)
                && p.completed() == 0 && p.failed() == 0 && p.finished().len() == 0,
    {
        if n == 0 {
            return Err(PoolError::ZeroWorkers);
        }
        let mut workers: Vec<WorkerState> = Vec::new();
        let mut i: usize = 0;
        while i < n
            invariant
                i <= n,
                workers.len() == i,
                forall|j: int| 0 <= j < i ==> workers[j] == WorkerState::Idle,
            decreases n - i,
        {
            workers.push(WorkerState::Idle);
            i += 1;
        }
        proof {
            assert forall|j: int| 0 <= j <= workers.len() implies running_count(
                #[trigger] workers@.subrange(0, j),
            ) == 0 by {
                lemma_idle_prefix(workers@, j);
            }
            assert(workers@.subrange(0, workers.len() as int) =~= workers@);
        }
        let finished: Ghost<Seq<u64>> = Ghost(Seq::empty());
        Ok(WorkerPool { dispatcher, workers, completed: 0, failed: 0, finished })
    }

    /// The number of workers.
    pub fn worker_count(&self) -> (r: usize)
        ensures
            r == self.workers().len(),
    {
        self.workers.len()
    }

    /// The state of worker `w`.
    pub fn worker(&self, w: usize) -> (r: WorkerState)
        requires
            w < self.workers().len(),
        ensures
            r == self.workers()[w as int],
    {
        self.workers[w]
    }

    /// Submits a task through the dispatcher; see `TaskDispatcher::submit`.
    pub fn submit(&mut self, payload: T) -> (r: Result<u64, (DispatchError, T)>)
        requires
            old(self).wf(),
            old(self).dispatcher().issued() < u64::MAX,
        ensures
            final(self).wf(),
            final(self).workers() == old(self).workers(),
            final(self).completed() == old(self).completed(),
            final(self).failed() == old(self).failed(),
            final(self).finished() == old(self).finished(),
            final(self).dispatcher().is_closed() == old(self).dispatcher().is_closed(),
            final(self).dispatcher().capacity() == old(self).dispatcher().capacity(),
            old(self).dispatcher().is_closed() ==> (r matches Err(e) && e.0
                == DispatchError::Closed),
            r is Ok <==> !old(self).dispatcher().is_closed() && old(self).dispatcher().queued().len()
                < old(self).dispatcher().slots(),
            r matches Err(e) ==> e.1 == payload && final(self).dispatcher().issued() == old(
                self,
            ).dispatcher().issued() && final(self).dispatcher().queued() == old(
                self,
            ).dispatcher().queued(),
            r matches Ok(id) ==> id == old(self).dispatcher().issued()
                && final(self).dispatcher().issued() == old(self).dispatcher().issued() + 1
                && final(self).dispatcher().queued() == old(self).dispatcher().queued().push(id)
                && final(self).dispatcher().payloads() == old(
                self,
            ).dispatcher().payloads().push(payload),
    {
        self.dispatcher.submit(payload)
    }

    /// Idle worker `w` asks for work. It is handed the oldest queued task and
    /// starts running it, or is told to wait, or stops once the dispatcher is
    /// closed and drained.
    pub fn next_for(&mut self, w: usize) -> (r: NextTask<T>)
        requires
            old(self).wf(),
            w < old(self).workers().len(),
            old(self).workers()[w as int] == WorkerState::Idle,
        ensures
            final(self).wf(),
            final(self).completed() == old(self).completed(),
            final(self).failed() == old(self).failed(),
            final(self).finished() == old(self).finished(),
            final(self).dispatcher().issued() == old(self).dispatcher().issued(),
            final(self).dispatcher().is_closed() == old(self).dispatcher().is_closed(),
            old(self).dispatcher().queued().len() > 0 ==> (r matches NextTask::Run(t) && t.id
                == old(self).dispatcher().delivered() && t.payload == old(
                self,
            ).dispatcher().payloads()[0] && final(self).workers() == old(self).workers().update(
                w as int,
                WorkerState::Running(t.id),
            )),
            old(self).dispatcher().queued().len() > 0 ==> final(self).dispatcher().queued()
                == old(self).dispatcher().queued().drop_first(),
            old(self).dispatcher().queued().len() == 0 ==> final(self).dispatcher().queued()
                == old(self).dispatcher().queued() && (if old(self).dispatcher().is_closed() {
                r is Finished && final(self).workers() == old(self).workers().update(
                    w as int,
                    WorkerState::Stopped,
                )
            } else {
                r is Idle && final(self).workers() == old(self).workers()
            }),
    {
        let r = self.dispatcher.next();
        let ghost before = old(self).workers@;
        match &r {
            NextTask::Run(t) => {
                self.workers.set(w, WorkerState::Running(t.id));
                proof {
                    lemma_running_update(before, w as int, WorkerState::Running(t.id));
                    assert(old(self).dispatcher.queued().len() > 0);
                    assert(t.id == old(self).dispatcher.delivered());
                    old(self).dispatcher.lemma_queue_shape();
                    assert(self.dispatcher.delivered() == old(self).dispatcher.delivered() + 1);
                    assert forall|i: int|
                        0 <= i < self.workers.len() && #[trigger] self.workers[i] is Running
                        implies self.workers[i]->Running_0 < self.dispatcher.delivered() by {
                        if i != w {
                            assert(self.workers[i] == before[i]);
                        }
                    }
                    assert forall|i: int, j: int|
                        0 <= i < self.workers.len() && 0 <= j < self.workers.len() && i != j
                            && self.workers[i] is Running && self.workers[j] is Running
                            implies self.workers[i]->Running_0 != self.workers[j]->Running_0 by {
                        if i != w {
                            assert(self.workers[i] == before[i]);
                        }
                        if j != w {
                            assert(self.workers[j] == before[j]);
                        }
                    }
                    assert forall|i: int|
                        0 <= i < self.workers.len() && #[trigger] self.workers[i] is Stopped
                        implies self.dispatcher.is_closed() && self.dispatcher.queued().len() == 0 by {
                        assert(self.workers[i] == before[i]);
                    }
                    assert forall|i: int, j: int|
                        0 <= i < self.workers.len() && 0 <= j < self.finished@.len()
                            && self.workers[i] is Running implies self.workers[i]->Running_0
                        != self.finished@[j] by {
                        if i != w {
                            assert(self.workers[i] == before[i]);
                        }
                    }
                    assert forall|id: u64| id < self.dispatcher.delivered() implies self.finished@.contains(id)
                        || exists|i: int|
                        0 <= i < self.workers.len() && #[trigger] self.workers[i]
                            == WorkerState::Running(id) by {
                        if id == t.id {
                            assert(self.workers[w as int] == WorkerState::Running(id));
                        } else if !self.finished@.contains(id) {
                            let i = choose|i: int|
                                0 <= i < before.len() && #[trigger] before[i] == WorkerState::Running(id);
                            assert(i != w);
                            assert(self.workers[i] == before[i]);
                        }
                    }
                }
            },
            NextTask::Finished => {
                self.workers.set(w, WorkerState::Stopped);
                proof {
                    lemma_running_update(before, w as int, WorkerState::Stopped);
                    assert forall|i: int, j: int|
                        0 <= i < self.workers.len() && 0 <= j < self.finished@.len()
                            && self.workers[i] is Running implies self.workers[i]->Running_0
                        != self.finished@[j] by {
                        assert(self.workers[i] == before[i]);
                    }
                    assert forall|id: u64| id < self.dispatcher.delivered() implies self.finished@.contains(id)
                        || exists|i: int|
                        0 <= i < self.workers.len() && #[trigger] self.workers[i]
                            == WorkerState::Running(id) by {
                        if !self.finished@.contains(id) {
                            let i = choose|i: int|
                                0 <= i < before.len() && #[trigger] before[i] == WorkerState::Running(id);
                            assert(self.workers[i] == before[i]);
                        }
                    }
                }
            },
            NextTask::Idle => {},
        }
        r
    }

    /// Worker `w` reports the end of its task: it is counted as completed or
    /// as failed, and the worker becomes idle again.
    pub fn finish(&mut self, w: usize, succeeded: bool)
        requires
            old(self).wf(),
            w < old(self).workers().len(),
            old(self).workers()[w as int] is Running,
        ensures
            final(self).wf(),
            final(self).workers() == old(self).workers().update(w as int, WorkerState::Idle),
            final(self).dispatcher() == old(self).dispatcher(),
            final(self).finished() == old(self).finished().push(
                old(self).workers()[w as int]->Running_0,
            ),
            final(self).completed() == old(self).completed() + (if succeeded {
                1nat
            } else {
                0nat
            }),
            final(self).failed() == old(self).failed() + (if succeeded {
                0nat
            } else {
                1nat
            }),
    {
        let ghost before = self.workers@;
        proof {
            lemma_running_update(before, w as int, WorkerState::Idle);
            self.dispatcher.lemma_queue_shape();
        }
        let ghost id = before[w as int]->Running_0;
        self.workers.set(w, WorkerState::Idle);
        if succeeded {
            self.completed = self.completed + 1;
        } else {
            self.failed = self.failed + 1;
        }
        let finished: Ghost<Seq<u64>> = Ghost(self.finished@.push(id));
        self.finished = finished;
        proof {
            let old_f = old(self).finished@;
            assert(!old_f.contains(id)) by {
                if old_f.contains(id) {
                    let j = choose|j: int| 0 <= j < old_f.len() && old_f[j] == id;
                    assert(before[w as int]->Running_0 != old_f[j]);
                }
            }
            assert forall|a: int, b: int|
                0 <= a < self.finished@.len() && 0 <= b < self.finished@.len() && a != b implies
                self.finished@[a] != self.finished@[b] by {
                if a < old_f.len() && b < old_f.len() {
                    assert(old_f[a] != old_f[b]);
                } else if a < old_f.len() {
                    assert(old_f.contains(old_f[a]));
                } else if b < old_f.len() {
                    assert(old_f.contains(old_f[b]));
                }
            }
            assert forall|j: int| 0 <= j < self.finished@.len() implies #[trigger] self.finished@[j]
                < self.dispatcher.delivered() by {
                if j < old_f.len() {
                    assert(self.finished@[j] == old_f[j]);
                }
            }
            assert forall|i: int, j: int|
                0 <= i < self.workers.len() && 0 <= j < self.finished@.len()
                    && self.workers[i] is Running implies self.workers[i]->Running_0
                != self.finished@[j] by {
                assert(i != w);
                assert(self.workers[i] == before[i]);
                if j < old_f.len() {
                    assert(self.finished@[j] == old_f[j]);
                } else {
                    assert(before[i] is Running && before[w as int] is Running);
                }
            }
            assert forall|x: u64| x < self.dispatcher.delivered() implies self.finished@.contains(x)
                || exists|i: int|
                0 <= i < self.workers.len() && #[trigger] self.workers[i] == WorkerState::Running(
                    x,
                ) by {
                if x == id {
                    assert(self.finished@[old_f.len() as int] == x);
                } else if old_f.contains(x) {
                    let j = choose|j: int| 0 <= j < old_f.len() && old_f[j] == x;
                    assert(self.finished@[j] == x);
                } else {
                    let i = choose|i: int|
                        0 <= i < before.len() && #[trigger] before[i] == WorkerState::Running(x);
                    assert(i != w);
                    assert(self.workers[i] == before[i]);
                }
            }
        }
    }

    /// Closes the dispatcher: no further submission is accepted, queued
    /// tasks still drain, and then every worker that asks is stopped.
    pub fn shutdown(&mut self)
        requires
            old(self).wf(),
        ensures
            final(self).wf(),
            final(self).dispatcher().is_closed(),
            final(self).dispatcher().issued() == old(self).dispatcher().issued(),
            final(self).dispatcher().queued() == old(self).dispatcher().queued(),
            final(self).workers() == old(self).workers(),
            final(self).completed() == old(self).completed(),
            final(self).failed() == old(self).failed(),
            final(self).finished() == old(self).finished(),
    {
        self.dispatcher.close();
    }

    /// Whether every worker has stopped.
    pub fn is_joined(&self) -> (r: bool)
        ensures
            r == (forall|i: int| 0 <= i < self.workers().len() ==> self.workers()[i] is Stopped),
    {
        let mut i: usize = 0;
        while i < self.workers.len()
            invariant
                i <= self.workers.len(),
                forall|j: int| 0 <= j < i ==> self.workers[j] is Stopped,
            decreases self.workers.len() - i,
        {
            if self.workers[i] != WorkerState::Stopped {
                return false;
            }
            i += 1;
        }
        true
    }

    /// The number of tasks that ran to the end.
    pub fn completed_count(&self) -> (r: u64)
        ensures
            r == self.completed(),
    {
        self.completed
    }

    /// The number of tasks whose payload failed.
    pub fn failed_count(&self) -> (r: u64)
        ensures
            r == self.failed(),
    {
        self.failed
    }

    /// The number of tasks accepted so far.
    pub fn accepted(&self) -> (r: u64)
        ensures
            r == self.dispatcher().issued(),
    {
        self.dispatcher.accepted()
    }

    /// Whether shutdown has begun.
    pub fn is_shut_down(&self) -> (r: bool)
        ensures
            r == self.dispatcher().is_closed(),
    {
        self.dispatcher.is_shut_down()
    }
}

proof fn lemma_idle_prefix(ws: Seq<WorkerState>, j: int)
    requires
        0 <= j <= ws.len(),
        forall|k: int| 0 <= k < ws.len() ==> ws[k] == WorkerState::Idle,
    ensures
        running_count(ws.subrange(0, j)) == 0,
    decreases j,
{
    if j > 0 {
        assert(ws.subrange(0, j).drop_last() =~= ws.subrange(0, j - 1));
        lemma_idle_prefix(ws, j - 1);
    }
}

/// No task runs twice: two workers never run the same task, every running
/// task is one the dispatcher already handed out (its id is below
/// `delivered()`), and every task still queued has an id at or above it, so
/// it has not run yet. Since the dispatcher hands out ids in increasing
/// order, a task is handed to one worker at most.
pub proof fn lemma_no_double_execution<T>(p: WorkerPool<T>)
    requires
        p.wf(),
    ensures
        forall|i: int, j: int|
            0 <= i < p.workers().len() && 0 <= j < p.workers().len() && i != j
                && p.workers()[i] is Running && p.workers()[j] is Running
                ==> p.workers()[i]->Running_0 != p.workers()[j]->Running_0,
        forall|i: int|
            0 <= i < p.workers().len() && #[trigger] p.workers()[i] is Running
                ==> p.workers()[i]->Running_0 < p.dispatcher().delivered(),
        forall|k: int|
            0 <= k < p.dispatcher().queued().len() ==> #[trigger] p.dispatcher().queued()[k]
                >= p.dispatcher().delivered(),
{
    p.dispatcher.lemma_queue_shape();
}

/// Graceful shutdown drains: once the pool is shut down and every worker has
/// stopped, nothing is queued, and every accepted task has run exactly once:
/// the ids of the ended tasks are exactly the ids `0..issued()`, each once,
/// and each was counted either as completed or as failed.
pub proof fn lemma_shutdown_drains<T>(p: WorkerPool<T>)
    requires
        p.wf(),
        forall|i: int| 0 <= i < p.workers().len() ==> p.workers()[i] is Stopped,
    ensures
        p.dispatcher().is_closed(),
        p.dispatcher().queued().len() == 0,
        p.completed() + p.failed() == p.dispatcher().issued(),
        p.finished().len() == p.dispatcher().issued(),
        p.finished().no_duplicates(),
        forall|id: u64| id < p.dispatcher().issued() <==> p.finished().contains(id),
{
    assert forall|id: u64| id < p.dispatcher().issued() implies p.finished().contains(id) by {
        if !p.finished@.contains(id) {
            let i = choose|i: int|
                0 <= i < p.workers.len() && #[trigger] p.workers[i] == WorkerState::Running(id);
            assert(p.workers()[i] is Stopped);
        }
    }
    assert forall|id: u64| p.finished().contains(id) implies id < p.dispatcher().issued() by {
        let j = choose|j: int| 0 <= j < p.finished@.len() && p.finished@[j] == id;
        assert(p.finished@[j] < p.dispatcher.delivered());
    }
    assert forall|i: int| 0 <= i < p.workers@.len() implies #[trigger] p.workers@[i] is Stopped by {
        assert(p.workers()[i] is Stopped);
    }
    lemma_none_running(p.workers@);
    assert(p.workers()[0] is Stopped);
}

} // verus!
