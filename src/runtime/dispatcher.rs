//! A bounded first-in first-out task dispatcher with competing consumers.
use vstd::prelude::*;

verus! {

/// Why a submission was not accepted.
#[derive(Clone, Copy, Debug, PartialEq, Eq, Structural)]
pub enum DispatchError {
    /// The dispatcher has begun shutting down.
    Closed,
    /// Every slot is taken: a blocking producer waits and tries again.
    CapacityExceeded,
}

/// A unit of work: the sequence number given at submission, and its payload.
pub struct Task<T> {
    pub id: u64,
    pub payload: T,
}

/// What a worker that asks for work is told.
pub enum NextTask<T> {
    /// Run the enclosed task; nobody else will be handed it.
    Run(Task<T>),
    /// Nothing is queued yet: wait for a submission or for shutdown.
    Idle,
    /// The dispatcher is shut down and drained: terminate.
    Finished,
}

/// A bounded first-in first-out channel of tasks with competing consumers.
/// Tasks are numbered from zero in order of acceptance; the queue always
/// holds a run of consecutive numbers, and every smaller number has been
/// handed to exactly one worker.
pub struct TaskDispatcher<T> {
    queue: Vec<Task<T>>,
    capacity: usize,
    next_id: u64,
    closed: bool,
}

impl<T> TaskDispatcher<T> {
    /// The capacity asked for at construction; zero means hand-off.
    pub closed spec fn capacity(&self) -> nat {
        self.capacity as nat
    }

    /// How many tasks may wait in the queue at once: the capacity, and one
    /// hand-off slot when the capacity is zero.
    pub open spec fn slots(&self) -> nat {
        if self.capacity() == 0 {
            1
        } else {
            self.capacity()
        }
    }

    /// The number of tasks accepted so far; also the id the next one gets.
    pub closed spec fn issued(&self) -> nat {
        self.next_id as nat
    }

    /// The ids of the queued tasks, oldest first.
    pub closed spec fn queued(&self) -> Seq<u64> {
        self.queue@.map_values(|t: Task<T>| t.id)
    }

    /// The payloads of the queued tasks, oldest first.
    pub closed spec fn payloads(&self) -> Seq<T> {
        self.queue@.map_values(|t: Task<T>| t.payload)
    }

    /// The number of tasks handed to workers so far; they are exactly the
    /// ids below this number.
    pub open spec fn delivered(&self) -> nat {
        (self.issued() - self.queued().len()) as nat
    }

    pub closed spec fn is_closed(&self) -> bool {
        self.closed
    }

    pub closed spec fn wf(&self) -> bool {
        &&& self.queue.len() <= self.next_id
        &&& self.queue.len() <= (if self.capacity == 0 { 1 } else { self.capacity as int })
        &&& forall|i: int|
            0 <= i < self.queue.len() ==> #[trigger] self.queue[i].id == self.next_id
                - self.queue.len() + i
    }

    /// An open, empty dispatcher with the given capacity.
    pub fn new(capacity: usize) -> (r: TaskDispatcher<T>)
        ensures
            r.wf(),
            r.capacity() == capacity,
            r.issued() == 0,
            r.queued().len() == 0,
            r.payloads().len() == 0,
            !r.is_closed(),
    {
        TaskDispatcher { queue: Vec::new(), capacity, next_id: 0, closed: false }
    }

    /// Offers a task. It is refused with `Closed` once shutdown has begun,
    /// else with `CapacityExceeded` while every slot is taken (the payload is
    /// handed back in both cases); otherwise it is queued under the next id.
    pub fn submit(&mut self, payload: T) -> (r: Result<u64, (DispatchError, T)>)
        requires
            old(self).wf(),
            old(self).issued() < u64::MAX,
        ensures
            final(self).wf(),
            final(self).capacity() == old(self).capacity(),
            final(self).is_closed() == old(self).is_closed(),
            old(self).is_closed() ==> (r matches Err(e) && e.0 == DispatchError::Closed),
            !old(self).is_closed() && old(self).queued().len() >= old(self).slots()
                ==> (r matches Err(e) && e.0 == DispatchError::CapacityExceeded),
            r is Ok <==> !old(self).is_closed() && old(self).queued().len() < old(self).slots(),
            r matches Err(e) ==> e.1 == payload && final(self).issued() == old(self).issued()
                && final(self).queued() == old(self).queued() && final(self).payloads() == old(
                self,
            ).payloads(),
            r matches Ok(id) ==> id == old(self).issued() && final(self).issued() == old(
                self,
            ).issued() + 1 && final(self).queued() == old(self).queued().push(id)
                && final(self).payloads() == old(self).payloads().push(payload),
    {
        if self.closed {
            return Err((DispatchError::Closed, payload));
        }
        let slots = if self.capacity == 0 { 1 } else { self.capacity };
        if self.queue.len() >= slots {
            return Err((DispatchError::CapacityExceeded, payload));
        }
        let id = self.next_id;
        let ghost before = self.queued();
        let ghost before_payloads = self.payloads();
        self.queue.push(Task { id, payload });
        self.next_id = self.next_id + 1;
        assert(self.queued() =~= before.push(id));
        assert(self.payloads() =~= before_payloads.push(payload));
        Ok(id)
    }

    /// A worker asks for work. The oldest queued task is handed over and
    /// leaves the queue; with nothing queued the worker is told to wait, or
    /// to terminate once the dispatcher is closed.
    pub fn next(&mut self) -> (r: NextTask<T>)
        requires
            old(self).wf(),
        ensures
            final(self).wf(),
            final(self).capacity() == old(self).capacity(),
            final(self).is_closed() == old(self).is_closed(),
            final(self).issued() == old(self).issued(),
            old(self).queued().len() > 0 ==> (r matches NextTask::Run(t) && t.id == old(
                self,
            ).queued()[0] && t.id == old(self).delivered() && t.payload == old(
                self,
            ).payloads()[0]),
            old(self).queued().len() > 0 ==> final(self).queued() == old(self).queued().drop_first()
                && final(self).payloads() == old(self).payloads().drop_first(),
            old(self).queued().len() == 0 ==> final(self).payloads() == old(self).payloads(),
            old(self).queued().len() == 0 ==> final(self).queued() == old(self).queued() && (
            if old(self).is_closed() {
                r is Finished
            } else {
                r is Idle
            }),
    {
        if self.queue.len() > 0 {
            let ghost before = self.queued();
            let ghost before_payloads = self.payloads();
            let t = self.queue.remove(0);
            proof {
                assert(self.queued() =~= before.drop_first());
                assert(self.payloads() =~= before_payloads.drop_first());
                assert(old(self).queue[0].payload == before_payloads[0]);
                assert forall|i: int| 0 <= i < self.queue.len() implies #[trigger] self.queue[i].id
                    == self.next_id - self.queue.len() + i by {
                    assert(self.queue[i] == old(self).queue[i + 1]);
                }
                assert(old(self).queue[0].id == old(self).queued()[0]);
            }
            NextTask::Run(t)
        } else if self.closed {
            NextTask::Finished
        } else {
            NextTask::Idle
        }
    }

    /// Begins shutdown: no submission is accepted from now on, and what is
    /// queued still drains to workers.
    pub fn close(&mut self)
        requires
            old(self).wf(),
        ensures
            final(self).wf(),
            final(self).is_closed(),
            final(self).capacity() == old(self).capacity(),
            final(self).issued() == old(self).issued(),
            final(self).queued() == old(self).queued(),
            final(self).payloads() == old(self).payloads(),
    {
        self.closed = true;
    }

    /// Whether shutdown has begun.
    pub fn is_shut_down(&self) -> (r: bool)
        ensures
            r == self.is_closed(),
    {
        self.closed
    }

    /// The number of queued tasks.
    pub fn pending(&self) -> (r: usize)
        ensures
            r == self.queued().len(),
    {
        self.queue.len()
    }

    /// The number of tasks accepted so far.
    pub fn accepted(&self) -> (r: u64)
        ensures
            r == self.issued(),
    {
        self.next_id
    }

    /// The queue is a run of consecutive ids ending just below `issued()`:
    /// each id is queued once at most, and the ids below `delivered()` are
    /// exactly those no longer queued.
    pub proof fn lemma_queue_shape(&self)
        requires
            self.wf(),
        ensures
            self.issued() <= u64::MAX,
            self.queued().len() <= self.issued(),
            forall|i: int|
                0 <= i < self.queued().len() ==> #[trigger] self.queued()[i] == self.delivered()
                    + i,
            self.queued().no_duplicates(),
    {
        assert forall|i: int, j: int|
            0 <= i < self.queued().len() && 0 <= j < self.queued().len() && i != j implies
            self.queued()[i] != self.queued()[j] by {
            assert(self.queue[i].id == self.next_id - self.queue.len() + i);
            assert(self.queue[j].id == self.next_id - self.queue.len() + j);
        }
        assert forall|i: int|
            0 <= i < self.queued().len() implies #[trigger] self.queued()[i] == self.delivered()
            + i by {
            assert(self.queue[i].id == self.next_id - self.queue.len() + i);
        }
    }
}

} // verus!
