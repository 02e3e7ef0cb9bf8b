use std::collections::VecDeque;
use vstd::prelude::*;
use crate::error::{PoolClosed, PoolCreationError, creation_message};
use crate::message::{Message, Step, payload};
use crate::worker::{
    Worker,
    WorkerState,
    running_count,
    lemma_running_count_all,
    lemma_running_count_bound,
    lemma_running_count_stop,
    lemma_running_count_zero,
};

verus! {

/// The abstract state of a pool.
pub struct PoolView<J> {
    /// Messages sent and not yet taken, oldest first.
    pub queue: Seq<Message<J>>,
    /// The state of each worker, by identity.
    pub workers: Seq<WorkerState>,
    /// Whether jobs are still accepted.
    pub open: bool,
    /// Every job accepted, in the order of submission.
    pub submitted: Seq<J>,
    /// Every job handed to a worker, in the order they were taken.
    pub delivered: Seq<J>,
}

/// `n` terminate messages.
pub open spec fn terminates<J>(n: nat) -> Seq<Message<J>> {
    Seq::new(n, |i: int| Message::Terminate)
}

impl<J> PoolView<J> {
    /// The state of a pool just built with `size` workers.
    pub open spec fn initial(size: nat) -> PoolView<J> {
        PoolView {
            queue: Seq::empty(),
            workers: Seq::new(size, |i: int| WorkerState::Running),
            open: true,
            submitted: Seq::empty(),
            delivered: Seq::empty(),
        }
    }

    /// How many terminate messages wait at the back of the queue.
    pub open spec fn pending_terminates(self) -> nat {
        if self.open {
            0
        } else {
            running_count(self.workers)
        }
    }

    /// How many jobs wait at the front of the queue.
    pub open spec fn pending_jobs(self) -> int {
        self.queue.len() - self.pending_terminates()
    }

    /// The jobs waiting in the queue, oldest first.
    pub open spec fn queued_jobs(self) -> Seq<J> {
        self.queue.subrange(0, self.pending_jobs()).map_values(|m: Message<J>| payload(m))
    }

    pub open spec fn all_stopped(self) -> bool {
        forall|i: int| 0 <= i < self.workers.len() ==> self.workers[i] == WorkerState::Stopped
    }

    /// The queue holds the waiting jobs followed by one terminate message
    /// per running worker; no job is lost or duplicated between submission
    /// and delivery; a terminate is taken only once every job before it was.
    pub open spec fn wf(self) -> bool {
        &&& self.workers.len() > 0
        &&& self.open ==> forall|i: int|
            0 <= i < self.workers.len() ==> self.workers[i] == WorkerState::Running
        &&& self.pending_terminates() <= self.queue.len()
        &&& forall|i: int| 0 <= i < self.pending_jobs() ==> self.queue[i] is NewJob
        &&& forall|i: int|
            self.pending_jobs() <= i < self.queue.len() ==> self.queue[i] is Terminate
        &&& (!self.open && running_count(self.workers) < self.workers.len()) ==> self.pending_jobs()
            == 0
        &&& self.submitted == self.delivered + self.queued_jobs()
    }

    /// The state after a job is submitted: queued when the pool is open,
    /// refused otherwise.
    pub open spec fn after_execute(self, job: J) -> PoolView<J> {
        if self.open {
            PoolView {
                queue: self.queue.push(Message::NewJob(job)),
                submitted: self.submitted.push(job),
                ..self
            }
        } else {
            self
        }
    }

    /// The state after shutdown: an open pool is closed and one terminate
    /// message per worker is queued; a closed pool is left as it is.
    pub open spec fn after_shutdown(self) -> PoolView<J> {
        if self.open {
            PoolView {
                queue: self.queue + terminates(self.workers.len()),
                open: false,
                ..self
            }
        } else {
            self
        }
    }

    /// What worker `w` is told when it asks for its next message.
    pub open spec fn step_for(self, w: int) -> Step<J> {
        if self.queue.len() == 0 {
            Step::Wait
        } else {
            match self.queue[0] {
                Message::NewJob(j) => Step::Run(j),
                Message::Terminate => Step::Exit,
            }
        }
    }

    /// The state after worker `w` asks for its next message: the oldest
    /// message is taken, a job is recorded as delivered, a terminate stops
    /// the worker.
    pub open spec fn after_step(self, w: int) -> PoolView<J> {
        if self.queue.len() == 0 {
            self
        } else {
            match self.queue[0] {
                Message::NewJob(j) => PoolView {
                    queue: self.queue.drop_first(),
                    delivered: self.delivered.push(j),
                    ..self
                },
                Message::Terminate => PoolView {
                    queue: self.queue.drop_first(),
                    workers: self.workers.update(w, WorkerState::Stopped),
                    ..self
                },
            }
        }
    }
}

/// The shared state of a fixed-size worker pool.
pub struct ThreadPool<J> {
    workers: Vec<Worker>,
    queue: VecDeque<Message<J>>,
    open: bool,
    submitted: Ghost<Seq<J>>,
    delivered: Ghost<Seq<J>>,
}

impl<J> View for ThreadPool<J> {
    type V = PoolView<J>;

    closed spec fn view(&self) -> PoolView<J> {
        PoolView {
            queue: self.queue@,
            workers: self.workers@.map_values(|w: Worker| w.spec_state()),
            open: self.open,
            submitted: self.submitted@,
            delivered: self.delivered@,
        }
    }
}

impl<J> ThreadPool<J> {
    /// The abstract state is well formed, and worker `i` has identity `i`.
    pub closed spec fn inv(&self) -> bool {
        &&& self@.wf()
        &&& forall|i: int| 0 <= i < self.workers.len() ==> (#[trigger] self.workers@[i]).spec_id() == i
    }

    /// A pool's abstract state is well formed, so the laws on `PoolView`
    /// apply to it.
    pub proof fn lemma_inv_wf(&self)
        requires
            self.inv(),
        ensures
            self@.wf(),
    {
    }

    /// A pool of `size` running workers with an empty queue; a size of zero
    /// is refused.
    pub fn new(size: usize) -> (r: Result<ThreadPool<J>, PoolCreationError>)
        ensures
            r is Ok <==> size > 0,
            match r {
                Ok(pool) => {
                    &&& pool.inv()
                    &&& pool@ == PoolView::<J>::initial(size as nat)
                    &&& running_count(pool@.workers) == size
                },
                Err(e) => e.text() == creation_message(),
            },
    {
        if size == 0 {
            return Err(PoolCreationError::invalid_size());
        }
        let mut workers: Vec<Worker> = Vec::with_capacity(size);
        let mut id: usize = 0;
        while id < size
            invariant
                id <= size,
                workers@.len() == id,
                forall|i: int| 0 <= i < id ==> (#[trigger] workers@[i]).spec_id() == i
                    && workers@[i].spec_state() == WorkerState::Running,
            decreases size - id,
        {
            workers.push(Worker::new(id));
            id = id + 1;
        }
        let pool = ThreadPool {
            workers,
            queue: VecDeque::new(),
            open: true,
            submitted: Ghost(Seq::empty()),
            delivered: Ghost(Seq::empty()),
        };
        proof {
            let v = pool@;
            assert(v.workers =~= Seq::new(size as nat, |i: int| WorkerState::Running));
            assert(v.queued_jobs() =~= Seq::empty());
            assert(v.submitted =~= v.delivered + v.queued_jobs());
            lemma_running_count_all(v.workers);
        }
        Ok(pool)
    }

    /// Submits a job. An open pool queues it behind every earlier message;
    /// a pool that has begun to shut down refuses it and is left unchanged.
    pub fn execute(&mut self, job: J) -> (r: Result<(), PoolClosed>)
        requires
            old(self).inv(),
        ensures
            final(self).inv(),
            r is Ok <==> old(self)@.open,
            r is Err ==> r == Err::<(), PoolClosed>(PoolClosed),
            final(self)@ == old(self)@.after_execute(job),
    {
        if !self.open {
            return Err(PoolClosed);
        }
        let ghost v = self@;
        self.queue.push_back(Message::NewJob(job));
        self.submitted = Ghost(self.submitted@.push(job));
        proof {
            let u = self@;
            assert(u.workers =~= v.workers);
            assert(u.queued_jobs() =~= v.queued_jobs().push(job));
            assert(u.submitted =~= u.delivered + u.queued_jobs());
            assert(u =~= v.after_execute(job));
        }
        Ok(())
    }

    /// Begins the shutdown: an open pool stops accepting jobs and queues one
    /// terminate message per worker, behind every job already queued.
    /// Returns whether this call began it; on a pool already shut down it
    /// changes nothing.
    pub fn shutdown(&mut self) -> (r: bool)
        requires
            old(self).inv(),
        ensures
            final(self).inv(),
            r == old(self)@.open,
            final(self)@ == old(self)@.after_shutdown(),
    {
        if !self.open {
            return false;
        }
        let ghost v = self@;
        let n = self.workers.len();
        let mut i: usize = 0;
        while i < n
            invariant
                i <= n,
                n == self.workers.len(),
                self.workers == old(self).workers,
                self.open == old(self).open,
                self.submitted == old(self).submitted,
                self.delivered == old(self).delivered,
                self.queue@ == v.queue + terminates::<J>(i as nat),
            decreases n - i,
        {
            self.queue.push_back(Message::Terminate);
            assert(self.queue@ =~= v.queue + terminates::<J>((i + 1) as nat));
            i = i + 1;
        }
        self.open = false;
        proof {
            let u = self@;
            assert(u.workers =~= v.workers);
            lemma_running_count_all(v.workers);
            assert(u.pending_jobs() == v.queue.len());
            assert(u.queue.subrange(0, u.pending_jobs()) =~= v.queue);
            assert(v.queue.subrange(0, v.pending_jobs()) =~= v.queue);
            assert(u.queued_jobs() =~= v.queued_jobs());
            assert(u =~= v.after_shutdown());
        }
        true
    }

    /// Worker `w` asks for its next message. An empty queue tells it to
    /// wait; otherwise the oldest message is taken: a job is handed out to
    /// be run, a terminate message stops the worker.
    pub fn next_step(&mut self, w: usize) -> (r: Step<J>)
        requires
            old(self).inv(),
            w < old(self)@.workers.len(),
            old(self)@.workers[w as int] == WorkerState::Running,
        ensures
            final(self).inv(),
            r == old(self)@.step_for(w as int),
            final(self)@ == old(self)@.after_step(w as int),
    {
        let ghost v = self@;
        match self.queue.pop_front() {
            None => Step::Wait,
            Some(message) => {
                let mut worker = self.workers[w];
                let taken = worker.handle(message);
                match taken {
                    Some(job) => {
                        self.delivered = Ghost(self.delivered@.push(job));
                        proof {
                            let u = self@;
                            assert(u.workers =~= v.workers);
                            assert(v.queued_jobs() =~= seq![job] + u.queued_jobs());
                            assert(u.submitted =~= u.delivered + u.queued_jobs());
                            assert(u =~= v.after_step(w as int));
                        }
                        Step::Run(job)
                    },
                    None => {
                        self.workers.set(w, worker);
                        proof {
                            let u = self@;
                            assert(u.workers =~= v.workers.update(w as int, WorkerState::Stopped));
                            lemma_running_count_stop(v.workers, w as int);
                            lemma_running_count_bound(v.workers);
                            assert(v.pending_jobs() == 0);
                            assert(u.queued_jobs() =~= Seq::<J>::empty());
                            assert(v.queued_jobs() =~= Seq::<J>::empty());
                            assert(u.submitted =~= u.delivered + u.queued_jobs());
                            assert(u =~= v.after_step(w as int));
                        }
                        Step::Exit
                    },
                }
            },
        }
    }


    /// The number of workers, fixed when the pool was built.
    pub fn size(&self) -> (r: usize)
        requires
            self.inv(),
        ensures
            r == self@.workers.len(),
    {
        self.workers.len()
    }

    /// Whether jobs are still accepted.
    pub fn is_open(&self) -> (r: bool)
        ensures
            r == self@.open,
    {
        self.open
    }

    /// The number of messages sent and not yet taken.
    pub fn pending(&self) -> (r: usize)
        ensures
            r == self@.queue.len(),
    {
        self.queue.len()
    }

    /// The state of worker `w`.
    pub fn worker_state(&self, w: usize) -> (r: WorkerState)
        requires
            w < self@.workers.len(),
        ensures
            r == self@.workers[w as int],
    {
        self.workers[w].state()
    }

    /// The identity of worker `w`, which is `w` itself.
    pub fn worker_id(&self, w: usize) -> (r: usize)
        requires
            self.inv(),
            w < self@.workers.len(),
        ensures
            r == w,
    {
        self.workers[w].id()
    }

    /// Whether every worker has stopped.
    pub fn all_stopped(&self) -> (r: bool)
        ensures
            r == self@.all_stopped(),
    {
        let mut i: usize = 0;
        while i < self.workers.len()
            invariant
                i <= self.workers.len(),
                forall|k: int| 0 <= k < i ==> self@.workers[k] == WorkerState::Stopped,
            decreases self.workers.len() - i,
        {
            if self.workers[i].state() != WorkerState::Stopped {
                assert(self@.workers[i as int] != WorkerState::Stopped);
                return false;
            }
            i = i + 1;
        }
        true
    }

}

/// Once a closed pool has no running worker, its queue is empty and every
/// job ever accepted was handed out exactly once, in submission order.
pub proof fn lemma_stopped_pool_delivered_all<J>(v: PoolView<J>)
    requires
        v.wf(),
        !v.open,
        v.all_stopped(),
    ensures
        v.queue.len() == 0,
        v.delivered == v.submitted,
{
    lemma_running_count_zero(v.workers);
    assert(v.queued_jobs() =~= Seq::<J>::empty());
    assert(v.submitted =~= v.delivered);
}

/// After shutdown no worker blocks for ever: the queue of a closed pool is
/// empty exactly when every worker has stopped, and a running worker that
/// asks for a message always takes one, so the number of messages left
/// bounds the steps until every worker has stopped.
pub proof fn lemma_closed_pool_drains<J>(v: PoolView<J>)
    requires
        v.wf(),
        !v.open,
    ensures
        v.queue.len() == 0 <==> v.all_stopped(),
        forall|w: int|
            0 <= w < v.workers.len() && #[trigger] v.workers[w] == WorkerState::Running ==> !(v.step_for(w) is Wait)
                && v.after_step(w).queue.len() + 1 == v.queue.len(),
{
    lemma_running_count_zero(v.workers);
    if v.all_stopped() {
        lemma_stopped_pool_delivered_all(v);
    }
}

/// Shutting a pool down twice leaves it as shutting it down once.
pub proof fn lemma_shutdown_idempotent<J>(v: PoolView<J>)
    requires
        v.wf(),
    ensures
        v.after_shutdown().after_shutdown() == v.after_shutdown(),
        !v.after_shutdown().open,
{
}

/// Once a pool is shut down, a submitted job is refused: it is neither
/// queued nor recorded, and the pool is left unchanged.
pub proof fn lemma_execute_after_shutdown<J>(v: PoolView<J>, job: J)
    requires
        v.wf(),
    ensures
        v.after_shutdown().after_execute(job) == v.after_shutdown(),
{
}

} // verus!
