use vstd::prelude::*;
use crate::message::Message;

verus! {

/// A worker runs until it takes a terminate message, and then never again.
#[derive(Debug, Clone, Copy, PartialEq, Eq, Structural)]
pub enum WorkerState {
    Running,
    Stopped,
}

/// The number of running workers among `ws`.
pub open spec fn running_count(ws: Seq<WorkerState>) -> nat
    decreases ws.len(),
{
    if ws.len() == 0 {
        0
    } else {
        running_count(ws.drop_last()) + if ws.last() == WorkerState::Running {
            1nat
        } else {
            0nat
        }
    }
}

pub proof fn lemma_running_count_bound(ws: Seq<WorkerState>)
    ensures
        running_count(ws) <= ws.len(),
    decreases ws.len(),
{
    if ws.len() > 0 {
        lemma_running_count_bound(ws.drop_last());
    }
}

/// When every worker runs, all of them are counted.
pub proof fn lemma_running_count_all(ws: Seq<WorkerState>)
    requires
        forall|i: int| 0 <= i < ws.len() ==> ws[i] == WorkerState::Running,
    ensures
        running_count(ws) == ws.len(),
    decreases ws.len(),
{
    if ws.len() > 0 {
        lemma_running_count_all(ws.drop_last());
    }
}

/// The count is zero exactly when every worker has stopped.
pub proof fn lemma_running_count_zero(ws: Seq<WorkerState>)
    ensures
        running_count(ws) == 0 <==> forall|i: int| 0 <= i < ws.len() ==> ws[i] == WorkerState::Stopped,
    decreases ws.len(),
{
    if ws.len() > 0 {
        let init = ws.drop_last();
        lemma_running_count_zero(init);
        if running_count(ws) == 0 {
            assert forall|i: int| 0 <= i < ws.len() implies ws[i] == WorkerState::Stopped by {
                if i < init.len() {
                    assert(init[i] == ws[i]);
                }
            }
        }
        if forall|i: int| 0 <= i < ws.len() ==> ws[i] == WorkerState::Stopped {
            assert forall|i: int| 0 <= i < init.len() implies init[i] == WorkerState::Stopped by {
                assert(init[i] == ws[i]);
            }
            assert(ws[ws.len() - 1] == WorkerState::Stopped);
        }
    }
}

/// Stopping one running worker lowers the count by one.
pub proof fn lemma_running_count_stop(ws: Seq<WorkerState>, w: int)
    requires
        0 <= w < ws.len(),
        ws[w] == WorkerState::Running,
    ensures
        running_count(ws.update(w, WorkerState::Stopped)) + 1 == running_count(ws),
    decreases ws.len(),
{
    let vs = ws.update(w, WorkerState::Stopped);
    if w == ws.len() - 1 {
        assert(vs.drop_last() =~= ws.drop_last());
    } else {
        lemma_running_count_stop(ws.drop_last(), w);
        assert(vs.drop_last() =~= ws.drop_last().update(w, WorkerState::Stopped));
    }
}

/// One worker of the pool: its identity and whether it still runs.
#[derive(Debug, Clone, Copy)]
pub struct Worker {
    id: usize,
    state: WorkerState,
}

impl Worker {
    pub closed spec fn spec_id(&self) -> usize {
        self.id
    }

    pub closed spec fn spec_state(&self) -> WorkerState {
        self.state
    }

    /// A running worker with the given identity.
    pub fn new(id: usize) -> (r: Worker)
        ensures
            r.spec_id() == id,
            r.spec_state() == WorkerState::Running,
    {
        Worker { id, state: WorkerState::Running }
    }

    #[verifier::when_used_as_spec(spec_id)]
    pub fn id(&self) -> (r: usize)
        ensures
            r == self.spec_id(),
    {
        self.id
    }

    #[verifier::when_used_as_spec(spec_state)]
    pub fn state(&self) -> (r: WorkerState)
        ensures
            r == self.spec_state(),
    {
        self.state
    }

    /// Acts on one message: a job is handed back to be run and the worker
    /// keeps running; a terminate message stops the worker.
    pub fn handle<J>(&mut self, message: Message<J>) -> (job: Option<J>)
        requires
            old(self).spec_state() == WorkerState::Running,
        ensures
            final(self).spec_id() == old(self).spec_id(),
            match message {
                Message::NewJob(j) => job == Some(j) && final(self).spec_state() == WorkerState::Running,
                Message::Terminate => job is None && final(self).spec_state() == WorkerState::Stopped,
            },
    {
        match message {
            Message::NewJob(j) => Some(j),
            Message::Terminate => {
                self.state = WorkerState::Stopped;
                None
            },
        }
    }
}

} // verus!
