use vstd::prelude::*;

verus! {

/// What the pool's queue carries: a job to run, or the signal for one
/// worker to stop.
pub enum Message<J> {
    NewJob(J),
    Terminate,
}

/// The job carried by a `NewJob` message.
pub open spec fn payload<J>(m: Message<J>) -> J {
    match m {
        Message::NewJob(j) => j,
        Message::Terminate => arbitrary(),
    }
}

/// What a worker is told to do when it asks for its next message.
pub enum Step<J> {
    /// Run this job, then ask again.
    Run(J),
    /// The queue is empty: block until a message is sent, then ask again.
    Wait,
    /// A terminate message was taken: leave the loop.
    Exit,
}

impl<J> Step<J> {
    pub fn is_exit(&self) -> (r: bool)
        ensures
            r <==> self is Exit,
    {
        match self {
            Step::Exit => true,
            _ => false,
        }
    }

    pub fn is_wait(&self) -> (r: bool)
        ensures
            r <==> self is Wait,
    {
        match self {
            Step::Wait => true,
            _ => false,
        }
    }
}

} // verus!
