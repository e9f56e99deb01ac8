use vstd::prelude::*;

use crate::config::Config;
use crate::error::WorkerError;
use crate::text::str_eq;

verus! {

pub const DEFAULT_RETRY_TIMEOUT: u64 = 10;

/// The states of the worker loop.
#[derive(Clone, Copy, PartialEq, Eq, Structural, Debug)]
pub enum WorkerState {
    WaitForConnection,
    ClaimJob,
    RunPipeline,
    ClearFailed,
}

/// What one turn of the worker loop observes from the outside world.
pub enum WorkerEvent {
    Connected,
    ConnectionFailed,
    Claimed(Option<String>),
    ClaimFailed,
    RunFinished(bool),
    Cleared(bool),
}

/// What the loop performs while in a state.
#[derive(Clone, Copy, PartialEq, Eq, Structural, Debug)]
pub enum WorkerAction {
    Connect,
    Dequeue,
    Run,
    Clear,
}

/// The transition relation of the worker loop. A lost connection or a
/// failed dequeue retries from the start; a claimed job runs the pipeline
/// only for the known token, any other payload being ignored; and after a
/// run — successful or not — the holding list is cleared, best effort, in
/// either case returning to wait for a connection. The loop never stops.
pub open spec fn spec_worker_step(s: WorkerState, e: WorkerEvent) -> WorkerState {
    match (s, e) {
        (WorkerState::WaitForConnection, WorkerEvent::Connected) => WorkerState::ClaimJob,
        (WorkerState::WaitForConnection, WorkerEvent::ConnectionFailed) => WorkerState::WaitForConnection,
        (WorkerState::ClaimJob, WorkerEvent::Claimed(Some(msg))) => if msg@ == "run:all"@ {
            WorkerState::RunPipeline
        } else {
            WorkerState::ClearFailed
        },
        (WorkerState::ClaimJob, WorkerEvent::Claimed(None)) => WorkerState::ClearFailed,
        (WorkerState::ClaimJob, WorkerEvent::ClaimFailed) => WorkerState::WaitForConnection,
        (WorkerState::RunPipeline, WorkerEvent::RunFinished(_)) => WorkerState::ClearFailed,
        (WorkerState::ClearFailed, WorkerEvent::Cleared(_)) => WorkerState::WaitForConnection,
        _ => s,
    }
}

/// The action a state calls for.
pub open spec fn spec_worker_action(s: WorkerState) -> WorkerAction {
    match s {
        WorkerState::WaitForConnection => WorkerAction::Connect,
        WorkerState::ClaimJob => WorkerAction::Dequeue,
        WorkerState::RunPipeline => WorkerAction::Run,
        WorkerState::ClearFailed => WorkerAction::Clear,
    }
}

/// Mathematical value of the job queue.
pub struct JobQueueView {
    pub pending: Seq<Seq<char>>,
    pub failed: Seq<Seq<char>>,
}

/// The durable job queue: jobs wait in `pending`; a claim moves a job
/// atomically onto the `failed` holding list, where it stays visible
/// until a successful turn clears it — so a crash between claim and clear
/// never loses a job (at-least-once delivery).
pub struct JobQueue {
    pending: Vec<String>,
    failed: Vec<String>,
}

impl View for JobQueue {
    type V = JobQueueView;

    closed spec fn view(&self) -> JobQueueView {
        JobQueueView { pending: self.pending.deep_view(), failed: self.failed.deep_view() }
    }
}

impl JobQueue {
    pub fn new() -> (q: JobQueue)
        ensures
            q@.pending == Seq::<Seq<char>>::empty(),
            q@.failed == Seq::<Seq<char>>::empty(),
    {
        let q = JobQueue { pending: Vec::new(), failed: Vec::new() };
        proof {
            assert(q@.pending =~= Seq::<Seq<char>>::empty());
            assert(q@.failed =~= Seq::<Seq<char>>::empty());
        }
        q
    }

    /// A producer pushes a job token onto the head of the pending list.
    pub fn enqueue(&mut self, job: String)
        ensures
            final(self)@.pending == seq![job@] + old(self)@.pending,
            final(self)@.failed == old(self)@.failed,
    {
        self.pending.insert(0, job);
        proof {
            assert(self@.pending =~= seq![job@] + old(self)@.pending);
        }
    }

    /// Claims the oldest pending job: it leaves the pending list and, in
    /// the same step, enters the holding list, where it stays until
    /// cleared. An empty queue yields nothing and changes nothing.
    pub fn claim(&mut self) -> (r: Option<String>)
        ensures
            match r {
                Some(job) => old(self)@.pending.len() > 0 && job@ == old(self)@.pending.last()
                    && final(self)@.pending == old(self)@.pending.drop_last()
                    && final(self)@.failed == seq![job@] + old(self)@.failed,
                None => old(self)@.pending.len() == 0 && final(self)@ == old(self)@,
            },
    {
        if self.pending.len() == 0 {
            return None;
        }
        let job = self.pending.pop().unwrap();
        let held = job.clone();
        self.failed.insert(0, held);
        proof {
            assert(self@.pending =~= old(self)@.pending.drop_last());
            assert(self@.failed =~= seq![job@] + old(self)@.failed);
        }
        Some(job)
    }

    /// Empties the holding list after a turn of the loop; the pending
    /// list is untouched.
    pub fn clear_failed(&mut self)
        ensures
            final(self)@.pending == old(self)@.pending,
            final(self)@.failed == Seq::<Seq<char>>::empty(),
    {
        self.failed = Vec::new();
        proof {
            assert(self@.failed =~= Seq::<Seq<char>>::empty());
        }
    }

    pub fn pending_len(&self) -> (n: usize)
        ensures
            n == self@.pending.len(),
    {
        self.pending.len()
    }

    pub fn failed_len(&self) -> (n: usize)
        ensures
            n == self@.failed.len(),
    {
        self.failed.len()
    }
}

/// The background worker: the decisions of its loop live here, while the
/// queue connection and the clock stay at the process boundary, which
/// performs each action and hands the outcome back as an event.
pub struct Worker<'a> {
    pub config: &'a Config,
}

impl<'a> Worker<'a> {
    pub fn new(config: &'a Config) -> (w: Worker<'a>)
        ensures
            w.config == config,
    {
        Worker { config }
    }

    pub fn get_retry_timeout(&self) -> (t: usize)
        ensures
            t == self.config.worker.retry_timeout,
    {
        self.config.worker.retry_timeout
    }

    /// The configured retry timeout in whole seconds.
    pub fn get_retry_timeout_duration(&self) -> (t: u64)
        ensures
            t == self.config.worker.retry_timeout as u64,
    {
        self.get_retry_timeout() as u64
    }

    /// One turn of the loop's state machine.
    pub fn step(&self, state: WorkerState, event: &WorkerEvent) -> (next: WorkerState)
        ensures
            next == spec_worker_step(state, *event),
    {
        match (state, event) {
            (WorkerState::WaitForConnection, WorkerEvent::Connected) => WorkerState::ClaimJob,
            (WorkerState::WaitForConnection, WorkerEvent::ConnectionFailed) => WorkerState::WaitForConnection,
            (WorkerState::ClaimJob, WorkerEvent::Claimed(Some(msg))) => {
                if str_eq(msg.as_str(), "run:all") {
                    WorkerState::RunPipeline
                } else {
                    WorkerState::ClearFailed
                }
            },
            (WorkerState::ClaimJob, WorkerEvent::Claimed(None)) => WorkerState::ClearFailed,
            (WorkerState::ClaimJob, WorkerEvent::ClaimFailed) => WorkerState::WaitForConnection,
            (WorkerState::RunPipeline, WorkerEvent::RunFinished(_)) => WorkerState::ClearFailed,
            (WorkerState::ClearFailed, WorkerEvent::Cleared(_)) => WorkerState::WaitForConnection,
            (s, _) => s,
        }
    }

    /// The action to perform in a state.
    pub fn action(&self, state: WorkerState) -> (a: WorkerAction)
        ensures
            a == spec_worker_action(state),
    {
        match state {
            WorkerState::WaitForConnection => WorkerAction::Connect,
            WorkerState::ClaimJob => WorkerAction::Dequeue,
            WorkerState::RunPipeline => WorkerAction::Run,
            WorkerState::ClearFailed => WorkerAction::Clear,
        }
    }
}

/// Entry point of a general background worker; nothing is queued yet, so
/// there is nothing to do.
pub fn run() -> (r: Result<(), WorkerError>)
    ensures
        r is Ok,
{
    Ok(())
}

} // verus!
