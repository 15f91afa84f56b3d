//! The decisions of the long-running loops: the shutdown state, each
//! worker's reaction to what it receives, and the relay's reaction to each
//! tick of its timer.

use vstd::prelude::*;

verus! {

/// Whether the process is still taking work. Once cancelled it stays so.
#[derive(Clone, Copy, Debug, PartialEq, Eq, Structural)]
pub enum RunState {
    Running,
    Cancelled,
}

impl RunState {
    /// The state after an interrupt.
    pub fn signal(self) -> (r: RunState)
        ensures
            r == RunState::Cancelled,
    {
        RunState::Cancelled
    }

    pub fn is_cancelled(self) -> (r: bool)
        ensures
            r == (self == RunState::Cancelled),
    {
        match self {
            RunState::Running => false,
            RunState::Cancelled => true,
        }
    }
}

/// A coalesced filesystem notification.
#[derive(Clone, Debug, PartialEq, Eq)]
pub enum WatchEvent {
    /// A file was created at this path.
    Created(String),
    /// Any other kind of change.
    Other,
}

/// What a worker does next.
#[derive(Clone, Debug, PartialEq, Eq)]
pub enum WorkerAction {
    /// Leave the loop.
    Exit,
    /// Run the intake handler on this path.
    Handle(String),
    /// Ignore the event and wait for the next.
    Skip,
}

/// What the relay receives when its timer ticks.
#[derive(Clone, Debug, PartialEq, Eq)]
pub enum Poll {
    Ready(WatchEvent),
    Empty,
    /// The watcher is gone.
    Disconnected,
}

/// What the relay does on a tick.
#[derive(Clone, Debug, PartialEq, Eq)]
pub enum RelayAction {
    /// Publish the event to the workers.
    Forward(WatchEvent),
    /// Publish nothing this tick.
    Wait,
    /// Leave the loop.
    Stop,
}

/// A worker that is cancelled exits; otherwise it handles a creation,
/// skips any other event, and exits once the relay's channel is closed
/// (`None`).
pub open spec fn worker_decision(state: RunState, event: Option<WatchEvent>) -> WorkerAction {
    if state == RunState::Cancelled {
        WorkerAction::Exit
    } else {
        match event {
            Some(WatchEvent::Created(p)) => WorkerAction::Handle(p),
            Some(WatchEvent::Other) => WorkerAction::Skip,
            None => WorkerAction::Exit,
        }
    }
}

pub open spec fn relay_decision(state: RunState, poll: Poll) -> RelayAction {
    if state == RunState::Cancelled {
        RelayAction::Stop
    } else {
        match poll {
            Poll::Ready(e) => RelayAction::Forward(e),
            Poll::Empty => RelayAction::Wait,
            Poll::Disconnected => RelayAction::Stop,
        }
    }
}

/// A worker's reaction to the shutdown state and to what it received.
pub fn worker_step(state: RunState, event: Option<WatchEvent>) -> (r: WorkerAction)
    ensures
        r == worker_decision(state, event),
{
    if state.is_cancelled() {
        return WorkerAction::Exit;
    }
    match event {
        Some(WatchEvent::Created(p)) => WorkerAction::Handle(p),
        Some(WatchEvent::Other) => WorkerAction::Skip,
        None => WorkerAction::Exit,
    }
}

/// The relay's reaction to the shutdown state and to a tick's poll.
pub fn relay_step(state: RunState, poll: Poll) -> (r: RelayAction)
    ensures
        r == relay_decision(state, poll),
{
    if state.is_cancelled() {
        return RelayAction::Stop;
    }
    match poll {
        Poll::Ready(e) => RelayAction::Forward(e),
        Poll::Empty => RelayAction::Wait,
        Poll::Disconnected => RelayAction::Stop,
    }
}

/// Once cancelled, every worker exits whatever it received and the relay
/// stops whatever it polled, so no further path is handed to the intake
/// handler; and cancelling again changes nothing.
pub proof fn lemma_cancellation_stops_all(events: Seq<Option<WatchEvent>>, polls: Seq<Poll>)
    ensures
        forall|i: int|
            0 <= i < events.len() ==> #[trigger] worker_decision(RunState::Cancelled, events[i])
                == WorkerAction::Exit,
        forall|i: int|
            0 <= i < polls.len() ==> #[trigger] relay_decision(RunState::Cancelled, polls[i])
                == RelayAction::Stop,
{
}

} // verus!
