//! The per-connection worker, as a state machine. The surrounding listener
//! accepts connections and hands each one to its own worker; the worker
//! loops reading events from the wire codec, feeding each event through
//! `worker_step`, and performing the returned action, until the step says to
//! stop. A slow or failed connection therefore ends its own worker only.

use crate::command::{execute, response_matches, store_after, Command, Response};
use crate::store::ShardedStore;
use vstd::prelude::*;

verus! {

/// The worker's state: reading commands, or terminally done.
#[derive(Debug, Clone, Copy, PartialEq, Eq)]
pub enum ConnState {
    Open,
    Closed,
}

/// Why a worker gave up on its connection.
#[derive(Debug, Clone, Copy, PartialEq, Eq)]
pub enum WorkerError {
    /// The peer sent a command kind the executor does not support.
    Unsupported,
    /// The frame could not be parsed, or reading it failed.
    Malformed,
}

/// One event read from the connection.
#[derive(Debug, Clone, PartialEq, Eq)]
pub enum ConnEvent {
    /// A well-formed, supported command.
    Request(Command),
    /// The peer closed its end: no further reads or writes happen.
    EndOfStream,
    /// A well-formed frame carrying an unsupported command kind.
    Unsupported,
    /// A frame that could not be parsed, or an I/O failure while reading.
    Malformed,
}

/// What the caller of the worker must do after one step.
#[derive(Debug, Clone, PartialEq, Eq)]
pub enum ConnAction {
    /// Write this response to the peer, then read the next event.
    Respond(Response),
    /// Release the connection; the worker is done.
    Stop,
    /// Release the connection and surface this error; the worker is done.
    Fail(WorkerError),
}

/// What the pure part of one worker step tells the surrounding loop to do.
#[derive(Debug, Clone, PartialEq, Eq)]
pub enum StepPlan {
    /// Execute this command against the shared store, respond with its
    /// response, and keep reading.
    Execute(Command),
    /// Release the connection; the worker is done.
    Stop,
    /// Release the connection and surface this error; the worker is done.
    Fail(WorkerError),
}

/// The decision half of one worker step, free of any store access: from the
/// current state and the event just read, the next state and the plan. The
/// surrounding loop performs the plan — it executes a command against the
/// key's shard alone, or releases the connection — and comes back with the
/// next event while the state says open.
pub fn plan_step(state: ConnState, event: ConnEvent) -> (res: (ConnState, StepPlan))
    ensures
        state is Closed ==> res.0 is Closed && res.1 is Stop,
        state is Open && event is EndOfStream ==> res.0 is Closed && res.1 is Stop,
        state is Open && event is Unsupported ==> res.0 is Closed && res.1 == StepPlan::Fail(
            WorkerError::Unsupported,
        ),
        state is Open && event is Malformed ==> res.0 is Closed && res.1 == StepPlan::Fail(
            WorkerError::Malformed,
        ),
        state is Open ==> (event matches ConnEvent::Request(cmd) ==> res.0 is Open && res.1
            == StepPlan::Execute(cmd)),
{
    match state {
        ConnState::Closed => (ConnState::Closed, StepPlan::Stop),
        ConnState::Open => {
            match event {
                ConnEvent::Request(cmd) => (ConnState::Open, StepPlan::Execute(cmd)),
                ConnEvent::EndOfStream => (ConnState::Closed, StepPlan::Stop),
                ConnEvent::Unsupported => (ConnState::Closed, StepPlan::Fail(WorkerError::Unsupported)),
                ConnEvent::Malformed => (ConnState::Closed, StepPlan::Fail(WorkerError::Malformed)),
            }
        },
    }
}

/// One step of a connection worker: from the current state and the event
/// just read, decide the next state and the action to perform, executing a
/// well-formed command against the shared store. After end-of-stream the
/// worker closes without touching any shard; an unsupported command or a
/// malformed frame ends this worker only, also without touching the store.
pub fn worker_step(state: ConnState, event: ConnEvent, store: &mut ShardedStore) -> (res: (
    ConnState,
    ConnAction,
))
    requires
        old(store).wf(),
    ensures
        final(store).wf(),
        final(store).spec_num_shards() == old(store).spec_num_shards(),
        state is Closed ==> *final(store) == *old(store) && res.0 is Closed && res.1 is Stop,
        state is Open && event is EndOfStream ==> *final(store) == *old(store) && res.0 is Closed
            && res.1 is Stop,
        state is Open && event is Unsupported ==> *final(store) == *old(store) && res.0 is Closed
            && res.1 == ConnAction::Fail(WorkerError::Unsupported),
        state is Open && event is Malformed ==> *final(store) == *old(store) && res.0 is Closed
            && res.1 == ConnAction::Fail(WorkerError::Malformed),
        state is Open ==> (event matches ConnEvent::Request(cmd) ==> {
            &&& res.0 is Open
            &&& final(store)@ == store_after(old(store)@, cmd)
            &&& (res.1 matches ConnAction::Respond(r) && response_matches(old(store)@, cmd, r))
            &&& (cmd is Get ==> *final(store) == *old(store))
        }),
{
    let (next, plan) = plan_step(state, event);
    match plan {
        StepPlan::Execute(cmd) => {
            let r = execute(cmd, store);
            (next, ConnAction::Respond(r))
        },
        StepPlan::Stop => (next, ConnAction::Stop),
        StepPlan::Fail(e) => (next, ConnAction::Fail(e)),
    }
}

} // verus!
