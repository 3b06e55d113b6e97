//! The values that travel between a client and the service.

use vstd::prelude::*;
use vstd::std_specs::convert::FromSpecImpl;

verus! {

/// Names a task for as long as the store keeps track of it. The store assigns
/// it when the task is enqueued; clients only hand it back.
pub type TaskId = u64;

/// What a client sends to submit work.
#[derive(Clone, Debug, PartialEq, Eq)]
pub struct NewTask {
    /// The work to do, in a form that only the client and the executor read.
    pub payload: String,
}

/// A unit of work as the store takes it. It has no identifier yet: the store
/// assigns one when it accepts the task.
#[derive(Clone, Debug, PartialEq, Eq)]
pub struct Task {
    /// The work to do, as the client submitted it.
    pub payload: String,
}

/// The outcome of a task that has finished.
#[derive(Clone, Debug, PartialEq, Eq)]
pub struct TaskResult {
    /// The task that produced this outcome.
    pub id: TaskId,
    /// What the task produced, in a form that only the client and the executor read.
    pub result: String,
}

/// A best-effort count of what the store held at one moment.
#[derive(Clone, Copy, Debug, PartialEq, Eq, Structural)]
pub struct StoreState {
    /// Tasks accepted and not yet finished.
    pub pending: u64,
    /// Tasks whose result is ready to be retrieved.
    pub completed: u64,
}

/// A message from a client to the service.
#[derive(Clone, Debug, PartialEq, Eq)]
pub enum MavrikRequest {
    /// Submit a new task.
    NewTask(NewTask),
    /// Ask for the result of a task, whenever it is ready.
    AwaitTask { task_id: TaskId },
    /// Ask for a snapshot of the store.
    GetStoreState,
}

/// A message from the service to a client.
#[derive(Clone, Debug, PartialEq, Eq)]
pub enum MavrikResponse {
    /// The identifier that the store gave to a submitted task.
    NewTaskId(TaskId),
    /// The result of a task that the client had asked to await.
    CompletedTask(TaskResult),
    /// A snapshot of the store.
    StoreState(StoreState),
}

/// The three shapes of a response, without what they carry.
#[derive(Clone, Copy, Debug, PartialEq, Eq, Structural)]
pub enum ResponseKind {
    NewTaskId,
    CompletedTask,
    StoreState,
}

impl From<NewTask> for Task {
    /// The task that a submission asks for: it carries the submitted payload.
    fn from(new_task: NewTask) -> (task: Task) {
        Task { payload: new_task.payload }
    }
}

impl FromSpecImpl<NewTask> for Task {
    open spec fn obeys_from_spec() -> bool {
        true
    }

    open spec fn from_spec(new_task: NewTask) -> Task {
        Task { payload: new_task.payload }
    }
}

impl MavrikResponse {
    /// Which of the three shapes this response has.
    pub open spec fn spec_kind(&self) -> ResponseKind {
        match self {
            MavrikResponse::NewTaskId(_) => ResponseKind::NewTaskId,
            MavrikResponse::CompletedTask(_) => ResponseKind::CompletedTask,
            MavrikResponse::StoreState(_) => ResponseKind::StoreState,
        }
    }

    /// Which of the three shapes this response has.
    #[verifier::when_used_as_spec(spec_kind)]
    pub fn kind(&self) -> (kind: ResponseKind)
        ensures
            kind == self.spec_kind(),
    {
        match self {
            MavrikResponse::NewTaskId(_) => ResponseKind::NewTaskId,
            MavrikResponse::CompletedTask(_) => ResponseKind::CompletedTask,
            MavrikResponse::StoreState(_) => ResponseKind::StoreState,
        }
    }
}

} // verus!
