//! The decisions of one client connection, free of I/O.
//!
//! A connection waits for two kinds of thing at once: the next request from
//! the client, and the completion of any task retrieval that it started in
//! the background. Whoever owns the socket and the store performs the waiting
//! and the outside work; the handler here decides. It is told what happened
//! as an [`Event`] and answers with the [`Action`] to perform next. Requests
//! are handled one at a time, each through to the end of its reply, while
//! retrievals complete in whatever order the store finishes them.

use crate::messaging::{
    MavrikRequest, MavrikResponse, ResponseKind, StoreState, Task, TaskId, TaskResult,
};
use crate::wire::{ReadError, WriteError};
use vstd::prelude::*;

verus! {

/// What one poll of a connection produced.
#[derive(Clone, Debug, PartialEq, Eq)]
pub enum TaskOutputKind {
    /// The client sent a request.
    Request(MavrikRequest),
    /// A background retrieval finished with the result of its task.
    TaskResult(TaskResult),
}

/// Why a connection was closed. None of these is retried, and none is
/// reported to the client: the connection simply ends.
#[derive(Clone, Copy, Debug, PartialEq, Eq, Structural)]
pub enum HandlerError {
    /// No further request could be read from the client.
    Receive(ReadError),
    /// A background retrieval could not be joined.
    Join,
    /// The store failed a background retrieval.
    Pull,
    /// The store did not accept a submitted task.
    Push,
    /// The store gave no snapshot of its state.
    Query,
    /// A response of the given kind could not be written to the client.
    Send(ResponseKind, WriteError),
}

/// What a connection is waiting for.
#[derive(Clone, Copy, Debug, PartialEq, Eq, Structural)]
pub enum Phase {
    /// The next request, or the completion of a background retrieval.
    Polling,
    /// The store's answer to a submitted task.
    Pushing,
    /// The store's snapshot of its state.
    Querying,
    /// The end of the write of a response of the given kind.
    Sending(ResponseKind),
    /// Nothing: the connection has ended.
    Closed,
}

/// What the two sources of a poll can produce: the stream of requests, and the
/// background retrievals that are in flight.
#[derive(Clone, Debug, PartialEq, Eq)]
pub enum Arrival {
    /// A complete request was read and understood.
    Request(MavrikRequest),
    /// Reading the next request failed.
    ReadFailed(ReadError),
    /// A background retrieval finished with the result of its task.
    TaskResult(TaskResult),
    /// The store failed a background retrieval.
    PullFailed,
    /// A background retrieval could not be joined.
    JoinFailed,
}

/// How the outside work that an [`Action`] asked for has ended.
#[derive(Clone, Copy, Debug, PartialEq, Eq, Structural)]
pub enum Reply {
    /// The store accepted the task under this identifier.
    Pushed(TaskId),
    /// The store did not accept the task.
    PushFailed,
    /// The store gave this snapshot of its state.
    State(StoreState),
    /// The store gave no snapshot.
    QueryFailed,
    /// The response was written to the client in full.
    Sent,
    /// The response could not be written.
    SendFailed(WriteError),
}

/// Anything that can happen to a connection.
#[derive(Clone, Debug, PartialEq, Eq)]
pub enum Event {
    /// A poll produced something.
    Arrived(Arrival),
    /// Outside work that the handler had asked for has ended.
    Replied(Reply),
}

/// What the owner of the socket and the store is to do next.
#[derive(Clone, Debug, PartialEq, Eq)]
pub enum Action {
    /// Enqueue the task in the store and report with [`Reply::Pushed`] or
    /// [`Reply::PushFailed`].
    Push(Task),
    /// Start retrieving the result of the task in the background, without
    /// waiting for it, and poll again.
    Pull(TaskId),
    /// Ask the store for a snapshot and report with [`Reply::State`] or
    /// [`Reply::QueryFailed`].
    Query,
    /// Write the response to the client and report with [`Reply::Sent`] or
    /// [`Reply::SendFailed`].
    Send(MavrikResponse),
    /// Nothing is left to do for the last arrival: poll again.
    Done,
    /// Stop serving the connection for the given reason. Retrievals still in
    /// flight are left to themselves.
    Close(HandlerError),
}

/// The state of a connection as contracts see it.
pub struct HandlerState {
    /// What the connection is waiting for.
    pub phase: Phase,
    /// The tasks whose results are being retrieved in the background, in the
    /// order in which the client asked for them. A task that was asked for
    /// twice is listed twice. Once the connection has ended, these are the
    /// retrievals that it left behind.
    pub in_flight: Seq<TaskId>,
}

impl HandlerState {
    /// A connection that has just been opened: it polls, and nothing is in flight.
    pub open spec fn initial() -> HandlerState {
        HandlerState { phase: Phase::Polling, in_flight: Seq::empty() }
    }

    /// This state with another phase.
    pub open spec fn with_phase(self, phase: Phase) -> HandlerState {
        HandlerState { phase, in_flight: self.in_flight }
    }

    /// Whether a poll waits for background retrievals as well as for the next
    /// request: only while polling, and only if some retrieval is in flight.
    pub open spec fn awaits_retrievals(self) -> bool {
        self.phase is Polling && self.in_flight.len() > 0
    }

    /// What a poll makes of an arrival, or `None` where the arrival cannot have
    /// come from a source that the connection is waiting for: the connection
    /// is not polling, or a retrieval is said to have ended while none is in
    /// flight, or a result is delivered for a task that is not in flight.
    pub open spec fn poll(self, arrival: Arrival) -> Option<Result<TaskOutputKind, HandlerError>> {
        if !(self.phase is Polling) {
            None
        } else {
            match arrival {
                Arrival::Request(request) => Some(Ok(TaskOutputKind::Request(request))),
                Arrival::ReadFailed(error) => Some(Err(HandlerError::Receive(error))),
                Arrival::TaskResult(task_result) => if self.in_flight.contains(task_result.id) {
                    Some(Ok(TaskOutputKind::TaskResult(task_result)))
                } else {
                    None
                },
                Arrival::PullFailed => if self.in_flight.len() > 0 {
                    Some(Err(HandlerError::Pull))
                } else {
                    None
                },
                Arrival::JoinFailed => if self.in_flight.len() > 0 {
                    Some(Err(HandlerError::Join))
                } else {
                    None
                },
            }
        }
    }

    /// How a polling connection takes a request: a new task goes to the store,
    /// an awaited task joins those in flight and the connection polls on, and
    /// a question about the store goes to the store.
    pub open spec fn handle_request(self, request: MavrikRequest) -> (HandlerState, Action) {
        match request {
            MavrikRequest::NewTask(new_task) => (
                self.with_phase(Phase::Pushing),
                Action::Push(Task { payload: new_task.payload }),
            ),
            MavrikRequest::AwaitTask { task_id } => (
                HandlerState { phase: self.phase, in_flight: self.in_flight.push(task_id) },
                Action::Pull(task_id),
            ),
            MavrikRequest::GetStoreState => (self.with_phase(Phase::Querying), Action::Query),
        }
    }

    /// How a polling connection takes the result of a task in flight: the task
    /// leaves those in flight, once, and its result goes to the client.
    pub open spec fn handle_task_result(self, task_result: TaskResult) -> (HandlerState, Action) {
        (
            HandlerState {
                phase: Phase::Sending(ResponseKind::CompletedTask),
                in_flight: self.in_flight.remove_value(task_result.id),
            },
            Action::Send(MavrikResponse::CompletedTask(task_result)),
        )
    }

    /// The next state and the action for what a poll produced, or `None` where
    /// the connection is not polling or the result is for a task that is not
    /// in flight.
    pub open spec fn react(self, output: Result<TaskOutputKind, HandlerError>) -> Option<
        (HandlerState, Action),
    > {
        if !(self.phase is Polling) {
            None
        } else {
            match output {
                Err(error) => Some((self.with_phase(Phase::Closed), Action::Close(error))),
                Ok(TaskOutputKind::Request(request)) => Some(self.handle_request(request)),
                Ok(TaskOutputKind::TaskResult(task_result)) => if self.in_flight.contains(
                    task_result.id,
                ) {
                    Some(self.handle_task_result(task_result))
                } else {
                    None
                },
            }
        }
    }

    /// The next state and the action for the end of outside work, or `None`
    /// where the connection is not waiting for that reply.
    pub open spec fn resume(self, reply: Reply) -> Option<(HandlerState, Action)> {
        match (self.phase, reply) {
            (Phase::Pushing, Reply::Pushed(task_id)) => Some(
                (
                    self.with_phase(Phase::Sending(ResponseKind::NewTaskId)),
                    Action::Send(MavrikResponse::NewTaskId(task_id)),
                ),
            ),
            (Phase::Pushing, Reply::PushFailed) => Some(
                (self.with_phase(Phase::Closed), Action::Close(HandlerError::Push)),
            ),
            (Phase::Querying, Reply::State(state)) => Some(
                (
                    self.with_phase(Phase::Sending(ResponseKind::StoreState)),
                    Action::Send(MavrikResponse::StoreState(state)),
                ),
            ),
            (Phase::Querying, Reply::QueryFailed) => Some(
                (self.with_phase(Phase::Closed), Action::Close(HandlerError::Query)),
            ),
            (Phase::Sending(_), Reply::Sent) => Some((self.with_phase(Phase::Polling), Action::Done)),
            (Phase::Sending(kind), Reply::SendFailed(error)) => Some(
                (self.with_phase(Phase::Closed), Action::Close(HandlerError::Send(kind, error))),
            ),
            _ => None,
        }
    }

    /// The next state and the action for any event, or `None` where the
    /// connection is not waiting for that event.
    pub open spec fn step(self, event: Event) -> Option<(HandlerState, Action)> {
        match event {
            Event::Arrived(arrival) => match self.poll(arrival) {
                Some(output) => self.react(output),
                None => None,
            },
            Event::Replied(reply) => self.resume(reply),
        }
    }
}

/// The state after an attempted step: the next state where the event was
/// taken, the same state where it was not.
pub open spec fn state_after(before: HandlerState, taken: Option<(HandlerState, Action)>)
    -> HandlerState {
    match taken {
        Some((next, _)) => next,
        None => before,
    }
}

/// The action of an attempted step, if the event was taken.
pub open spec fn action_of(taken: Option<(HandlerState, Action)>) -> Option<Action> {
    match taken {
        Some((_, action)) => Some(action),
        None => None,
    }
}

/// The place of the first occurrence of `task_id` in `tasks`, if it occurs.
fn first_position(tasks: &Vec<TaskId>, task_id: TaskId) -> (found: Option<usize>)
    ensures
        match found {
            Some(at) => at < tasks@.len() && tasks@.contains(task_id) && tasks@.index_of_first(
                task_id,
            ) == Some(at as int),
            None => !tasks@.contains(task_id),
        },
{
    let mut at: usize = 0;
    while at < tasks.len()
        invariant
            at <= tasks.len(),
            forall|before: int| 0 <= before < at ==> tasks@[before] != task_id,
        decreases tasks.len() - at,
    {
        if tasks[at] == task_id {
            proof {
                tasks@.index_of_first_ensures(task_id);
            }
            return Some(at);
        }
        at += 1;
    }
    None
}

/// The decisions of one client connection.
pub struct TcpClientHandler {
    phase: Phase,
    in_flight: Vec<TaskId>,
}

impl View for TcpClientHandler {
    type V = HandlerState;

    closed spec fn view(&self) -> HandlerState {
        HandlerState { phase: self.phase, in_flight: self.in_flight@ }
    }
}

impl TcpClientHandler {
    /// The handler of a connection that has just been opened.
    pub fn new() -> (handler: Self)
        ensures
            handler@ == HandlerState::initial(),
    {
        TcpClientHandler { phase: Phase::Polling, in_flight: Vec::new() }
    }

    /// What the connection is waiting for.
    pub fn phase(&self) -> (phase: Phase)
        ensures
            phase == self@.phase,
    {
        self.phase
    }

    /// The tasks whose results are being retrieved in the background.
    pub fn in_flight(&self) -> (tasks: &[TaskId])
        ensures
            tasks@ == self@.in_flight,
    {
        self.in_flight.as_slice()
    }

    /// Whether the next poll is to wait for background retrievals as well as
    /// for the next request.
    pub fn awaits_retrievals(&self) -> (awaits: bool)
        ensures
            awaits == self@.awaits_retrievals(),
    {
        match self.phase {
            Phase::Polling => self.in_flight.len() > 0,
            _ => false,
        }
    }

    /// Makes of an arrival what a poll hands on: the request or the result, or
    /// the reason for which the connection must close. Changes nothing.
    pub fn poll_task(&self, arrival: Arrival) -> (output: Option<
        Result<TaskOutputKind, HandlerError>,
    >)
        ensures
            output == self@.poll(arrival),
    {
        match self.phase {
            Phase::Polling => {},
            _ => {
                return None;
            },
        }
        match arrival {
            Arrival::Request(request) => Some(Ok(TaskOutputKind::Request(request))),
            Arrival::ReadFailed(error) => Some(Err(HandlerError::Receive(error))),
            Arrival::TaskResult(task_result) => {
                match first_position(&self.in_flight, task_result.id) {
                    Some(_) => Some(Ok(TaskOutputKind::TaskResult(task_result))),
                    None => None,
                }
            },
            Arrival::PullFailed => if self.in_flight.len() > 0 {
                Some(Err(HandlerError::Pull))
            } else {
                None
            },
            Arrival::JoinFailed => if self.in_flight.len() > 0 {
                Some(Err(HandlerError::Join))
            } else {
                None
            },
        }
    }

    /// Takes a request on a polling connection and says what to do for it.
    fn handle_request(&mut self, request: MavrikRequest) -> (action: Action)
        requires
            old(self)@.phase is Polling,
        ensures
            (final(self)@, action) == old(self)@.handle_request(request),
    {
        match request {
            MavrikRequest::NewTask(new_task) => {
                self.phase = Phase::Pushing;
                Action::Push(Task::from(new_task))
            },
            MavrikRequest::AwaitTask { task_id } => {
                self.in_flight.push(task_id);
                Action::Pull(task_id)
            },
            MavrikRequest::GetStoreState => {
                self.phase = Phase::Querying;
                Action::Query
            },
        }
    }

    /// Takes the result of a task on a polling connection. Where the task is
    /// in flight it leaves those in flight and its result is to be sent; where
    /// it is not, nothing changes.
    fn handle_task_result(&mut self, task_result: TaskResult) -> (action: Option<Action>)
        requires
            old(self)@.phase is Polling,
        ensures
            old(self)@.in_flight.contains(task_result.id) ==> (final(self)@, action->0) == old(
                self,
            )@.handle_task_result(task_result) && action is Some,
            !old(self)@.in_flight.contains(task_result.id) ==> final(self)@ == old(self)@
                && action is None,
    {
        match first_position(&self.in_flight, task_result.id) {
            Some(at) => {
                self.in_flight.remove(at);
                self.phase = Phase::Sending(ResponseKind::CompletedTask);
                Some(Action::Send(MavrikResponse::CompletedTask(task_result)))
            },
            None => None,
        }
    }

    /// Reacts to what a poll produced: dispatches a request, forwards the
    /// result of a task in flight, or closes the connection on a failure.
    /// Gives `None`, and changes nothing, where the connection is not polling
    /// or the result is for a task that is not in flight.
    pub fn on_task_ready(&mut self, output: Result<TaskOutputKind, HandlerError>) -> (action:
        Option<Action>)
        ensures
            action == action_of(old(self)@.react(output)),
            final(self)@ == state_after(old(self)@, old(self)@.react(output)),
    {
        match self.phase {
            Phase::Polling => {},
            _ => {
                return None;
            },
        }
        match output {
            Err(error) => {
                self.phase = Phase::Closed;
                Some(Action::Close(error))
            },
            Ok(TaskOutputKind::Request(request)) => Some(self.handle_request(request)),
            Ok(TaskOutputKind::TaskResult(task_result)) => self.handle_task_result(task_result),
        }
    }

    /// Goes on after outside work has ended: sends what the store answered,
    /// returns to polling once a response is written, or closes the connection
    /// on a failure. Gives `None`, and changes nothing, where the connection
    /// is not waiting for that reply.
    pub fn resume(&mut self, reply: Reply) -> (action: Option<Action>)
        ensures
            action == action_of(old(self)@.resume(reply)),
            final(self)@ == state_after(old(self)@, old(self)@.resume(reply)),
    {
        match (self.phase, reply) {
            (Phase::Pushing, Reply::Pushed(task_id)) => {
                self.phase = Phase::Sending(ResponseKind::NewTaskId);
                Some(Action::Send(MavrikResponse::NewTaskId(task_id)))
            },
            (Phase::Pushing, Reply::PushFailed) => {
                self.phase = Phase::Closed;
                Some(Action::Close(HandlerError::Push))
            },
            (Phase::Querying, Reply::State(state)) => {
                self.phase = Phase::Sending(ResponseKind::StoreState);
                Some(Action::Send(MavrikResponse::StoreState(state)))
            },
            (Phase::Querying, Reply::QueryFailed) => {
                self.phase = Phase::Closed;
                Some(Action::Close(HandlerError::Query))
            },
            (Phase::Sending(_), Reply::Sent) => {
                self.phase = Phase::Polling;
                Some(Action::Done)
            },
            (Phase::Sending(kind), Reply::SendFailed(error)) => {
                self.phase = Phase::Closed;
                Some(Action::Close(HandlerError::Send(kind, error)))
            },
            _ => None,
        }
    }

    /// Takes any event and says what to do next. Gives `None`, and changes
    /// nothing, where the connection is not waiting for that event.
    pub fn step(&mut self, event: Event) -> (action: Option<Action>)
        ensures
            action == action_of(old(self)@.step(event)),
            final(self)@ == state_after(old(self)@, old(self)@.step(event)),
    {
        match event {
            Event::Arrived(arrival) => match self.poll_task(arrival) {
                Some(output) => self.on_task_ready(output),
                None => None,
            },
            Event::Replied(reply) => self.resume(reply),
        }
    }
}

} // verus!
