use mavrik::handler::{
    Action, Arrival, Event, HandlerError, Phase, Reply, TaskOutputKind, TcpClientHandler,
};
use mavrik::messaging::{
    MavrikRequest, MavrikResponse, NewTask, ResponseKind, StoreState, Task, TaskResult,
};
use mavrik::wire::{ReadError, WriteError};

fn new_task(payload: &str) -> MavrikRequest {
    MavrikRequest::NewTask(NewTask { payload: payload.to_string() })
}

fn await_task(task_id: u64) -> MavrikRequest {
    MavrikRequest::AwaitTask { task_id }
}

fn result_of(id: u64, result: &str) -> TaskResult {
    TaskResult { id, result: result.to_string() }
}

fn request(request: MavrikRequest) -> Event {
    Event::Arrived(Arrival::Request(request))
}

fn completed(id: u64, result: &str) -> Event {
    Event::Arrived(Arrival::TaskResult(result_of(id, result)))
}

fn run(handler: &mut TcpClientHandler, events: Vec<Event>) -> Vec<Action> {
    let mut actions = Vec::new();
    for event in events {
        if let Some(action) = handler.step(event) {
            actions.push(action);
        }
    }
    actions
}

fn awaiting(task_ids: &[u64]) -> TcpClientHandler {
    let mut handler = TcpClientHandler::new();
    for task_id in task_ids {
        assert_eq!(handler.step(request(await_task(*task_id))), Some(Action::Pull(*task_id)));
    }
    handler
}

#[test]
fn new_handler_polls_with_nothing_in_flight() {
    let handler = TcpClientHandler::new();
    assert_eq!(handler.phase(), Phase::Polling);
    assert!(handler.in_flight().is_empty());
    assert!(!handler.awaits_retrievals());
}

#[test]
fn task_is_made_from_its_submission() {
    let task = Task::from(NewTask { payload: "x".to_string() });
    assert_eq!(task, Task { payload: "x".to_string() });
    let empty = Task::from(NewTask { payload: String::new() });
    assert_eq!(empty.payload, "");
}

#[test]
fn responses_know_their_kind() {
    assert_eq!(MavrikResponse::NewTaskId(3).kind(), ResponseKind::NewTaskId);
    assert_eq!(
        MavrikResponse::CompletedTask(result_of(3, "r")).kind(),
        ResponseKind::CompletedTask
    );
    assert_eq!(
        MavrikResponse::StoreState(StoreState { pending: 1, completed: 2 }).kind(),
        ResponseKind::StoreState
    );
}

#[test]
fn submit_then_await_then_completion() {
    let mut handler = TcpClientHandler::new();

    assert_eq!(
        handler.step(request(new_task("x"))),
        Some(Action::Push(Task { payload: "x".to_string() }))
    );
    assert_eq!(handler.phase(), Phase::Pushing);
    assert_eq!(
        handler.step(Event::Replied(Reply::Pushed(1))),
        Some(Action::Send(MavrikResponse::NewTaskId(1)))
    );
    assert_eq!(handler.phase(), Phase::Sending(ResponseKind::NewTaskId));
    assert_eq!(handler.step(Event::Replied(Reply::Sent)), Some(Action::Done));
    assert_eq!(handler.phase(), Phase::Polling);

    assert_eq!(handler.step(request(await_task(1))), Some(Action::Pull(1)));
    assert_eq!(handler.phase(), Phase::Polling);
    assert_eq!(handler.in_flight(), &[1]);
    assert!(handler.awaits_retrievals());

    assert_eq!(
        handler.step(completed(1, "y")),
        Some(Action::Send(MavrikResponse::CompletedTask(result_of(1, "y"))))
    );
    assert_eq!(handler.phase(), Phase::Sending(ResponseKind::CompletedTask));
    assert!(handler.in_flight().is_empty());
    assert_eq!(handler.step(Event::Replied(Reply::Sent)), Some(Action::Done));
    assert_eq!(handler.phase(), Phase::Polling);
    assert!(!handler.awaits_retrievals());
}

#[test]
fn new_task_ids_come_in_submission_order() {
    let mut handler = TcpClientHandler::new();
    let actions = run(
        &mut handler,
        vec![
            request(new_task("a")),
            Event::Replied(Reply::Pushed(10)),
            Event::Replied(Reply::Sent),
            request(new_task("b")),
            Event::Replied(Reply::Pushed(11)),
            Event::Replied(Reply::Sent),
        ],
    );
    assert_eq!(
        actions,
        vec![
            Action::Push(Task { payload: "a".to_string() }),
            Action::Send(MavrikResponse::NewTaskId(10)),
            Action::Done,
            Action::Push(Task { payload: "b".to_string() }),
            Action::Send(MavrikResponse::NewTaskId(11)),
            Action::Done,
        ]
    );
    assert_eq!(handler.phase(), Phase::Polling);
}

#[test]
fn second_request_waits_for_the_first_reply() {
    let mut handler = TcpClientHandler::new();
    assert!(handler.step(request(new_task("a"))).is_some());
    assert_eq!(handler.step(request(new_task("b"))), None);
    assert_eq!(handler.phase(), Phase::Pushing);
    assert!(handler.step(Event::Replied(Reply::Pushed(1))).is_some());
    assert_eq!(handler.step(request(new_task("b"))), None);
    assert_eq!(handler.step(request(MavrikRequest::GetStoreState)), None);
    assert_eq!(handler.step(request(await_task(1))), None);
    assert_eq!(handler.phase(), Phase::Sending(ResponseKind::NewTaskId));
    assert!(handler.in_flight().is_empty());
    assert_eq!(handler.step(Event::Replied(Reply::Sent)), Some(Action::Done));
    assert_eq!(
        handler.step(request(new_task("b"))),
        Some(Action::Push(Task { payload: "b".to_string() }))
    );
}

#[test]
fn results_come_in_completion_order() {
    let mut handler = TcpClientHandler::new();
    let actions = run(
        &mut handler,
        vec![
            request(await_task(1)),
            request(await_task(2)),
            completed(2, "second"),
            Event::Replied(Reply::Sent),
            completed(1, "first"),
            Event::Replied(Reply::Sent),
        ],
    );
    assert_eq!(
        actions,
        vec![
            Action::Pull(1),
            Action::Pull(2),
            Action::Send(MavrikResponse::CompletedTask(result_of(2, "second"))),
            Action::Done,
            Action::Send(MavrikResponse::CompletedTask(result_of(1, "first"))),
            Action::Done,
        ]
    );
    assert!(handler.in_flight().is_empty());
    assert_eq!(handler.phase(), Phase::Polling);
}

#[test]
fn result_may_come_between_two_requests() {
    let mut handler = awaiting(&[5]);
    let actions = run(
        &mut handler,
        vec![
            request(new_task("a")),
            Event::Replied(Reply::Pushed(6)),
            Event::Replied(Reply::Sent),
            completed(5, "done"),
            Event::Replied(Reply::Sent),
            request(MavrikRequest::GetStoreState),
        ],
    );
    assert_eq!(
        actions,
        vec![
            Action::Push(Task { payload: "a".to_string() }),
            Action::Send(MavrikResponse::NewTaskId(6)),
            Action::Done,
            Action::Send(MavrikResponse::CompletedTask(result_of(5, "done"))),
            Action::Done,
            Action::Query,
        ]
    );
}

#[test]
fn await_does_not_block_later_requests() {
    let mut handler = awaiting(&[99]);
    let actions = run(
        &mut handler,
        vec![
            request(new_task("a")),
            Event::Replied(Reply::Pushed(1)),
            Event::Replied(Reply::Sent),
            request(MavrikRequest::GetStoreState),
            Event::Replied(Reply::State(StoreState { pending: 2, completed: 0 })),
            Event::Replied(Reply::Sent),
            request(await_task(1)),
        ],
    );
    assert_eq!(
        actions,
        vec![
            Action::Push(Task { payload: "a".to_string() }),
            Action::Send(MavrikResponse::NewTaskId(1)),
            Action::Done,
            Action::Query,
            Action::Send(MavrikResponse::StoreState(StoreState { pending: 2, completed: 0 })),
            Action::Done,
            Action::Pull(1),
        ]
    );
    assert_eq!(handler.in_flight(), &[99, 1]);
    assert_eq!(handler.phase(), Phase::Polling);
}

#[test]
fn store_state_is_sent_as_given() {
    let mut handler = TcpClientHandler::new();
    assert_eq!(handler.step(request(MavrikRequest::GetStoreState)), Some(Action::Query));
    assert_eq!(handler.phase(), Phase::Querying);
    let state = StoreState { pending: 7, completed: 40 };
    assert_eq!(
        handler.step(Event::Replied(Reply::State(state))),
        Some(Action::Send(MavrikResponse::StoreState(state)))
    );
    assert_eq!(handler.phase(), Phase::Sending(ResponseKind::StoreState));
    assert_eq!(handler.step(Event::Replied(Reply::Sent)), Some(Action::Done));
    assert_eq!(handler.phase(), Phase::Polling);
}

#[test]
fn push_failure_closes() {
    let mut handler = TcpClientHandler::new();
    let actions = run(
        &mut handler,
        vec![
            request(new_task("a")),
            Event::Replied(Reply::PushFailed),
            Event::Replied(Reply::Pushed(1)),
            Event::Replied(Reply::Sent),
            request(new_task("a")),
        ],
    );
    assert_eq!(
        actions,
        vec![
            Action::Push(Task { payload: "a".to_string() }),
            Action::Close(HandlerError::Push),
        ]
    );
    assert_eq!(handler.phase(), Phase::Closed);
}

#[test]
fn query_failure_closes() {
    let mut handler = TcpClientHandler::new();
    let actions = run(
        &mut handler,
        vec![
            request(MavrikRequest::GetStoreState),
            Event::Replied(Reply::QueryFailed),
            Event::Replied(Reply::State(StoreState { pending: 0, completed: 0 })),
            request(MavrikRequest::GetStoreState),
        ],
    );
    assert_eq!(actions, vec![Action::Query, Action::Close(HandlerError::Query)]);
    assert_eq!(handler.phase(), Phase::Closed);
}

#[test]
fn pull_failure_closes() {
    let mut handler = awaiting(&[1, 2]);
    let actions = run(
        &mut handler,
        vec![Event::Arrived(Arrival::PullFailed), completed(2, "late"), request(await_task(3))],
    );
    assert_eq!(actions, vec![Action::Close(HandlerError::Pull)]);
    assert_eq!(handler.phase(), Phase::Closed);
    assert_eq!(handler.in_flight(), &[1, 2]);
}

#[test]
fn join_failure_closes() {
    let mut handler = awaiting(&[1]);
    assert_eq!(
        handler.step(Event::Arrived(Arrival::JoinFailed)),
        Some(Action::Close(HandlerError::Join))
    );
    assert_eq!(handler.phase(), Phase::Closed);
    assert_eq!(handler.step(Event::Arrived(Arrival::JoinFailed)), None);
}

#[test]
fn send_failure_closes_and_names_the_response() {
    let mut handler = TcpClientHandler::new();
    run(&mut handler, vec![request(new_task("a")), Event::Replied(Reply::Pushed(1))]);
    assert_eq!(
        handler.step(Event::Replied(Reply::SendFailed(WriteError::Payload))),
        Some(Action::Close(HandlerError::Send(ResponseKind::NewTaskId, WriteError::Payload)))
    );
    assert_eq!(handler.phase(), Phase::Closed);

    let mut handler = TcpClientHandler::new();
    run(
        &mut handler,
        vec![
            request(MavrikRequest::GetStoreState),
            Event::Replied(Reply::State(StoreState { pending: 0, completed: 0 })),
        ],
    );
    assert_eq!(
        handler.step(Event::Replied(Reply::SendFailed(WriteError::Prefix))),
        Some(Action::Close(HandlerError::Send(ResponseKind::StoreState, WriteError::Prefix)))
    );

    let mut handler = awaiting(&[4]);
    run(&mut handler, vec![completed(4, "r")]);
    assert_eq!(
        handler.step(Event::Replied(Reply::SendFailed(WriteError::Unserializable))),
        Some(Action::Close(HandlerError::Send(
            ResponseKind::CompletedTask,
            WriteError::Unserializable
        )))
    );
    assert_eq!(handler.phase(), Phase::Closed);
}

#[test]
fn read_failure_closes_with_its_reason() {
    for error in [ReadError::ShortPrefix, ReadError::ShortPayload, ReadError::Malformed] {
        let mut handler = TcpClientHandler::new();
        assert_eq!(
            handler.step(Event::Arrived(Arrival::ReadFailed(error))),
            Some(Action::Close(HandlerError::Receive(error)))
        );
        assert_eq!(handler.phase(), Phase::Closed);
    }
}

#[test]
fn close_leaves_retrievals_in_flight() {
    let mut handler = awaiting(&[1, 2, 3, 2]);
    let actions = run(
        &mut handler,
        vec![
            Event::Arrived(Arrival::ReadFailed(ReadError::ShortPrefix)),
            completed(1, "late"),
            completed(2, "late"),
            Event::Arrived(Arrival::PullFailed),
            Event::Arrived(Arrival::JoinFailed),
            Event::Arrived(Arrival::ReadFailed(ReadError::ShortPrefix)),
            Event::Replied(Reply::Sent),
            request(new_task("a")),
        ],
    );
    assert_eq!(actions, vec![Action::Close(HandlerError::Receive(ReadError::ShortPrefix))]);
    assert_eq!(handler.phase(), Phase::Closed);
    assert_eq!(handler.in_flight(), &[1, 2, 3, 2]);
    assert!(!handler.awaits_retrievals());
}

#[test]
fn closed_handler_takes_nothing() {
    let mut handler = TcpClientHandler::new();
    handler.step(Event::Arrived(Arrival::ReadFailed(ReadError::Malformed)));
    let events = vec![
        request(new_task("a")),
        request(await_task(1)),
        request(MavrikRequest::GetStoreState),
        Event::Arrived(Arrival::ReadFailed(ReadError::ShortPayload)),
        completed(1, "r"),
        Event::Arrived(Arrival::PullFailed),
        Event::Arrived(Arrival::JoinFailed),
        Event::Replied(Reply::Pushed(1)),
        Event::Replied(Reply::PushFailed),
        Event::Replied(Reply::State(StoreState { pending: 0, completed: 0 })),
        Event::Replied(Reply::QueryFailed),
        Event::Replied(Reply::Sent),
        Event::Replied(Reply::SendFailed(WriteError::Payload)),
    ];
    for event in events {
        assert_eq!(handler.step(event), None);
        assert_eq!(handler.phase(), Phase::Closed);
        assert!(handler.in_flight().is_empty());
    }
}

#[test]
fn retrievals_never_win_on_an_empty_set() {
    let mut handler = TcpClientHandler::new();
    assert!(!handler.awaits_retrievals());
    assert_eq!(handler.step(completed(1, "r")), None);
    assert_eq!(handler.step(Event::Arrived(Arrival::PullFailed)), None);
    assert_eq!(handler.step(Event::Arrived(Arrival::JoinFailed)), None);
    assert_eq!(handler.phase(), Phase::Polling);
    assert!(handler.in_flight().is_empty());
}

#[test]
fn result_of_a_task_not_in_flight_is_not_taken() {
    let mut handler = awaiting(&[1, 2]);
    assert_eq!(handler.step(completed(3, "r")), None);
    assert_eq!(handler.phase(), Phase::Polling);
    assert_eq!(handler.in_flight(), &[1, 2]);
}

#[test]
fn task_awaited_twice_completes_twice() {
    let mut handler = awaiting(&[7, 8, 7]);
    assert_eq!(handler.in_flight(), &[7, 8, 7]);
    assert!(handler.step(completed(7, "r")).is_some());
    assert_eq!(handler.in_flight(), &[8, 7]);
    assert_eq!(handler.step(Event::Replied(Reply::Sent)), Some(Action::Done));
    assert!(handler.step(completed(7, "r")).is_some());
    assert_eq!(handler.in_flight(), &[8]);
    assert_eq!(handler.step(Event::Replied(Reply::Sent)), Some(Action::Done));
    assert_eq!(handler.step(completed(7, "r")), None);
    assert_eq!(handler.in_flight(), &[8]);
    assert!(handler.awaits_retrievals());
}

#[test]
fn completion_keeps_the_others_in_order() {
    let mut handler = awaiting(&[1, 2, 3, 4]);
    assert!(handler.step(completed(3, "r")).is_some());
    assert_eq!(handler.in_flight(), &[1, 2, 4]);
    assert_eq!(handler.step(Event::Replied(Reply::Sent)), Some(Action::Done));
    assert!(handler.step(completed(1, "r")).is_some());
    assert_eq!(handler.in_flight(), &[2, 4]);
}

#[test]
fn replies_out_of_turn_are_not_taken() {
    let mut handler = TcpClientHandler::new();
    for reply in [
        Reply::Pushed(1),
        Reply::PushFailed,
        Reply::State(StoreState { pending: 0, completed: 0 }),
        Reply::QueryFailed,
        Reply::Sent,
        Reply::SendFailed(WriteError::Prefix),
    ] {
        assert_eq!(handler.resume(reply), None);
        assert_eq!(handler.phase(), Phase::Polling);
    }

    assert!(handler.step(request(new_task("a"))).is_some());
    for reply in [
        Reply::State(StoreState { pending: 0, completed: 0 }),
        Reply::QueryFailed,
        Reply::Sent,
        Reply::SendFailed(WriteError::Prefix),
    ] {
        assert_eq!(handler.resume(reply), None);
        assert_eq!(handler.phase(), Phase::Pushing);
    }

    let mut handler = TcpClientHandler::new();
    assert!(handler.step(request(MavrikRequest::GetStoreState)).is_some());
    for reply in [
        Reply::Pushed(1),
        Reply::PushFailed,
        Reply::Sent,
        Reply::SendFailed(WriteError::Prefix),
    ] {
        assert_eq!(handler.resume(reply), None);
        assert_eq!(handler.phase(), Phase::Querying);
    }
    assert!(handler.resume(Reply::State(StoreState { pending: 0, completed: 0 })).is_some());
    for reply in [
        Reply::Pushed(1),
        Reply::PushFailed,
        Reply::State(StoreState { pending: 0, completed: 0 }),
        Reply::QueryFailed,
    ] {
        assert_eq!(handler.resume(reply), None);
        assert_eq!(handler.phase(), Phase::Sending(ResponseKind::StoreState));
    }
}

#[test]
fn poll_task_hands_on_what_arrived() {
    let handler = awaiting(&[1]);
    assert_eq!(
        handler.poll_task(Arrival::Request(await_task(2))),
        Some(Ok(TaskOutputKind::Request(await_task(2))))
    );
    assert_eq!(
        handler.poll_task(Arrival::TaskResult(result_of(1, "r"))),
        Some(Ok(TaskOutputKind::TaskResult(result_of(1, "r"))))
    );
    assert_eq!(
        handler.poll_task(Arrival::ReadFailed(ReadError::ShortPayload)),
        Some(Err(HandlerError::Receive(ReadError::ShortPayload)))
    );
    assert_eq!(handler.poll_task(Arrival::PullFailed), Some(Err(HandlerError::Pull)));
    assert_eq!(handler.poll_task(Arrival::JoinFailed), Some(Err(HandlerError::Join)));
    assert_eq!(handler.poll_task(Arrival::TaskResult(result_of(2, "r"))), None);
    assert_eq!(handler.phase(), Phase::Polling);
    assert_eq!(handler.in_flight(), &[1]);
}

#[test]
fn poll_task_hands_on_nothing_unless_polling() {
    let mut handler = awaiting(&[1]);
    assert!(handler.step(request(new_task("a"))).is_some());
    assert_eq!(handler.poll_task(Arrival::Request(await_task(2))), None);
    assert_eq!(handler.poll_task(Arrival::TaskResult(result_of(1, "r"))), None);
    assert_eq!(handler.poll_task(Arrival::ReadFailed(ReadError::ShortPrefix)), None);
    assert_eq!(handler.poll_task(Arrival::PullFailed), None);
    assert_eq!(handler.poll_task(Arrival::JoinFailed), None);
}

#[test]
fn on_task_ready_dispatches() {
    let mut handler = TcpClientHandler::new();
    assert_eq!(
        handler.on_task_ready(Ok(TaskOutputKind::Request(await_task(4)))),
        Some(Action::Pull(4))
    );
    assert_eq!(
        handler.on_task_ready(Ok(TaskOutputKind::TaskResult(result_of(9, "r")))),
        None
    );
    assert_eq!(
        handler.on_task_ready(Ok(TaskOutputKind::TaskResult(result_of(4, "r")))),
        Some(Action::Send(MavrikResponse::CompletedTask(result_of(4, "r"))))
    );
    assert_eq!(handler.on_task_ready(Ok(TaskOutputKind::Request(await_task(5)))), None);
    assert_eq!(handler.on_task_ready(Err(HandlerError::Join)), None);
    assert_eq!(handler.resume(Reply::Sent), Some(Action::Done));
    assert_eq!(
        handler.on_task_ready(Err(HandlerError::Join)),
        Some(Action::Close(HandlerError::Join))
    );
    assert_eq!(handler.phase(), Phase::Closed);
    assert_eq!(handler.on_task_ready(Ok(TaskOutputKind::Request(await_task(5)))), None);
}

#[test]
fn step_agrees_with_poll_then_react() {
    let arrivals = vec![
        Arrival::Request(new_task("a")),
        Arrival::Request(await_task(3)),
        Arrival::Request(MavrikRequest::GetStoreState),
        Arrival::TaskResult(result_of(1, "r")),
        Arrival::TaskResult(result_of(2, "r")),
        Arrival::ReadFailed(ReadError::Malformed),
        Arrival::PullFailed,
        Arrival::JoinFailed,
    ];
    for arrival in arrivals {
        let mut stepped = awaiting(&[1]);
        let mut reacted = awaiting(&[1]);
        let by_step = stepped.step(Event::Arrived(arrival.clone()));
        let by_parts = match reacted.poll_task(arrival) {
            Some(output) => reacted.on_task_ready(output),
            None => None,
        };
        assert_eq!(by_step, by_parts);
        assert_eq!(stepped.phase(), reacted.phase());
        assert_eq!(stepped.in_flight(), reacted.in_flight());
    }
}
