//! What a connection does over a whole sequence of events, and the
//! guarantees that hold of every such sequence.

use crate::handler::{
    action_of, Action, Arrival, Event, HandlerError, HandlerState, Phase, Reply,
};
use crate::messaging::{
    MavrikRequest, MavrikResponse, NewTask, ResponseKind, Task, TaskId, TaskResult,
};
use crate::wire::ReadError;
use vstd::prelude::*;

verus! {

/// Feeds `events` to a connection in order. An event that the connection is
/// waiting for is taken and its action recorded; any other event is passed
/// over. Gives the state at the end and the actions in the order in which
/// they were asked for.
pub open spec fn run(state: HandlerState, events: Seq<Event>) -> (HandlerState, Seq<Action>)
    decreases events.len(),
{
    if events.len() == 0 {
        (state, Seq::empty())
    } else {
        match state.step(events.first()) {
            Some((next, action)) => {
                let (last, actions) = run(next, events.drop_first());
                (last, seq![action] + actions)
            },
            None => run(state, events.drop_first()),
        }
    }
}

/// One event that is taken, followed by more events: the action of the first,
/// then whatever the rest gives from the next state.
proof fn lemma_run_taken(
    state: HandlerState,
    event: Event,
    rest: Seq<Event>,
    next: HandlerState,
    action: Action,
)
    requires
        state.step(event) == Some((next, action)),
    ensures
        run(state, seq![event] + rest) == (run(next, rest).0, seq![action] + run(next, rest).1),
{
    let events = seq![event] + rest;
    assert(events.first() == event);
    assert(events.drop_first() =~= rest);
}

/// Events that are taken one after the other give their actions in that
/// order, and the state that the last of them leaves.
proof fn lemma_run_chain(states: Seq<HandlerState>, events: Seq<Event>, actions: Seq<Action>)
    requires
        states.len() == events.len() + 1,
        actions.len() == events.len(),
        forall|at: int|
            0 <= at < events.len() ==> (#[trigger] states[at]).step(events[at]) == Some(
                (states[at + 1], actions[at]),
            ),
    ensures
        run(states[0], events) == (states.last(), actions),
    decreases events.len(),
{
    if events.len() == 0 {
        assert(actions =~= Seq::<Action>::empty());
    } else {
        let later_states = states.drop_first();
        let later_events = events.drop_first();
        let later_actions = actions.drop_first();
        assert forall|at: int| 0 <= at < later_events.len() implies (#[trigger] later_states[at]).step(
            later_events[at],
        ) == Some((later_states[at + 1], later_actions[at])) by {
            assert(states[at + 1].step(events[at + 1]) == Some(
                (states[at + 2], actions[at + 1]),
            ));
        }
        lemma_run_chain(later_states, later_events, later_actions);
        assert(states[0].step(events[0]) == Some((states[1], actions[0])));
        assert(later_states.last() == states.last());
        assert(seq![actions[0]] + later_actions =~= actions);
    }
}

/// How a polling connection takes the request to await a task.
proof fn lemma_step_await(state: HandlerState, task_id: TaskId)
    requires
        state.phase is Polling,
    ensures
        state.step(Event::Arrived(Arrival::Request(MavrikRequest::AwaitTask { task_id })))
            == Some(
            (
                HandlerState { phase: Phase::Polling, in_flight: state.in_flight.push(task_id) },
                Action::Pull(task_id),
            ),
        ),
{
}

/// How a polling connection takes the result of a task in flight.
proof fn lemma_step_result(state: HandlerState, task_result: TaskResult)
    requires
        state.phase is Polling,
        state.in_flight.contains(task_result.id),
    ensures
        state.step(Event::Arrived(Arrival::TaskResult(task_result))) == Some(
            (
                HandlerState {
                    phase: Phase::Sending(ResponseKind::CompletedTask),
                    in_flight: state.in_flight.remove_value(task_result.id),
                },
                Action::Send(MavrikResponse::CompletedTask(task_result)),
            ),
        ),
{
}

/// How a polling connection takes a submitted task.
proof fn lemma_step_new_task(state: HandlerState, new_task: NewTask)
    requires
        state.phase is Polling,
    ensures
        state.step(Event::Arrived(Arrival::Request(MavrikRequest::NewTask(new_task)))) == Some(
            (
                HandlerState { phase: Phase::Pushing, in_flight: state.in_flight },
                Action::Push(Task { payload: new_task.payload }),
            ),
        ),
{
}

/// How a connection takes the identifier that the store gave to a task.
proof fn lemma_step_pushed(state: HandlerState, task_id: TaskId)
    requires
        state.phase is Pushing,
    ensures
        state.step(Event::Replied(Reply::Pushed(task_id))) == Some(
            (
                HandlerState {
                    phase: Phase::Sending(ResponseKind::NewTaskId),
                    in_flight: state.in_flight,
                },
                Action::Send(MavrikResponse::NewTaskId(task_id)),
            ),
        ),
{
}

/// How a connection takes the end of the write of a response.
proof fn lemma_step_sent(state: HandlerState)
    requires
        state.phase is Sending,
    ensures
        state.step(Event::Replied(Reply::Sent)) == Some(
            (HandlerState { phase: Phase::Polling, in_flight: state.in_flight }, Action::Done),
        ),
{
}

/// The action of a step is one that the phase allows, and it tells the phase
/// that follows.
proof fn lemma_step_keeps_protocol_order(state: HandlerState, event: Event)
    ensures
        state.step(event) matches Some((next, action)) ==> may_ask(state.phase, action)
            && next.phase == phase_after(action),
{
}

/// A connection that has ended takes no event: whatever happens afterwards, it
/// stays as it is and asks for nothing more.
pub proof fn lemma_closed_takes_nothing(state: HandlerState, events: Seq<Event>)
    requires
        state.phase is Closed,
    ensures
        run(state, events) == (state, Seq::<Action>::empty()),
    decreases events.len(),
{
    if events.len() > 0 {
        lemma_closed_takes_nothing(state, events.drop_first());
    }
}

/// While the reply to a request is outstanding (the store has yet to answer,
/// or the response is still being written) the connection takes neither a
/// further request nor the result of a retrieval: a request is handled
/// through to the end of its reply before anything else is looked at.
pub proof fn lemma_reply_comes_before_next_arrival(state: HandlerState, arrival: Arrival)
    requires
        state.phase is Pushing || state.phase is Querying || state.phase is Sending,
    ensures
        state.step(Event::Arrived(arrival)) is None,
{
}

/// Two tasks submitted one after the other are acknowledged one after the
/// other: the first is enqueued and its identifier sent before the second is
/// even handed to the store. This holds whatever is in flight meanwhile, and
/// leaves the connection as it was.
pub proof fn lemma_new_task_ids_in_submission_order(
    state: HandlerState,
    first: NewTask,
    second: NewTask,
    first_id: TaskId,
    second_id: TaskId,
)
    requires
        state.phase is Polling,
    ensures
        run(
            state,
            seq![
                Event::Arrived(Arrival::Request(MavrikRequest::NewTask(first))),
                Event::Replied(Reply::Pushed(first_id)),
                Event::Replied(Reply::Sent),
                Event::Arrived(Arrival::Request(MavrikRequest::NewTask(second))),
                Event::Replied(Reply::Pushed(second_id)),
                Event::Replied(Reply::Sent),
            ],
        ) == (
            state,
            seq![
                Action::Push(Task { payload: first.payload }),
                Action::Send(MavrikResponse::NewTaskId(first_id)),
                Action::Done,
                Action::Push(Task { payload: second.payload }),
                Action::Send(MavrikResponse::NewTaskId(second_id)),
                Action::Done,
            ],
        ),
{
    let polling = HandlerState { phase: Phase::Polling, in_flight: state.in_flight };
    let pushing = HandlerState { phase: Phase::Pushing, in_flight: state.in_flight };
    let sending = HandlerState {
        phase: Phase::Sending(ResponseKind::NewTaskId),
        in_flight: state.in_flight,
    };
    lemma_step_new_task(polling, first);
    lemma_step_pushed(pushing, first_id);
    lemma_step_sent(sending);
    lemma_step_new_task(polling, second);
    lemma_step_pushed(pushing, second_id);
    lemma_run_chain(
        seq![polling, pushing, sending, polling, pushing, sending, polling],
        seq![
            Event::Arrived(Arrival::Request(MavrikRequest::NewTask(first))),
            Event::Replied(Reply::Pushed(first_id)),
            Event::Replied(Reply::Sent),
            Event::Arrived(Arrival::Request(MavrikRequest::NewTask(second))),
            Event::Replied(Reply::Pushed(second_id)),
            Event::Replied(Reply::Sent),
        ],
        seq![
            Action::Push(Task { payload: first.payload }),
            Action::Send(MavrikResponse::NewTaskId(first_id)),
            Action::Done,
            Action::Push(Task { payload: second.payload }),
            Action::Send(MavrikResponse::NewTaskId(second_id)),
            Action::Done,
        ],
    );
}

/// Taking the first occurrence of one task out of a list leaves every other
/// entry of the list in it.
proof fn lemma_remove_value_keeps(tasks: Seq<TaskId>, gone: TaskId, at: int)
    requires
        0 <= at < tasks.len(),
        tasks.contains(gone),
        tasks.index_of_first(gone) != Some(at),
    ensures
        tasks.remove_value(gone).contains(tasks[at]),
{
    tasks.index_of_first_ensures(gone);
    let first = tasks.index_of_first(gone).unwrap();
    let left = tasks.remove(first);
    if at < first {
        assert(left[at] == tasks[at]);
    } else {
        assert(left[at - 1] == tasks[at]);
    }
}

/// Results reach the client in the order in which their retrievals complete,
/// not in the order in which the client asked for them: of two awaited tasks,
/// the one asked for second is forwarded first when its result is ready
/// first. This holds for any two tasks, the same task asked for twice
/// included, and whatever else is in flight.
pub proof fn lemma_results_in_completion_order(
    state: HandlerState,
    first_asked: TaskResult,
    second_asked: TaskResult,
)
    requires
        state.phase is Polling,
    ensures
        run(
            state,
            seq![
                Event::Arrived(
                    Arrival::Request(MavrikRequest::AwaitTask { task_id: first_asked.id }),
                ),
                Event::Arrived(
                    Arrival::Request(MavrikRequest::AwaitTask { task_id: second_asked.id }),
                ),
                Event::Arrived(Arrival::TaskResult(second_asked)),
                Event::Replied(Reply::Sent),
                Event::Arrived(Arrival::TaskResult(first_asked)),
                Event::Replied(Reply::Sent),
            ],
        ) == (
            HandlerState {
                phase: Phase::Polling,
                in_flight: state.in_flight.push(first_asked.id).push(second_asked.id).remove_value(
                    second_asked.id,
                ).remove_value(first_asked.id),
            },
            seq![
                Action::Pull(first_asked.id),
                Action::Pull(second_asked.id),
                Action::Send(MavrikResponse::CompletedTask(second_asked)),
                Action::Done,
                Action::Send(MavrikResponse::CompletedTask(first_asked)),
                Action::Done,
            ],
        ),
{
    let sending = Phase::Sending(ResponseKind::CompletedTask);
    let both = state.in_flight.push(first_asked.id).push(second_asked.id);
    let one = both.remove_value(second_asked.id);
    let none = one.remove_value(first_asked.id);
    let s1 = HandlerState { phase: Phase::Polling, in_flight: state.in_flight.push(first_asked.id) };
    let s2 = HandlerState { phase: Phase::Polling, in_flight: both };
    let s3 = HandlerState { phase: sending, in_flight: one };
    let s4 = HandlerState { phase: Phase::Polling, in_flight: one };
    let s5 = HandlerState { phase: sending, in_flight: none };
    let s6 = HandlerState { phase: Phase::Polling, in_flight: none };

    let last = both.len() - 1;
    assert(both[last] == second_asked.id);
    assert(both[last - 1] == first_asked.id);
    assert(both.contains(second_asked.id));
    assert(one.contains(first_asked.id)) by {
        both.index_of_first_ensures(second_asked.id);
        if first_asked.id == second_asked.id {
            lemma_remove_value_keeps(both, second_asked.id, last);
        } else {
            lemma_remove_value_keeps(both, second_asked.id, last - 1);
        }
    }

    lemma_step_await(state, first_asked.id);
    lemma_step_await(s1, second_asked.id);
    lemma_step_result(s2, second_asked);
    lemma_step_sent(s3);
    lemma_step_result(s4, first_asked);
    lemma_step_sent(s5);
    lemma_run_chain(
        seq![state, s1, s2, s3, s4, s5, s6],
        seq![
            Event::Arrived(Arrival::Request(MavrikRequest::AwaitTask { task_id: first_asked.id })),
            Event::Arrived(
                Arrival::Request(MavrikRequest::AwaitTask { task_id: second_asked.id }),
            ),
            Event::Arrived(Arrival::TaskResult(second_asked)),
            Event::Replied(Reply::Sent),
            Event::Arrived(Arrival::TaskResult(first_asked)),
            Event::Replied(Reply::Sent),
        ],
        seq![
            Action::Pull(first_asked.id),
            Action::Pull(second_asked.id),
            Action::Send(MavrikResponse::CompletedTask(second_asked)),
            Action::Done,
            Action::Send(MavrikResponse::CompletedTask(first_asked)),
            Action::Done,
        ],
    );
}

/// Awaiting a task never holds the connection up. After a task has been asked
/// for, the connection polls as before, takes whatever request comes next, and
/// answers it exactly as a connection with nothing in flight would, though
/// the awaited task may never complete.
pub proof fn lemma_await_does_not_block(
    state: HandlerState,
    task_id: TaskId,
    request: MavrikRequest,
)
    requires
        state.phase is Polling,
    ensures
        ({
            let waiting = HandlerState {
                phase: Phase::Polling,
                in_flight: state.in_flight.push(task_id),
            };
            let next = Event::Arrived(Arrival::Request(request));
            &&& state.step(Event::Arrived(Arrival::Request(MavrikRequest::AwaitTask { task_id })))
                == Some((waiting, Action::Pull(task_id)))
            &&& waiting.step(next) == Some(waiting.handle_request(request))
            &&& action_of(waiting.step(next)) == action_of(HandlerState::initial().step(next))
        }),
{
}

/// A failure of the store ends the connection at once and for good. Whether
/// the store refuses a task, gives no snapshot, or fails a retrieval, or a
/// retrieval cannot be joined: the one action asked for is to close, for that
/// reason, and whatever happens afterwards the connection asks for nothing
/// more, so nothing is tried again and no response is written.
pub proof fn lemma_store_failure_is_fatal(state: HandlerState, later: Seq<Event>)
    ensures
        state.phase is Pushing ==> run(state, seq![Event::Replied(Reply::PushFailed)] + later) == (
            state.with_phase(Phase::Closed),
            seq![Action::Close(HandlerError::Push)],
        ),
        state.phase is Querying ==> run(state, seq![Event::Replied(Reply::QueryFailed)] + later)
            == (state.with_phase(Phase::Closed), seq![Action::Close(HandlerError::Query)]),
        state.awaits_retrievals() ==> run(state, seq![Event::Arrived(Arrival::PullFailed)] + later)
            == (state.with_phase(Phase::Closed), seq![Action::Close(HandlerError::Pull)]),
        state.awaits_retrievals() ==> run(state, seq![Event::Arrived(Arrival::JoinFailed)] + later)
            == (state.with_phase(Phase::Closed), seq![Action::Close(HandlerError::Join)]),
{
    let closed = state.with_phase(Phase::Closed);
    lemma_closed_takes_nothing(closed, later);
    if state.phase is Pushing {
        let action = Action::Close(HandlerError::Push);
        lemma_run_taken(state, Event::Replied(Reply::PushFailed), later, closed, action);
        assert(seq![action] + Seq::<Action>::empty() =~= seq![action]);
    }
    if state.phase is Querying {
        let action = Action::Close(HandlerError::Query);
        lemma_run_taken(state, Event::Replied(Reply::QueryFailed), later, closed, action);
        assert(seq![action] + Seq::<Action>::empty() =~= seq![action]);
    }
    if state.awaits_retrievals() {
        let pull = Action::Close(HandlerError::Pull);
        lemma_run_taken(state, Event::Arrived(Arrival::PullFailed), later, closed, pull);
        assert(seq![pull] + Seq::<Action>::empty() =~= seq![pull]);
        let join = Action::Close(HandlerError::Join);
        lemma_run_taken(state, Event::Arrived(Arrival::JoinFailed), later, closed, join);
        assert(seq![join] + Seq::<Action>::empty() =~= seq![join]);
    }
}

/// When the stream of requests fails, the connection closes without waiting
/// for anything. However many retrievals are in flight, the one action asked
/// for is to close, for the reason that reading failed; the retrievals are
/// left exactly as they were, and nothing that happens afterwards, their
/// completion included, is taken or makes the connection ask for more.
pub proof fn lemma_close_abandons_retrievals(
    state: HandlerState,
    error: ReadError,
    later: Seq<Event>,
)
    requires
        state.phase is Polling,
    ensures
        run(state, seq![Event::Arrived(Arrival::ReadFailed(error))] + later) == (
            HandlerState { phase: Phase::Closed, in_flight: state.in_flight },
            seq![Action::Close(HandlerError::Receive(error))],
        ),
{
    let closed = state.with_phase(Phase::Closed);
    let action = Action::Close(HandlerError::Receive(error));
    lemma_closed_takes_nothing(closed, later);
    lemma_run_taken(state, Event::Arrived(Arrival::ReadFailed(error)), later, closed, action);
    assert(seq![action] + Seq::<Action>::empty() =~= seq![action]);
}

/// Whether a connection in `phase` can ask for `action`. While polling it asks
/// for what an arrival calls for; while the store or the client has yet to
/// answer, only for the next part of the reply under way, or to close for the
/// failure of that very part.
pub open spec fn may_ask(phase: Phase, action: Action) -> bool {
    match phase {
        Phase::Polling => match action {
            Action::Push(_) => true,
            Action::Pull(_) => true,
            Action::Query => true,
            Action::Send(response) => response is CompletedTask,
            Action::Done => false,
            Action::Close(error) => error is Receive || error is Pull || error is Join,
        },
        Phase::Pushing => match action {
            Action::Send(response) => response is NewTaskId,
            Action::Close(error) => error is Push,
            _ => false,
        },
        Phase::Querying => match action {
            Action::Send(response) => response is StoreState,
            Action::Close(error) => error is Query,
            _ => false,
        },
        Phase::Sending(kind) => match action {
            Action::Done => true,
            Action::Close(HandlerError::Send(failed, _)) => failed == kind,
            _ => false,
        },
        Phase::Closed => false,
    }
}

/// What a connection waits for once it has asked for `action`.
pub open spec fn phase_after(action: Action) -> Phase {
    match action {
        Action::Push(_) => Phase::Pushing,
        Action::Pull(_) => Phase::Polling,
        Action::Query => Phase::Querying,
        Action::Send(response) => Phase::Sending(response.spec_kind()),
        Action::Done => Phase::Polling,
        Action::Close(_) => Phase::Closed,
    }
}

/// What a connection that started in `start` waits for just before it asks
/// for the action at place `at` of `actions`.
pub open spec fn phase_before(start: Phase, actions: Seq<Action>, at: int) -> Phase {
    if at <= 0 {
        start
    } else {
        phase_after(actions[at - 1])
    }
}

/// Whatever events reach a connection, and in whatever order, what it asks
/// for keeps to the order of the protocol. A task handed to the store is
/// followed by nothing but the sending of its identifier, or by closing
/// because the store refused it; a question to the store by nothing but the
/// sending of the snapshot, or by closing; a response being sent by nothing
/// but its end; and closing by nothing at all. So no request is taken up
/// before the reply to the one before it has been written in full.
pub proof fn lemma_actions_keep_protocol_order(state: HandlerState, events: Seq<Event>)
    ensures
        ({
            let (last, actions) = run(state, events);
            &&& last.phase == phase_before(state.phase, actions, actions.len() as int)
            &&& forall|at: int|
                0 <= at < actions.len() ==> may_ask(
                    phase_before(state.phase, actions, at),
                    #[trigger] actions[at],
                )
        }),
    decreases events.len(),
{
    if events.len() > 0 {
        match state.step(events.first()) {
            Some((next, action)) => {
                lemma_actions_keep_protocol_order(next, events.drop_first());
                let rest = run(next, events.drop_first()).1;
                let actions = run(state, events).1;
                assert(actions == seq![action] + rest);
                lemma_step_keeps_protocol_order(state, events.first());
                assert forall|at: int| 0 <= at < actions.len() implies may_ask(
                    phase_before(state.phase, actions, at),
                    #[trigger] actions[at],
                ) by {
                    if at > 0 {
                        assert(actions[at] == rest[at - 1]);
                        assert(may_ask(phase_before(next.phase, rest, at - 1), rest[at - 1]));
                        if at > 1 {
                            assert(actions[at - 1] == rest[at - 2]);
                        }
                    }
                }
                if rest.len() > 0 {
                    assert(actions[actions.len() - 1] == rest[rest.len() - 1]);
                }
            },
            None => {
                lemma_actions_keep_protocol_order(state, events.drop_first());
            },
        }
    }
}

/// How many times the retrieval of `task_id` is in flight among `tasks`.
pub open spec fn times_in_flight(tasks: Seq<TaskId>, task_id: TaskId) -> nat {
    tasks.to_multiset().count(task_id)
}

/// Whether `action` starts a retrieval of `task_id`.
pub open spec fn asks_for(action: Action, task_id: TaskId) -> bool {
    action == Action::Pull(task_id)
}

/// Whether `action` sends the client a result of `task_id`.
pub open spec fn answers(action: Action, task_id: TaskId) -> bool {
    action matches Action::Send(MavrikResponse::CompletedTask(task_result)) && task_result.id
        == task_id
}

/// How many of `actions` start a retrieval of `task_id`.
pub open spec fn retrievals_started(actions: Seq<Action>, task_id: TaskId) -> nat
    decreases actions.len(),
{
    if actions.len() == 0 {
        0
    } else if asks_for(actions.first(), task_id) {
        1 + retrievals_started(actions.drop_first(), task_id)
    } else {
        retrievals_started(actions.drop_first(), task_id)
    }
}

/// How many of `actions` send the client a result of `task_id`.
pub open spec fn results_sent(actions: Seq<Action>, task_id: TaskId) -> nat
    decreases actions.len(),
{
    if actions.len() == 0 {
        0
    } else if answers(actions.first(), task_id) {
        1 + results_sent(actions.drop_first(), task_id)
    } else {
        results_sent(actions.drop_first(), task_id)
    }
}

/// One step keeps the books of every task: a retrieval that is started is in
/// flight once more, a result that is sent is in flight once less, and
/// nothing else touches what is in flight.
proof fn lemma_step_keeps_count(state: HandlerState, event: Event, task_id: TaskId)
    ensures
        state.step(event) matches Some((next, action)) ==> times_in_flight(
            next.in_flight,
            task_id,
        ) + (if answers(action, task_id) {
            1nat
        } else {
            0nat
        }) == times_in_flight(state.in_flight, task_id) + (if asks_for(action, task_id) {
            1nat
        } else {
            0nat
        }),
{
    if let Some((next, action)) = state.step(event) {
        state.in_flight.to_multiset_ensures();
        match action {
            Action::Pull(started) => {
                assert(next.in_flight == state.in_flight.push(started));
            },
            Action::Send(MavrikResponse::CompletedTask(task_result)) => {
                state.in_flight.index_of_first_ensures(task_result.id);
                let first = state.in_flight.index_of_first(task_result.id).unwrap();
                assert(next.in_flight == state.in_flight.remove(first));
                assert(state.in_flight[first] == task_result.id);
            },
            _ => {
                assert(next.in_flight == state.in_flight);
            },
        }
    }
}

/// Of every task, however often it is awaited, exactly as many results are
/// sent as retrievals were started, less those that are still in flight. So
/// no result reaches the client that it did not ask for, none reaches it
/// twice for one asking, and a retrieval stays in flight until its result is
/// sent. This holds of every sequence of events, from every state.
pub proof fn lemma_each_await_answered_once(
    state: HandlerState,
    events: Seq<Event>,
    task_id: TaskId,
)
    ensures
        ({
            let (last, actions) = run(state, events);
            times_in_flight(last.in_flight, task_id) + results_sent(actions, task_id)
                == times_in_flight(state.in_flight, task_id) + retrievals_started(
                actions,
                task_id,
            )
        }),
    decreases events.len(),
{
    if events.len() > 0 {
        match state.step(events.first()) {
            Some((next, action)) => {
                lemma_step_keeps_count(state, events.first(), task_id);
                lemma_each_await_answered_once(next, events.drop_first(), task_id);
                let rest = run(next, events.drop_first()).1;
                let actions = run(state, events).1;
                assert(actions == seq![action] + rest);
                assert(actions.first() == action);
                assert(actions.drop_first() =~= rest);
            },
            None => {
                lemma_each_await_answered_once(state, events.drop_first(), task_id);
            },
        }
    }
}

} // verus!
