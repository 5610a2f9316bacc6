//! What a single step can emit, action by action.
//!
//! Every action of a step has a reason in the state and the event that the
//! step began with. [`explained`] spells the reasons out and
//! [`lemma_step_explained`] proves that no step emits anything else. The
//! theorems about whole runs rest on this.

use crate::message::{
    ActionView, EventView, ExitPoll, ListKind, Origin, Purpose, INITIALIZED, list_changed_text,
};
use crate::model::{forwards, list_changed_burst, replays, Child, RunnerView, Session, Stage};
use crate::trace::{
    arriving, forwarded, forwarded_lines, lemma_forwarded_concat, lemma_forwarded_forwards,
    lemma_forwarded_none, lemma_forwarded_single,
};
use vstd::prelude::*;

verus! {

/// Whether an action belongs to the restart coordinator's routine: a notice,
/// a build, the closing of an input, a wait, a look at the exit status, a
/// spawn, or leaving. Such an action writes no line and kills nothing.
pub open spec fn routine(action: ActionView) -> bool {
    match action {
        ActionView::ToChild { .. } => false,
        ActionView::ToClient { .. } => false,
        ActionView::Kill { .. } => false,
        _ => true,
    }
}

/// Whether every action of a list is routine.
pub open spec fn all_routine(actions: Seq<ActionView>) -> bool {
    forall|i: int| 0 <= i < actions.len() ==> routine(#[trigger] actions[i])
}

/// Whether two states agree on everything that relay sessions own: the plan,
/// the captured request, the subscription table, the backlog, the state of
/// the client's input, and on whether the supervisor was asked to stop.
pub open spec fn same_session_data(first: RunnerView, second: RunnerView) -> bool {
    &&& first.plan == second.plan
    &&& first.captured == second.captured
    &&& first.subscriptions == second.subscriptions
    &&& first.backlog == second.backlog
    &&& first.client_open == second.client_open
    &&& first.closing == second.closing
    &&& first.answered == second.answered
}

/// What the coordinator's own moves do to the state: session data stays
/// untouched, the generation number is kept or raised by one, and a session
/// either stays as it is, ends, or waits for the child of the new generation.
pub open spec fn moved(before: RunnerView, after: RunnerView) -> bool {
    &&& same_session_data(before, after)
    &&& before.generation <= after.generation <= before.generation + 1
    &&& after.generation == before.generation ==> after.session == before.session
        || after.session is Ended || after.session is Finishing
    &&& after.generation > before.generation ==> after.session is WaitProcess
}

/// What the coordinator's own moves have in common: routine actions only, and
/// a state that merely moved.
pub open spec fn coordinated(before: RunnerView, outcome: (RunnerView, Seq<ActionView>)) -> bool {
    all_routine(outcome.1) && moved(before, outcome.0)
}

/// Every move of the coordinator merely moves the state.
pub proof fn lemma_moved(state: RunnerView, respawn: bool)
    ensures
        moved(state, state.spawn().0),
        moved(state, state.stop_child(respawn).0),
        moved(state, state.replace_child().0),
        moved(state, state.begin_restart().0),
        moved(state, state.settle().0),
        moved(state, state.after_stop(respawn).0),
        moved(state, state.end_generation().0),
        moved(state, state.finish().0),
{
}

/// Every move of the coordinator is coordinated.
pub proof fn lemma_coordinated(state: RunnerView, respawn: bool)
    ensures
        coordinated(state, state.spawn()),
        coordinated(state, state.stop_child(respawn)),
        coordinated(state, state.replace_child()),
        coordinated(state, state.begin_restart()),
        coordinated(state, state.settle()),
        coordinated(state, state.after_stop(respawn)),
        coordinated(state, state.end_generation()),
        coordinated(state, state.finish()),
{
    lemma_moved(state, respawn);
    let stopped = RunnerView { session: Session::Ended, ..state };
    assert(all_routine(state.spawn().1));
    assert(all_routine(state.stop_child(respawn).1));
    assert(all_routine(stopped.spawn().1));
    assert(all_routine(stopped.stop_child(true).1));
    assert(all_routine(state.replace_child().1));
}

/// Whether an event is a line printed by the child of a generation.
pub open spec fn printed_by(event: EventView, generation: nat) -> bool {
    match event {
        EventView::ChildLine { generation: from, .. } => from == generation,
        _ => false,
    }
}

/// Whether an event reports that the child has not exited.
pub open spec fn found_alive(event: EventView) -> bool {
    event == EventView::ExitPolled(ExitPoll::StillRunning) || event == EventView::ExitPolled(
        ExitPoll::Unknown,
    )
}

/// Whether an event reports that the spawn brought a child.
pub open spec fn child_started(event: EventView) -> bool {
    event == (EventView::SpawnFinished { started: true })
}

/// The reason a line for a child has in the state and the event of the step
/// that emits it.
pub open spec fn child_line_explained(
    state: RunnerView,
    event: EventView,
    line: Seq<char>,
    purpose: Purpose,
) -> bool {
    match purpose {
        Purpose::Initialize => state.captured is None && ((event == EventView::ClientLine(line)
            && state.session is AwaitRequest) || (child_started(event) && state.stage is Spawning
            && state.backlog.len() > 0 && line == state.backlog[0])),
        Purpose::Forward => state.captured is Some && ((event == EventView::ClientLine(line)
            && state.session is Relay) || (printed_by(event, state.generation)
            && state.backlog.contains(line))),
        Purpose::ReplayInitialize => child_started(event) && state.stage is Spawning
            && state.captured == Some(line),
        Purpose::Initialized => printed_by(event, state.generation) && state.session is AwaitReplay
            && line == INITIALIZED@,
        Purpose::ReplaySubscription => printed_by(event, state.generation)
            && state.session is AwaitReplay && state.plan.resend && exists|k: int|
            0 <= k < state.subscriptions.len() && (#[trigger] state.subscriptions[k]).1 == line,
    }
}

/// The reason a line for the client has in the state and the event of the
/// step that emits it.
pub open spec fn client_line_explained(
    state: RunnerView,
    event: EventView,
    line: Seq<char>,
    origin: Origin,
) -> bool {
    match origin {
        Origin::InitializeResponse => event == (EventView::ChildLine {
            generation: state.generation,
            line,
        }) && state.session is AwaitResponse,
        Origin::Relayed => event == (EventView::ChildLine { generation: state.generation, line })
            && (state.session is Relay || state.session is AwaitRequest
            || state.session is Finishing),
        Origin::ListChanged(kind) => printed_by(event, state.generation)
            && state.session is AwaitReplay && line == list_changed_text(kind),
    }
}

/// The reason an action has in the state and the event of the step that
/// emits it.
pub open spec fn explained(state: RunnerView, event: EventView, action: ActionView) -> bool {
    match action {
        ActionView::ToChild { generation, line, purpose } => generation == state.generation
            && child_line_explained(state, event, line, purpose),
        ActionView::ToClient { generation, line, origin } => generation == state.generation
            && client_line_explained(state, event, line, origin),
        ActionView::Kill { generation } => generation == state.generation
            && state.stage is Polling && found_alive(event),
        _ => true,
    }
}

/// Whether every action of a list is explained.
pub open spec fn all_explained(state: RunnerView, event: EventView, actions: Seq<ActionView>) -> bool {
    forall|i: int| 0 <= i < actions.len() ==> explained(state, event, #[trigger] actions[i])
}

/// Routine actions need no reason.
pub proof fn lemma_routine_explained(state: RunnerView, event: EventView, actions: Seq<ActionView>)
    requires
        all_routine(actions),
    ensures
        all_explained(state, event, actions),
{
}

/// Two explained lists make an explained list.
pub proof fn lemma_explained_concat(
    state: RunnerView,
    event: EventView,
    first: Seq<ActionView>,
    second: Seq<ActionView>,
)
    requires
        all_explained(state, event, first),
        all_explained(state, event, second),
    ensures
        all_explained(state, event, first + second),
{
    let both = first + second;
    assert forall|i: int| 0 <= i < both.len() implies explained(state, event, #[trigger] both[i]) by {
        if i < first.len() {
            assert(both[i] == first[i]);
        } else {
            assert(both[i] == second[i - first.len()]);
        }
    }
}

/// Handing the backlog to the child is explained by the child line that ended
/// the handshake.
pub proof fn lemma_enter_relay_explained(state: RunnerView, event: EventView)
    requires
        printed_by(event, state.generation),
        state.captured is Some,
    ensures
        all_explained(state, event, state.enter_relay().1),
{
    if state.child is Open {
        lemma_open_relay_explained(state, event);
    }
}

/// Opening the relay is explained by the child line that ended
/// the handshake.
proof fn lemma_open_relay_explained(state: RunnerView, event: EventView)
    requires
        printed_by(event, state.generation),
        state.captured is Some,
    ensures
        all_explained(state, event, state.open_relay().1),
{
    let sent = forwards(state.generation, state.backlog);
    assert forall|i: int| 0 <= i < sent.len() implies explained(state, event, #[trigger] sent[i]) by {
        assert(state.backlog[i] == state.backlog[i]);
        assert(state.backlog.contains(state.backlog[i]));
    }
    let relaying = RunnerView {
        session: Session::Relay,
        subscriptions: crate::model::observed_all(
            state.subscriptions,
            state.plan.resend,
            state.backlog,
        ),
        backlog: Seq::empty(),
        ..state
    };
    lemma_coordinated(relaying, false);
    lemma_routine_explained(state, event, relaying.finish().1);
    lemma_explained_concat(state, event, sent, relaying.finish().1);
    if state.client_open {
        assert(state.open_relay().1 == sent);
    } else {
        assert(state.open_relay().1 == sent + relaying.finish().1);
    }
}

/// The end of a replayed handshake is explained by the child line that
/// answered the replay.
pub proof fn lemma_finish_replay_explained(state: RunnerView, event: EventView)
    requires
        state.wf(),
        printed_by(event, state.generation),
        state.session is AwaitReplay,
    ensures
        all_explained(state, event, state.finish_replay().1),
{
    let greeting = seq![
        ActionView::Log(crate::message::Notice::SkippingResponse),
        ActionView::ToChild {
            generation: state.generation,
            line: INITIALIZED@,
            purpose: Purpose::Initialized,
        },
    ] + list_changed_burst(state.generation);
    assert forall|i: int| 0 <= i < greeting.len() implies explained(
        state,
        event,
        #[trigger] greeting[i],
    ) by {
        if i >= 2 {
            assert(greeting[i] == list_changed_burst(state.generation)[i - 2]);
        }
    }
    if state.plan.resend && state.subscriptions.len() > 0 && state.child is Open {
        let shown = replays(state.generation, state.subscriptions);
        assert forall|i: int| 0 <= i < shown.len() implies explained(
            state,
            event,
            #[trigger] shown[i],
        ) by {
            assert(state.subscriptions[i].1 == shown[i]->ToChild_line);
        }
        lemma_explained_concat(state, event, greeting, shown);
    } else {
        lemma_enter_relay_explained(state, event);
        lemma_explained_concat(state, event, greeting, state.enter_relay().1);
    }
}

/// Whatever a child line leads to is explained.
pub proof fn lemma_on_child_line_explained(state: RunnerView, generation: nat, line: Seq<char>)
    requires
        state.wf(),
    ensures
        all_explained(
            state,
            EventView::ChildLine { generation, line },
            state.on_child_line(generation, line).1,
        ),
{
    let event = EventView::ChildLine { generation, line };
    if generation == state.generation {
        match state.session {
            Session::AwaitResponse => {
                lemma_enter_relay_explained(state, event);
                let first = seq![
                    ActionView::ToClient { generation, line, origin: Origin::InitializeResponse },
                ];
                lemma_explained_concat(state, event, first, state.enter_relay().1);
            },
            Session::AwaitReplay => {
                lemma_finish_replay_explained(state, event);
            },
            Session::Draining { remaining } => {
                lemma_enter_relay_explained(state, event);
            },
            _ => {},
        }
    }
}

/// Whatever a finished spawn leads to is explained.
pub proof fn lemma_on_spawn_finished_explained(state: RunnerView, started: bool)
    ensures
        all_explained(
            state,
            EventView::SpawnFinished { started },
            state.on_spawn_finished(started).1,
        ),
{
    let event = EventView::SpawnFinished { started };
    if state.stage is Spawning {
        if started {
            let installed = RunnerView { child: Child::Open, stage: Stage::Quiet, ..state };
            let (opened, opening) = installed.start_session();
            lemma_coordinated(opened, false);
            lemma_routine_explained(state, event, opened.settle().1);
            let notice = seq![ActionView::Log(crate::message::Notice::Started)];
            assert(all_explained(state, event, opening));
            lemma_explained_concat(state, event, notice, opening);
            lemma_explained_concat(state, event, notice + opening, opened.settle().1);
        } else {
            let waiting = RunnerView {
                child: Child::Absent,
                stage: Stage::Quiet,
                session: Session::WaitProcess,
                ..state
            };
            lemma_coordinated(waiting, false);
            lemma_routine_explained(state, event, waiting.settle().1);
            let notices = seq![
                ActionView::Log(crate::message::Notice::SpawnFailed),
                ActionView::Log(crate::message::Notice::WaitingForProcess),
            ];
            lemma_explained_concat(state, event, notices, waiting.settle().1);
        }
    }
}

/// Taking a restart on emits routine actions only.
pub proof fn lemma_on_trigger_explained(state: RunnerView, event: EventView)
    ensures
        all_routine(state.on_trigger().1),
        all_explained(state, event, state.on_trigger().1),
{
    let counted = RunnerView { accepted: state.accepted + 1, ..state };
    lemma_coordinated(counted, false);
    assert(all_routine(state.on_trigger().1));
    lemma_routine_explained(state, event, state.on_trigger().1);
}

/// Every action of every step from a reachable state is explained.
pub proof fn lemma_step_explained(state: RunnerView, event: EventView)
    requires
        state.wf(),
    ensures
        all_explained(state, event, state.step(event).1),
{
    lemma_coordinated(state, true);
    lemma_coordinated(state, false);
    match event {
        EventView::Trigger => {
            lemma_on_trigger_explained(state, event);
        },
        EventView::FilesChanged { events } => {
            lemma_on_trigger_explained(state, event);
        },
        EventView::WatchFailed { errors } => {},
        EventView::BuildFinished(outcome) => {
            let notice = seq![ActionView::Log(crate::model::build_notice(outcome))];
            let idle = RunnerView { stage: Stage::Quiet, ..state };
            lemma_coordinated(idle, false);
            lemma_routine_explained(state, event, state.replace_child().1);
            lemma_routine_explained(state, event, idle.settle().1);
            lemma_explained_concat(state, event, notice, state.replace_child().1);
            lemma_explained_concat(state, event, notice, idle.settle().1);
        },
        EventView::GraceElapsed => {},
        EventView::ExitPolled(poll) => {
            if let Stage::Polling { respawn } = state.stage {
                lemma_coordinated(state, respawn);
                lemma_routine_explained(state, event, state.after_stop(respawn).1);
                match poll {
                    ExitPoll::ExitedCleanly => {
                        lemma_explained_concat(
                            state,
                            event,
                            seq![ActionView::Log(crate::message::Notice::ExitedCleanly)],
                            state.after_stop(respawn).1,
                        );
                    },
                    ExitPoll::ExitedWithError => {
                        lemma_explained_concat(
                            state,
                            event,
                            seq![ActionView::Log(crate::message::Notice::ExitedWithError)],
                            state.after_stop(respawn).1,
                        );
                    },
                    _ => {},
                }
            }
        },
        EventView::KillFinished { killed } => {
            if let Stage::Killing { respawn } = state.stage {
                lemma_coordinated(state, respawn);
                lemma_routine_explained(state, event, state.after_stop(respawn).1);
                let notice = if killed {
                    crate::message::Notice::Killed
                } else {
                    crate::message::Notice::KillFailed
                };
                lemma_explained_concat(
                    state,
                    event,
                    seq![ActionView::Log(notice)],
                    state.after_stop(respawn).1,
                );
            }
        },
        EventView::SpawnFinished { started } => {
            lemma_on_spawn_finished_explained(state, started);
        },
        EventView::ClientLine(line) => {},
        EventView::ClientClosed => {
            let closed = RunnerView { client_open: false, ..state };
            lemma_coordinated(closed, false);
        },
        EventView::ChildLine { generation, line } => {
            lemma_on_child_line_explained(state, generation, line);
        },
        EventView::ChildClosed { generation } => {},
        EventView::WriteFailed { generation } => {
            lemma_routine_explained(state, event, state.end_generation().1);
            lemma_explained_concat(
                state,
                event,
                seq![ActionView::Log(crate::message::Notice::WriteFailed)],
                state.end_generation().1,
            );
        },
        EventView::Shutdown => {
            let marked = RunnerView { closing: true, ..state };
            lemma_coordinated(marked, false);
            lemma_routine_explained(state, event, marked.end_generation().1);
            lemma_explained_concat(
                state,
                event,
                seq![ActionView::Log(crate::message::Notice::ShuttingDown)],
                marked.end_generation().1,
            );
        },
    }
}

/// Whether an action is routine or hands a backlog line to a child.
pub open spec fn routine_or_forward(action: ActionView) -> bool {
    routine(action) || action matches ActionView::ToChild { purpose: Purpose::Forward, .. }
}

/// Entering the relay emits nothing but forwards and routine actions.
pub proof fn lemma_enter_relay_members(state: RunnerView)
    ensures
        forall|i: int|
            0 <= i < state.enter_relay().1.len() ==> routine_or_forward(
                #[trigger] state.enter_relay().1[i],
            ),
{
    if state.child is Open {
        lemma_open_relay_members(state);
    }
}

/// Opening the relay emits nothing but forwards and routine actions.
proof fn lemma_open_relay_members(state: RunnerView)
    ensures
        forall|i: int|
            0 <= i < state.open_relay().1.len() ==> routine_or_forward(
                #[trigger] state.open_relay().1[i],
            ),
{
    let sent = forwards(state.generation, state.backlog);
    let relaying = RunnerView {
        session: Session::Relay,
        subscriptions: crate::model::observed_all(
            state.subscriptions,
            state.plan.resend,
            state.backlog,
        ),
        backlog: Seq::empty(),
        ..state
    };
    lemma_coordinated(relaying, false);
    let tail = relaying.finish().1;
    let all = state.open_relay().1;
    assert forall|i: int| 0 <= i < all.len() implies routine_or_forward(#[trigger] all[i]) by {
        if state.client_open {
            assert(all[i] == sent[i]);
        } else {
            assert(all == sent + tail);
            if i < sent.len() {
                assert(all[i] == sent[i]);
            } else {
                assert(all[i] == tail[i - sent.len()]);
            }
        }
    }
}

/// Where the answer to the client's initialize request can stand among the
/// actions of a step: in front, and nowhere else.
pub proof fn lemma_step_response_first(state: RunnerView, event: EventView)
    requires
        state.wf(),
    ensures
        forall|i: int|
            0 <= i < state.step(event).1.len() ==> (#[trigger] state.step(event).1[i] matches ActionView::ToClient {
                origin: Origin::InitializeResponse,
                ..
            } ==> i == 0),
{
    lemma_step_explained(state, event);
    let actions = state.step(event).1;
    assert forall|i: int| 0 <= i < actions.len() implies (#[trigger] actions[i] matches ActionView::ToClient {
        origin: Origin::InitializeResponse,
        ..
    } ==> i == 0) by {
        if actions[i] matches ActionView::ToClient { origin: Origin::InitializeResponse, .. } {
            assert(explained(state, event, actions[i]));
            let line = event->ChildLine_line;
            assert(state.session is AwaitResponse);
            lemma_enter_relay_members(state);
            let rest = state.enter_relay().1;
            if i > 0 {
                assert(actions[i] == rest[i - 1]);
                assert(routine_or_forward(rest[i - 1]));
            }
        }
    }
}

/// Where the client's initialize request can stand among the actions of a
/// step: in one place at most.
pub proof fn lemma_step_initialize_once(state: RunnerView, event: EventView)
    requires
        state.wf(),
    ensures
        forall|i: int, j: int|
            0 <= i < j < state.step(event).1.len() ==> !(#[trigger] state.step(event).1[i] matches ActionView::ToChild {
                purpose: Purpose::Initialize,
                ..
            } && #[trigger] state.step(event).1[j] matches ActionView::ToChild {
                purpose: Purpose::Initialize,
                ..
            }),
{
    lemma_step_explained(state, event);
    let actions = state.step(event).1;
    assert forall|i: int, j: int| 0 <= i < j < actions.len() implies !(#[trigger] actions[i] matches ActionView::ToChild {
        purpose: Purpose::Initialize,
        ..
    } && #[trigger] actions[j] matches ActionView::ToChild { purpose: Purpose::Initialize, .. }) by {
        if actions[i] matches ActionView::ToChild { purpose: Purpose::Initialize, .. } {
            if actions[j] matches ActionView::ToChild { purpose: Purpose::Initialize, .. } {
                assert(explained(state, event, actions[i]));
                assert(explained(state, event, actions[j]));
                if event is ClientLine {
                    assert(actions.len() == 1);
                } else {
                    let installed = RunnerView { child: Child::Open, stage: Stage::Quiet, ..state };
                    let (opened, opening) = installed.start_session();
                    lemma_coordinated(opened, false);
                    let tail = opened.settle().1;
                    let head = seq![ActionView::Log(crate::message::Notice::Started)] + opening;
                    assert(actions == head + tail);
                    assert(head.len() == 2);
                    assert(actions[0] == head[0]);
                    if j >= 2 {
                        assert(actions[j] == tail[j - 2]);
                    }
                }
            }
        }
    }
}

/// The synthetic `initialized` notification for the child of a generation.
pub open spec fn initialized_for(generation: nat) -> ActionView {
    ActionView::ToChild { generation, line: INITIALIZED@, purpose: Purpose::Initialized }
}

/// The list-changed notification of a kind, written for a generation.
pub open spec fn list_changed_for(generation: nat, kind: ListKind) -> ActionView {
    ActionView::ToClient {
        generation,
        line: list_changed_text(kind),
        origin: Origin::ListChanged(kind),
    }
}

/// Whether the actions from index `at` on begin with the `initialized`
/// notification for the child and the three list-changed notifications for the
/// client, in their fixed order.
pub open spec fn burst_at(actions: Seq<ActionView>, at: int, generation: nat) -> bool {
    &&& 0 <= at
    &&& at + 4 <= actions.len()
    &&& actions[at] == initialized_for(generation)
    &&& actions[at + 1] == list_changed_for(generation, ListKind::Tools)
    &&& actions[at + 2] == list_changed_for(generation, ListKind::Prompts)
    &&& actions[at + 3] == list_changed_for(generation, ListKind::Resources)
}

/// The place of a kind within a burst.
pub open spec fn burst_offset(kind: ListKind) -> int {
    match kind {
        ListKind::Tools => 1,
        ListKind::Prompts => 2,
        ListKind::Resources => 3,
    }
}

/// A list-changed notification appears in a step only as part of the one
/// burst that answers a replayed handshake.
pub proof fn lemma_step_burst(state: RunnerView, event: EventView)
    requires
        state.wf(),
    ensures
        forall|i: int|
            0 <= i < state.step(event).1.len() ==> (#[trigger] state.step(event).1[i] matches ActionView::ToClient {
                origin: Origin::ListChanged(kind),
                ..
            } ==> state.session is AwaitReplay && printed_by(event, state.generation) && i == 1
                + burst_offset(kind) && burst_at(state.step(event).1, 1, state.generation)),
        state.session is AwaitReplay && printed_by(event, state.generation) ==> burst_at(
            state.step(event).1,
            1,
            state.generation,
        ) && past_handshake(state.step(event).0.session) && state.step(event).0.generation
            == state.generation,
{
    lemma_step_explained(state, event);
    let actions = state.step(event).1;
    if state.session is AwaitReplay && printed_by(event, state.generation) {
        lemma_enter_relay_advances(state);
        let greeting = seq![
            ActionView::Log(crate::message::Notice::SkippingResponse),
            initialized_for(state.generation),
        ] + list_changed_burst(state.generation);
        let rest = if state.plan.resend && state.subscriptions.len() > 0 && state.child is Open {
            replays(state.generation, state.subscriptions)
        } else {
            state.enter_relay().1
        };
        lemma_enter_relay_members(state);
        assert(actions == greeting + rest);
        assert(greeting.len() == 5);
        assert(actions[1] == greeting[1]);
        assert(actions[2] == greeting[2]);
        assert(actions[3] == greeting[3]);
        assert(actions[4] == greeting[4]);
        assert(greeting[2] == list_changed_burst(state.generation)[0]);
        assert(greeting[3] == list_changed_burst(state.generation)[1]);
        assert(greeting[4] == list_changed_burst(state.generation)[2]);
        assert(burst_at(actions, 1, state.generation));
        assert forall|i: int| 0 <= i < actions.len() implies (#[trigger] actions[i] matches ActionView::ToClient {
            origin: Origin::ListChanged(kind),
            ..
        } ==> i == 1 + burst_offset(kind)) by {
            if i >= 5 {
                assert(actions[i] == rest[i - 5]);
                assert(routine_or_forward(rest[i - 5]) || rest[i - 5] is ToChild);
            } else {
                assert(actions[i] == greeting[i]);
            }
        }
    } else {
        assert forall|i: int| 0 <= i < actions.len() implies !(#[trigger] actions[i] matches ActionView::ToClient {
            origin: Origin::ListChanged(_),
            ..
        }) by {
            assert(explained(state, event, actions[i]));
        }
    }
}

/// Whether a session state is one that follows a completed handshake or the
/// end of the generation.
pub open spec fn past_handshake(session: Session) -> bool {
    session is Draining || session is Relay || session is Finishing || session is Ended
}

/// How a step may move the handshake along.
pub open spec fn advances(before: RunnerView, after: RunnerView) -> bool {
    // A captured request stays what it is.
    &&& before.captured is Some ==> after.captured == before.captured
    // Within a generation there is no way back into the handshake.
    &&& after.generation == before.generation && past_handshake(before.session) ==> past_handshake(
        after.session,
    )
    // A new generation starts without a child.
    &&& after.generation != before.generation ==> after.generation == before.generation + 1
        && after.session is WaitProcess
    // A response that the client holds stays held.
    &&& before.answered ==> after.answered
    // The answer to the client's request is awaited only from the step that
    // captures the request.
    &&& after.session is AwaitResponse ==> after.generation == before.generation && (
    before.session is AwaitResponse || before.captured is None)
    // The answer to a replay is awaited only from the step that installs the
    // child.
    &&& after.session is AwaitReplay ==> after.generation == before.generation && (
    before.session is AwaitReplay || before.session is WaitProcess)
    &&& after.session is WaitProcess && after.generation == before.generation
        ==> before.session is WaitProcess
}

/// A finished spawn advances the handshake.
proof fn lemma_on_spawn_finished_advances(state: RunnerView, started: bool)
    requires
        state.wf(),
    ensures
        advances(state, state.on_spawn_finished(started).0),
{
    if state.stage is Spawning {
        if started {
            let installed = RunnerView { child: Child::Open, stage: Stage::Quiet, ..state };
            let (opened, opening) = installed.start_session();
            lemma_moved(opened, false);
            assert(moved(opened, opened.settle().0));
        } else {
            let waiting = RunnerView {
                child: Child::Absent,
                stage: Stage::Quiet,
                session: Session::WaitProcess,
                ..state
            };
            lemma_moved(waiting, false);
            assert(moved(waiting, waiting.settle().0));
        }
    }
}

/// Entering the relay leads past the handshake.
proof fn lemma_enter_relay_advances(state: RunnerView)
    ensures
        state.enter_relay().0.generation == state.generation,
        state.enter_relay().0.captured == state.captured,
        state.enter_relay().0.answered == state.answered,
        state.enter_relay().0.session is Relay || state.enter_relay().0.session is Finishing
            || state.enter_relay().0.session is Ended,
{
    if state.child is Open {
        lemma_open_relay_advances(state);
    }
}

/// Opening the relay leads past the handshake.
proof fn lemma_open_relay_advances(state: RunnerView)
    requires
        state.child is Open,
    ensures
        state.open_relay().0.generation == state.generation,
        state.open_relay().0.captured == state.captured,
        state.open_relay().0.answered == state.answered,
        state.open_relay().0.session is Relay || state.open_relay().0.session is Finishing
            || state.open_relay().0.session is Ended,
{
    let relaying = RunnerView {
        session: Session::Relay,
        subscriptions: crate::model::observed_all(
            state.subscriptions,
            state.plan.resend,
            state.backlog,
        ),
        backlog: Seq::empty(),
        ..state
    };
    lemma_moved(relaying, false);
    assert(moved(relaying, relaying.finish().0));
}

/// A child line advances the handshake.
proof fn lemma_on_child_line_advances(state: RunnerView, generation: nat, line: Seq<char>)
    requires
        state.wf(),
    ensures
        advances(state, state.on_child_line(generation, line).0),
{
    if state.serving() {
        lemma_enter_relay_advances(state);
    }
}

/// Every step from a reachable state advances the handshake.
pub proof fn lemma_step_handshake(state: RunnerView, event: EventView)
    requires
        state.wf(),
    ensures
        advances(state, state.step(event).0),
{
    match event {
        EventView::Trigger => {
            let counted = RunnerView { accepted: state.accepted + 1, ..state };
            lemma_moved(counted, false);
            assert(moved(state, state.on_trigger().0));
        },
        EventView::FilesChanged { events } => {
            let counted = RunnerView { accepted: state.accepted + 1, ..state };
            lemma_moved(counted, false);
            assert(moved(state, state.on_trigger().0));
        },
        EventView::WatchFailed { errors } => {},
        EventView::BuildFinished(outcome) => {
            let idle = RunnerView { stage: Stage::Quiet, ..state };
            lemma_moved(state, true);
            lemma_moved(idle, false);
            assert(moved(idle, idle.settle().0));
            assert(moved(state, state.on_build_finished(outcome).0));
        },
        EventView::GraceElapsed => {},
        EventView::ExitPolled(poll) => {
            lemma_moved(state, true);
            lemma_moved(state, false);
            assert(moved(state, state.on_exit_polled(poll).0));
        },
        EventView::KillFinished { killed } => {
            lemma_moved(state, true);
            lemma_moved(state, false);
            assert(moved(state, state.on_kill_finished(killed).0));
        },
        EventView::SpawnFinished { started } => {
            lemma_on_spawn_finished_advances(state, started);
        },
        EventView::ClientLine(line) => {},
        EventView::ClientClosed => {
            let closed = RunnerView { client_open: false, ..state };
            lemma_moved(closed, false);
        },
        EventView::ChildLine { generation, line } => {
            lemma_on_child_line_advances(state, generation, line);
        },
        EventView::ChildClosed { generation } => {},
        EventView::WriteFailed { generation } => {
            lemma_moved(state, false);
            assert(moved(state, state.on_write_failed(generation).0));
        },
        EventView::Shutdown => {
            let marked = RunnerView { closing: true, ..state };
            lemma_moved(marked, false);
            assert(moved(marked, marked.end_generation().0));
        },
    }
}

/// Whether an event concerns the coordinator alone: it brings no line and
/// installs no child.
pub open spec fn coordinator_event(event: EventView) -> bool {
    match event {
        EventView::ClientLine(_) => false,
        EventView::ClientClosed => false,
        EventView::ChildLine { .. } => false,
        EventView::SpawnFinished { .. } => false,
        EventView::Shutdown => false,
        _ => true,
    }
}

/// A step on a coordinator event merely moves the state.
pub proof fn lemma_step_moved(state: RunnerView, event: EventView)
    requires
        state.wf(),
        coordinator_event(event),
    ensures
        moved(state, state.step(event).0),
{
    match event {
        EventView::Trigger => {
            let counted = RunnerView { accepted: state.accepted + 1, ..state };
            lemma_moved(counted, false);
            assert(moved(state, state.on_trigger().0));
        },
        EventView::FilesChanged { events } => {
            let counted = RunnerView { accepted: state.accepted + 1, ..state };
            lemma_moved(counted, false);
            assert(moved(state, state.on_trigger().0));
        },
        EventView::BuildFinished(outcome) => {
            let idle = RunnerView { stage: Stage::Quiet, ..state };
            lemma_moved(state, true);
            lemma_moved(idle, false);
            assert(moved(idle, idle.settle().0));
            assert(moved(state, state.on_build_finished(outcome).0));
        },
        EventView::ExitPolled(poll) => {
            lemma_moved(state, true);
            lemma_moved(state, false);
            assert(moved(state, state.on_exit_polled(poll).0));
        },
        EventView::KillFinished { killed } => {
            lemma_moved(state, true);
            lemma_moved(state, false);
            assert(moved(state, state.on_kill_finished(killed).0));
        },
        EventView::WriteFailed { generation } => {
            lemma_moved(state, false);
            assert(moved(state, state.on_write_failed(generation).0));
        },
        _ => {},
    }
}

/// Routine actions forward no line.
pub proof fn lemma_routine_forwards_nothing(actions: Seq<ActionView>)
    requires
        all_routine(actions),
    ensures
        forwarded_lines(actions) == Seq::<Seq<char>>::empty(),
{
    assert forall|i: int| 0 <= i < actions.len() implies forwarded(#[trigger] actions[i]) is None by {
        assert(routine(actions[i]));
    }
    lemma_forwarded_none(actions);
}

/// Entering the relay forwards the backlog or, where the generation stops
/// instead, leaves it as it is.
proof fn lemma_enter_relay_forwards(state: RunnerView)
    ensures
        forwarded_lines(state.enter_relay().1) + state.enter_relay().0.backlog == state.backlog,
{
    let empty = Seq::<Seq<char>>::empty();
    if state.child is Open {
        lemma_open_relay_forwards(state);
        assert(state.backlog + empty =~= state.backlog);
    } else {
        assert(forwarded_lines(Seq::<ActionView>::empty()) =~= empty);
        assert(empty + state.backlog =~= state.backlog);
    }
}

/// Opening the relay forwards the backlog, all of it and nothing else.
proof fn lemma_open_relay_forwards(state: RunnerView)
    ensures
        forwarded_lines(state.open_relay().1) == state.backlog,
        state.open_relay().0.backlog == Seq::<Seq<char>>::empty(),
{
    let sent = forwards(state.generation, state.backlog);
    let relaying = RunnerView {
        session: Session::Relay,
        subscriptions: crate::model::observed_all(
            state.subscriptions,
            state.plan.resend,
            state.backlog,
        ),
        backlog: Seq::empty(),
        ..state
    };
    lemma_coordinated(relaying, false);
    lemma_forwarded_forwards(state.generation, state.backlog);
    if !state.client_open {
        let tail = relaying.finish().1;
        lemma_routine_forwards_nothing(tail);
        lemma_forwarded_concat(sent, tail);
        assert(state.backlog + Seq::<Seq<char>>::empty() =~= state.backlog);
    }
}

/// The end of a replayed handshake forwards what entering the relay
/// forwards, or nothing where subscriptions are shown first.
proof fn lemma_finish_replay_forwards(state: RunnerView)
    ensures
        forwarded_lines(state.finish_replay().1) + state.finish_replay().0.backlog
            == state.backlog,
{
    let greeting = seq![
        ActionView::Log(crate::message::Notice::SkippingResponse),
        initialized_for(state.generation),
    ] + list_changed_burst(state.generation);
    assert forall|i: int| 0 <= i < greeting.len() implies forwarded(#[trigger] greeting[i]) is None by {
        if i >= 2 {
            assert(greeting[i] == list_changed_burst(state.generation)[i - 2]);
        }
    }
    lemma_forwarded_none(greeting);
    let empty = Seq::<Seq<char>>::empty();
    if state.plan.resend && state.subscriptions.len() > 0 && state.child is Open {
        let shown = replays(state.generation, state.subscriptions);
        lemma_forwarded_none(shown);
        lemma_forwarded_concat(greeting, shown);
        assert(empty + empty + state.backlog =~= state.backlog);
    } else {
        lemma_enter_relay_forwards(state);
        lemma_forwarded_concat(greeting, state.enter_relay().1);
        assert(empty + forwarded_lines(state.enter_relay().1) =~= forwarded_lines(
            state.enter_relay().1,
        ));
    }
}

/// A child line forwards the backlog or leaves it alone.
proof fn lemma_on_child_line_forwards(state: RunnerView, generation: nat, line: Seq<char>)
    ensures
        forwarded_lines(state.on_child_line(generation, line).1) + state.on_child_line(
            generation,
            line,
        ).0.backlog == state.backlog,
{
    let empty = Seq::<Seq<char>>::empty();
    assert(empty + state.backlog =~= state.backlog);
    assert(state.backlog + empty =~= state.backlog);
    if generation == state.generation {
        match state.session {
            Session::AwaitRequest | Session::Relay | Session::Finishing => {
                lemma_forwarded_single(
                    ActionView::ToClient { generation, line, origin: Origin::Relayed },
                );
            },
            Session::AwaitResponse => {
                let first = seq![
                    ActionView::ToClient { generation, line, origin: Origin::InitializeResponse },
                ];
                lemma_forwarded_single(first[0]);
                lemma_enter_relay_forwards(state);
                lemma_forwarded_concat(first, state.enter_relay().1);
                assert(empty + forwarded_lines(state.enter_relay().1) =~= forwarded_lines(
                    state.enter_relay().1,
                ));
            },
            Session::AwaitReplay => {
                lemma_finish_replay_forwards(state);
            },
            Session::Draining { remaining } => {
                lemma_enter_relay_forwards(state);
            },
            _ => {},
        }
    }
}

/// A finished spawn forwards the client's first line, where one waits and
/// none was captured before, and nothing else.
proof fn lemma_on_spawn_finished_forwards(state: RunnerView, started: bool)
    ensures
        forwarded_lines(state.on_spawn_finished(started).1) + state.on_spawn_finished(
            started,
        ).0.backlog == state.backlog,
{
    let empty = Seq::<Seq<char>>::empty();
    assert(empty + state.backlog =~= state.backlog);
    if state.stage is Spawning {
        if started {
            let installed = RunnerView { child: Child::Open, stage: Stage::Quiet, ..state };
            let (opened, opening) = installed.start_session();
            lemma_coordinated(opened, false);
            let tail = opened.settle().1;
            let notice = seq![ActionView::Log(crate::message::Notice::Started)];
            lemma_forwarded_single(notice[0]);
            lemma_routine_forwards_nothing(tail);
            lemma_forwarded_concat(notice, opening);
            lemma_forwarded_concat(notice + opening, tail);
            if opening.len() == 1 {
                assert(opening =~= seq![opening[0]]);
                lemma_forwarded_single(opening[0]);
            }
            if state.captured is None && state.backlog.len() > 0 {
                assert(seq![state.backlog[0]] + state.backlog.drop_first() =~= state.backlog);
                assert(empty + seq![state.backlog[0]] + empty =~= seq![state.backlog[0]]);
            } else {
                assert(empty + empty + empty =~= empty);
            }
        } else {
            let waiting = RunnerView {
                child: Child::Absent,
                stage: Stage::Quiet,
                session: Session::WaitProcess,
                ..state
            };
            lemma_coordinated(waiting, false);
            let notices = seq![
                ActionView::Log(crate::message::Notice::SpawnFailed),
                ActionView::Log(crate::message::Notice::WaitingForProcess),
            ];
            lemma_forwarded_none(notices);
            lemma_routine_forwards_nothing(waiting.settle().1);
            lemma_forwarded_concat(notices, waiting.settle().1);
            assert(empty + empty =~= empty);
        }
    }
}

/// In every step from a reachable state the lines that are forwarded,
/// followed by the lines that wait afterwards, are the lines that waited
/// before, followed by the line that arrived.
pub proof fn lemma_step_forwards(state: RunnerView, event: EventView)
    requires
        state.wf(),
    ensures
        forwarded_lines(state.step(event).1) + state.step(event).0.backlog == state.backlog
            + arriving(event),
{
    let empty = Seq::<Seq<char>>::empty();
    assert(empty + state.backlog =~= state.backlog);
    assert(state.backlog + empty =~= state.backlog);
    match event {
        EventView::ClientLine(line) => {
            match state.session {
                Session::AwaitRequest => {
                    lemma_forwarded_single(state.step(event).1[0]);
                    assert(state.step(event).1 =~= seq![state.step(event).1[0]]);
                    assert(seq![line] + empty =~= empty + seq![line]);
                    assert(state.backlog =~= empty);
                },
                Session::Relay => {
                    lemma_forwarded_single(state.step(event).1[0]);
                    assert(state.step(event).1 =~= seq![state.step(event).1[0]]);
                    assert(seq![line] + empty =~= empty + seq![line]);
                    assert(state.backlog =~= empty);
                },
                _ => {
                    assert(empty + state.backlog.push(line) =~= state.backlog + seq![line]);
                },
            }
        },
        EventView::ClientClosed => {
            let closed = RunnerView { client_open: false, ..state };
            lemma_coordinated(closed, false);
            lemma_routine_forwards_nothing(state.step(event).1);
        },
        EventView::Shutdown => {
            let marked = RunnerView { closing: true, ..state };
            lemma_coordinated(marked, false);
            let notice = seq![ActionView::Log(crate::message::Notice::ShuttingDown)];
            lemma_forwarded_none(notice);
            lemma_routine_forwards_nothing(marked.end_generation().1);
            lemma_forwarded_concat(notice, marked.end_generation().1);
            assert(empty + empty =~= empty);
        },
        EventView::ChildLine { generation, line } => {
            lemma_on_child_line_forwards(state, generation, line);
        },
        EventView::SpawnFinished { started } => {
            lemma_on_spawn_finished_forwards(state, started);
        },
        _ => {
            lemma_step_moved(state, event);
            lemma_step_explained(state, event);
            let actions = state.step(event).1;
            assert forall|i: int| 0 <= i < actions.len() implies forwarded(#[trigger] actions[i]) is None by {
                assert(explained(state, event, actions[i]));
            }
            lemma_forwarded_none(actions);
        },
    }
}

/// Whether an action passes the client's own initialize request on.
pub open spec fn is_initialize(action: ActionView) -> bool {
    action matches ActionView::ToChild { purpose: Purpose::Initialize, .. }
}

/// Whether an action gives a child the client's initialize request, be it
/// for the first time or again.
pub open spec fn gives_request(action: ActionView) -> bool {
    action matches ActionView::ToChild { purpose: Purpose::Initialize, .. }
        || action matches ActionView::ToChild { purpose: Purpose::ReplayInitialize, .. }
}

/// Whether an action passes a child's answer to the client's own initialize
/// request on.
pub open spec fn is_response(action: ActionView) -> bool {
    action matches ActionView::ToClient { origin: Origin::InitializeResponse, .. }
}

/// Whether an action is a list-changed notification for the client.
pub open spec fn is_list_changed(action: ActionView) -> bool {
    action matches ActionView::ToClient { origin: Origin::ListChanged(_), .. }
}

/// The generation that a line is written for; zero for any other action.
pub open spec fn generation_of(action: ActionView) -> nat {
    match action {
        ActionView::ToChild { generation, .. } => generation,
        ActionView::ToClient { generation, .. } => generation,
        _ => 0,
    }
}

/// How the steps that pass the initialize request and its answer on change
/// the state.
pub proof fn lemma_step_capture(state: RunnerView, event: EventView)
    requires
        state.wf(),
    ensures
        forall|i: int|
            0 <= i < state.step(event).1.len() && is_initialize(#[trigger] state.step(event).1[i])
                ==> state.captured is None && state.step(event).0.captured is Some
                && state.step(event).0.generation == state.generation && generation_of(
                state.step(event).1[i],
            ) == state.generation,
        forall|i: int|
            0 <= i < state.step(event).1.len() && is_response(#[trigger] state.step(event).1[i])
                ==> state.session is AwaitResponse && !(state.step(event).0.session is AwaitResponse)
                && state.step(event).0.generation == state.generation && generation_of(
                state.step(event).1[i],
            ) == state.generation && !state.answered && state.step(event).0.answered,
        state.step(event).0.session is AwaitResponse && !(state.session is AwaitResponse)
            ==> exists|i: int|
            0 <= i < state.step(event).1.len() && is_initialize(#[trigger] state.step(event).1[i])
                && generation_of(state.step(event).1[i]) == state.generation,
        !state.answered && state.step(event).0.answered ==> exists|i: int|
            0 <= i < state.step(event).1.len() && is_response(#[trigger] state.step(event).1[i]),
        state.captured is None && state.step(event).0.captured is Some ==> (event
            == EventView::ClientLine(state.step(event).0.captured->0) && state.session is AwaitRequest)
            || (child_started(event) && state.backlog.len() > 0 && state.step(event).0.captured
            == Some(state.backlog[0])),
{
    lemma_step_explained(state, event);
    lemma_step_handshake(state, event);
    let actions = state.step(event).1;
    let next = state.step(event).0;
    assert forall|i: int| 0 <= i < actions.len() && is_initialize(#[trigger] actions[i]) implies state.captured is None
        && next.captured is Some && next.generation == state.generation && generation_of(
        actions[i],
    ) == state.generation by {
        assert(explained(state, event, actions[i]));
        if event is SpawnFinished {
            let installed = RunnerView { child: Child::Open, stage: Stage::Quiet, ..state };
            let (opened, opening) = installed.start_session();
            lemma_moved(opened, false);
            assert(moved(opened, opened.settle().0));
            let ended = RunnerView { session: Session::Ended, ..opened };
            lemma_moved(ended, true);
        }
    }
    assert forall|i: int| 0 <= i < actions.len() && is_response(#[trigger] actions[i]) implies state.session is AwaitResponse
        && !(next.session is AwaitResponse) && next.generation == state.generation
        && generation_of(actions[i]) == state.generation && !state.answered && next.answered by {
        assert(explained(state, event, actions[i]));
        lemma_enter_relay_advances(state);
    }
    if state.captured is None && next.captured is Some {
        match event {
            EventView::ChildLine { generation, line } => {
                if state.serving() {
                    lemma_enter_relay_advances(state);
                }
            },
            EventView::SpawnFinished { started } => {
                let installed = RunnerView { child: Child::Open, stage: Stage::Quiet, ..state };
                let (opened, opening) = installed.start_session();
                lemma_moved(opened, false);
                let waiting = RunnerView {
                    child: Child::Absent,
                    stage: Stage::Quiet,
                    session: Session::WaitProcess,
                    ..state
                };
                lemma_moved(waiting, false);
            },
            EventView::ClientClosed => {
                let closed = RunnerView { client_open: false, ..state };
                lemma_moved(closed, false);
            },
            EventView::Shutdown => {
                let marked = RunnerView { closing: true, ..state };
                lemma_moved(marked, false);
            },
            EventView::ClientLine(line) => {},
            _ => {
                lemma_step_moved(state, event);
            },
        }
    }
    if !state.answered && next.answered {
        match event {
            EventView::ChildLine { generation, line } => {
                if state.serving() {
                    lemma_enter_relay_advances(state);
                }
                assert(state.session is AwaitResponse);
                assert(is_response(actions[0]));
            },
            EventView::SpawnFinished { started } => {
                let installed = RunnerView { child: Child::Open, stage: Stage::Quiet, ..state };
                let (opened, opening) = installed.start_session();
                lemma_moved(opened, false);
                let waiting = RunnerView {
                    child: Child::Absent,
                    stage: Stage::Quiet,
                    session: Session::WaitProcess,
                    ..state
                };
                lemma_moved(waiting, false);
            },
            EventView::ClientClosed => {
                let closed = RunnerView { client_open: false, ..state };
                lemma_moved(closed, false);
            },
            EventView::Shutdown => {
                let marked = RunnerView { closing: true, ..state };
                lemma_moved(marked, false);
            },
            EventView::ClientLine(line) => {},
            _ => {
                lemma_step_moved(state, event);
            },
        }
    }
    if next.session is AwaitResponse && !(state.session is AwaitResponse) {
        match event {
            EventView::ClientLine(line) => {
                assert(is_initialize(actions[0]));
            },
            EventView::SpawnFinished { started } => {
                let installed = RunnerView { child: Child::Open, stage: Stage::Quiet, ..state };
                let (opened, opening) = installed.start_session();
                lemma_moved(opened, false);
                assert(moved(opened, opened.settle().0));
                let waiting = RunnerView {
                    child: Child::Absent,
                    stage: Stage::Quiet,
                    session: Session::WaitProcess,
                    ..state
                };
                lemma_moved(waiting, false);
                assert(started);
                assert(opened.session is AwaitResponse);
                let head = seq![ActionView::Log(crate::message::Notice::Started)] + opening;
                assert(actions == head + opened.settle().1);
                assert(actions[1] == head[1]);
                assert(is_initialize(actions[1]));
            },
            EventView::ChildLine { generation, line } => {
                if state.serving() {
                    lemma_enter_relay_advances(state);
                }
            },
            EventView::ClientClosed => {
                let closed = RunnerView { client_open: false, ..state };
                lemma_moved(closed, false);
            },
            EventView::Shutdown => {
                let marked = RunnerView { closing: true, ..state };
                lemma_moved(marked, false);
            },
            _ => {
                lemma_step_moved(state, event);
            },
        }
    }
}

/// The exit status is only looked at when the grace period ends.
pub proof fn lemma_step_stages(state: RunnerView, event: EventView)
    requires
        state.wf(),
    ensures
        state.step(event).0.stage is Polling ==> state.stage is Polling || (state.stage is Grace
            && event == EventView::GraceElapsed),
{
}

/// Whether an action starts nothing and writes no line: what is left to a
/// supervisor that was asked to stop.
pub open spec fn winding_down(action: ActionView) -> bool {
    match action {
        ActionView::Spawn { .. } => false,
        ActionView::RunBuild { .. } => false,
        ActionView::ToChild { .. } => false,
        ActionView::ToClient { .. } => false,
        _ => true,
    }
}

/// What the coordinator of a supervisor that was asked to stop still does:
/// it stops the child and leaves.
proof fn lemma_closing_settles(state: RunnerView, respawn: bool)
    requires
        state.closing,
    ensures
        forall|i: int|
            0 <= i < state.settle().1.len() ==> winding_down(#[trigger] state.settle().1[i]),
        forall|i: int|
            0 <= i < state.after_stop(respawn).1.len() ==> winding_down(
                #[trigger] state.after_stop(respawn).1[i],
            ),
        forall|i: int|
            0 <= i < state.end_generation().1.len() ==> winding_down(
                #[trigger] state.end_generation().1[i],
            ),
        state.settle().0.closing,
        state.after_stop(respawn).0.closing,
        state.end_generation().0.closing,
{
}

/// A supervisor that was asked to stop stays so, and from then on starts no
/// build and no child and writes no line.
pub proof fn lemma_step_closing(state: RunnerView, event: EventView)
    requires
        state.wf(),
        state.closing,
    ensures
        state.step(event).0.closing,
        forall|i: int|
            0 <= i < state.step(event).1.len() ==> winding_down(#[trigger] state.step(event).1[i]),
{
    lemma_step_explained(state, event);
    let actions = state.step(event).1;
    match event {
        EventView::BuildFinished(outcome) => {
            let idle = RunnerView { stage: Stage::Quiet, ..state };
            lemma_closing_settles(idle, false);
            let notice = seq![ActionView::Log(crate::model::build_notice(outcome))];
            if state.stage is Building {
                assert(actions == notice + idle.settle().1);
                assert forall|i: int| 0 <= i < actions.len() implies winding_down(
                    #[trigger] actions[i],
                ) by {
                    if i >= 1 {
                        assert(actions[i] == idle.settle().1[i - 1]);
                    }
                }
            }
        },
        EventView::ExitPolled(poll) => {
            if let Stage::Polling { respawn } = state.stage {
                lemma_closing_settles(state, respawn);
                let rest = state.after_stop(respawn).1;
                assert forall|i: int| 0 <= i < actions.len() implies winding_down(
                    #[trigger] actions[i],
                ) by {
                    if (poll is ExitedCleanly || poll is ExitedWithError) && i >= 1 {
                        assert(actions[i] == rest[i - 1]);
                    }
                }
            }
        },
        EventView::KillFinished { killed } => {
            if let Stage::Killing { respawn } = state.stage {
                lemma_closing_settles(state, respawn);
                let rest = state.after_stop(respawn).1;
                assert forall|i: int| 0 <= i < actions.len() implies winding_down(
                    #[trigger] actions[i],
                ) by {
                    if i >= 1 {
                        assert(actions[i] == rest[i - 1]);
                    }
                }
            }
        },
        EventView::SpawnFinished { started } => {
            if state.stage is Spawning {
                let installed = RunnerView { child: Child::Open, stage: Stage::Quiet, ..state };
                let (opened, opening) = installed.start_session();
                let waiting = RunnerView {
                    child: Child::Absent,
                    stage: Stage::Quiet,
                    session: Session::WaitProcess,
                    ..state
                };
                lemma_closing_settles(opened, false);
                lemma_closing_settles(waiting, false);
                let rest = if started {
                    opened.settle().1
                } else {
                    waiting.settle().1
                };
                let lead = if started {
                    1int
                } else {
                    2int
                };
                assert forall|i: int| 0 <= i < actions.len() implies winding_down(
                    #[trigger] actions[i],
                ) by {
                    if i >= lead {
                        assert(actions[i] == rest[i - lead]);
                    }
                }
            }
        },
        EventView::ClientClosed => {
            let closed = RunnerView { client_open: false, ..state };
            lemma_closing_settles(closed, false);
        },
        _ => {
            assert forall|i: int| 0 <= i < actions.len() implies winding_down(
                #[trigger] actions[i],
            ) by {
                assert(explained(state, event, actions[i]));
            }
        },
    }
}

/// Whether an event reports that the child being stopped is gone for good or
/// as good as gone: it has exited, or the kill was attempted.
pub open spec fn let_go(state: RunnerView, event: EventView) -> bool {
    (state.stage is Polling && (event == EventView::ExitPolled(ExitPoll::ExitedCleanly) || event
        == EventView::ExitPolled(ExitPoll::ExitedWithError))) || (state.stage is Killing
        && event is KillFinished)
}

/// Whether every spawn among the actions of an outcome is the one spawn of
/// the plan's run command for the next generation, asked for while the
/// supervisor holds no child.
pub open spec fn spawns_soundly(before: RunnerView, outcome: (RunnerView, Seq<ActionView>)) -> bool {
    forall|i: int|
        0 <= i < outcome.1.len() ==> ((#[trigger] outcome.1[i]) is Spawn ==> outcome.1[i] == (
        ActionView::Spawn {
            generation: before.generation + 1,
            command: before.plan.run_command,
            args: before.plan.run_args,
            dir: before.plan.root,
            wiring: crate::message::child_wiring(),
        }) && outcome.0.generation == before.generation + 1 && outcome.0.child is Absent
            && outcome.0.stage is Spawning && i + 1 == outcome.1.len())
}

/// The coordinator spawns soundly, and only when no child is installed.
proof fn lemma_coordinator_spawns(state: RunnerView, respawn: bool)
    ensures
        spawns_soundly(state, state.spawn()),
        state.child is Absent ==> spawns_soundly(state, state.replace_child()),
        state.child is Absent ==> spawns_soundly(state, state.begin_restart()),
        state.child is Absent ==> spawns_soundly(state, state.settle()),
        state.child is Absent ==> spawns_soundly(state, state.end_generation()),
        spawns_soundly(state, state.after_stop(respawn)),
        forall|i: int|
            0 <= i < state.stop_child(respawn).1.len() ==> !((#[trigger] state.stop_child(
                respawn,
            ).1[i]) is Spawn),
        !(state.child is Absent) ==> forall|i: int|
            0 <= i < state.replace_child().1.len() ==> !((#[trigger] state.replace_child().1[i]) is Spawn),
        !(state.child is Absent) ==> forall|i: int|
            0 <= i < state.begin_restart().1.len() ==> !((#[trigger] state.begin_restart().1[i]) is Spawn),
        !(state.child is Absent) ==> forall|i: int|
            0 <= i < state.settle().1.len() ==> !((#[trigger] state.settle().1[i]) is Spawn),
        !(state.child is Absent) ==> forall|i: int|
            0 <= i < state.end_generation().1.len() ==> !((#[trigger] state.end_generation().1[i]) is Spawn),
{
    let stopped = RunnerView { session: Session::Ended, ..state };
    assert(spawns_soundly(stopped, stopped.spawn()));
    if state.child is Absent {
        assert(spawns_soundly(state, state.replace_child()));
    }
    let cleared = RunnerView { child: Child::Absent, ..state };
    assert(spawns_soundly(cleared, cleared.spawn()));
    let idle = RunnerView { stage: Stage::Quiet, ..cleared };
    let halted = RunnerView { session: Session::Ended, ..idle };
    assert(spawns_soundly(halted, halted.spawn()));
    assert(spawns_soundly(idle, idle.replace_child()));
    assert(spawns_soundly(idle, idle.begin_restart()));
    assert(spawns_soundly(idle, idle.settle()));
}

/// Whether the spawns among the actions of a step are sound: each is the one
/// spawn of the plan's run command for the next generation, the last action
/// of its step, and asked for only while no child is installed or in the
/// very step that lets the old child go.
pub open spec fn step_spawns_soundly(state: RunnerView, event: EventView) -> bool {
    spawns_soundly(state, state.step(event)) && forall|i: int|
        0 <= i < state.step(event).1.len() ==> ((#[trigger] state.step(event).1[i]) is Spawn
            ==> state.child is Absent || let_go(state, event))
}

/// A list that holds no spawn, after a list that holds none, holds none.
proof fn lemma_no_spawn_concat(first: Seq<ActionView>, second: Seq<ActionView>)
    requires
        forall|i: int| 0 <= i < first.len() ==> !((#[trigger] first[i]) is Spawn),
        forall|i: int| 0 <= i < second.len() ==> !((#[trigger] second[i]) is Spawn),
    ensures
        forall|i: int| 0 <= i < (first + second).len() ==> !((#[trigger] (first + second)[i]) is Spawn),
{
    let both = first + second;
    assert forall|i: int| 0 <= i < both.len() implies !((#[trigger] both[i]) is Spawn) by {
        if i < first.len() {
            assert(both[i] == first[i]);
        } else {
            assert(both[i] == second[i - first.len()]);
        }
    }
}

/// Notices in front of an outcome that spawns soundly leave it sound.
proof fn lemma_spawns_after_notices(
    before: RunnerView,
    notices: Seq<ActionView>,
    outcome: (RunnerView, Seq<ActionView>),
)
    requires
        spawns_soundly(before, outcome),
        forall|i: int| 0 <= i < notices.len() ==> !((#[trigger] notices[i]) is Spawn),
    ensures
        spawns_soundly(before, (outcome.0, notices + outcome.1)),
{
    let all = notices + outcome.1;
    assert forall|i: int| 0 <= i < all.len() && (#[trigger] all[i]) is Spawn implies all[i] == (
    ActionView::Spawn {
        generation: before.generation + 1,
        command: before.plan.run_command,
        args: before.plan.run_args,
        dir: before.plan.root,
        wiring: crate::message::child_wiring(),
    }) && outcome.0.generation == before.generation + 1 && outcome.0.child is Absent
        && outcome.0.stage is Spawning && i + 1 == all.len() by {
        if i < notices.len() {
            assert(all[i] == notices[i]);
        } else {
            assert(all[i] == outcome.1[i - notices.len()]);
        }
    }
}

/// Every step from a reachable state spawns soundly.
pub proof fn lemma_step_spawns(state: RunnerView, event: EventView)
    requires
        state.wf(),
    ensures
        step_spawns_soundly(state, event),
{
    lemma_step_explained(state, event);
    lemma_coordinator_spawns(state, true);
    lemma_coordinator_spawns(state, false);
    let actions = state.step(event).1;
    match event {
        EventView::Trigger => {
            let counted = RunnerView { accepted: state.accepted + 1, ..state };
            lemma_coordinator_spawns(counted, false);
        },
        EventView::FilesChanged { events } => {
            let counted = RunnerView { accepted: state.accepted + 1, ..state };
            lemma_coordinator_spawns(counted, false);
        },
        EventView::BuildFinished(outcome) => {
            if state.stage is Building {
                let idle = RunnerView { stage: Stage::Quiet, ..state };
                lemma_coordinator_spawns(idle, false);
                let notice = seq![ActionView::Log(crate::model::build_notice(outcome))];
                if state.child is Absent {
                    if state.closing {
                        lemma_spawns_after_notices(idle, notice, idle.settle());
                    } else {
                        lemma_spawns_after_notices(state, notice, state.replace_child());
                    }
                } else {
                    if state.closing {
                        lemma_no_spawn_concat(notice, idle.settle().1);
                    } else {
                        lemma_no_spawn_concat(notice, state.replace_child().1);
                    }
                }
            }
        },
        EventView::ExitPolled(poll) => {
            if let Stage::Polling { respawn } = state.stage {
                lemma_coordinator_spawns(state, respawn);
                if poll is ExitedCleanly {
                    lemma_spawns_after_notices(
                        state,
                        seq![ActionView::Log(crate::message::Notice::ExitedCleanly)],
                        state.after_stop(respawn),
                    );
                } else if poll is ExitedWithError {
                    lemma_spawns_after_notices(
                        state,
                        seq![ActionView::Log(crate::message::Notice::ExitedWithError)],
                        state.after_stop(respawn),
                    );
                }
            }
        },
        EventView::KillFinished { killed } => {
            if let Stage::Killing { respawn } = state.stage {
                lemma_coordinator_spawns(state, respawn);
                let notice = if killed {
                    crate::message::Notice::Killed
                } else {
                    crate::message::Notice::KillFailed
                };
                lemma_spawns_after_notices(
                    state,
                    seq![ActionView::Log(notice)],
                    state.after_stop(respawn),
                );
            }
        },
        EventView::SpawnFinished { started } => {
            if state.stage is Spawning {
                if started {
                    let installed = RunnerView { child: Child::Open, stage: Stage::Quiet, ..state };
                    let (opened, opening) = installed.start_session();
                    lemma_coordinator_spawns(opened, false);
                    let head = seq![ActionView::Log(crate::message::Notice::Started)] + opening;
                    lemma_no_spawn_concat(head, opened.settle().1);
                } else {
                    let waiting = RunnerView {
                        child: Child::Absent,
                        stage: Stage::Quiet,
                        session: Session::WaitProcess,
                        ..state
                    };
                    lemma_coordinator_spawns(waiting, false);
                    lemma_spawns_after_notices(
                        waiting,
                        seq![
                            ActionView::Log(crate::message::Notice::SpawnFailed),
                            ActionView::Log(crate::message::Notice::WaitingForProcess),
                        ],
                        waiting.settle(),
                    );
                }
            }
        },
        EventView::ClientClosed => {
            let closed = RunnerView { client_open: false, ..state };
            lemma_coordinator_spawns(closed, false);
        },
        EventView::ChildLine { generation, line } => {
            if state.serving() && generation == state.generation {
                lemma_child_line_spawns_nothing(state, generation, line);
            }
        },
        EventView::WriteFailed { generation } => {
            if generation == state.generation && state.serving() {
                lemma_no_spawn_concat(
                    seq![ActionView::Log(crate::message::Notice::WriteFailed)],
                    state.end_generation().1,
                );
            }
        },
        EventView::Shutdown => {
            let marked = RunnerView { closing: true, ..state };
            lemma_coordinator_spawns(marked, false);
            if !state.closing {
                lemma_closing_settles(marked, false);
                let rest = if state.stage is Spawning {
                    Seq::<ActionView>::empty()
                } else {
                    marked.end_generation().1
                };
                assert forall|i: int| 0 <= i < rest.len() implies !((#[trigger] rest[i]) is Spawn) by {
                    assert(winding_down(rest[i]));
                }
                lemma_no_spawn_concat(
                    seq![ActionView::Log(crate::message::Notice::ShuttingDown)],
                    rest,
                );
            }
        },
        _ => {},
    }
}

/// A line of a child never leads to a spawn.
proof fn lemma_child_line_spawns_nothing(state: RunnerView, generation: nat, line: Seq<char>)
    requires
        state.wf(),
        state.serving(),
        generation == state.generation,
    ensures
        forall|i: int|
            0 <= i < state.on_child_line(generation, line).1.len() ==> !((
            #[trigger] state.on_child_line(generation, line).1[i]) is Spawn),
{
    let relaying = RunnerView {
        session: Session::Relay,
        subscriptions: crate::model::observed_all(
            state.subscriptions,
            state.plan.resend,
            state.backlog,
        ),
        backlog: Seq::empty(),
        ..state
    };
    lemma_coordinator_spawns(relaying, false);
    let sent = forwards(state.generation, state.backlog);
    let tail = relaying.finish().1;
    lemma_no_spawn_concat(sent, tail);
    let entered = state.enter_relay().1;
    assert(forall|i: int| 0 <= i < entered.len() ==> !((#[trigger] entered[i]) is Spawn));
    match state.session {
        Session::AwaitResponse => {
            lemma_no_spawn_concat(
                seq![ActionView::ToClient { generation, line, origin: Origin::InitializeResponse }],
                entered,
            );
        },
        Session::AwaitReplay => {
            let greeting = seq![
                ActionView::Log(crate::message::Notice::SkippingResponse),
                initialized_for(state.generation),
            ] + list_changed_burst(state.generation);
            assert forall|i: int| 0 <= i < greeting.len() implies !((#[trigger] greeting[i]) is Spawn) by {
                if i >= 2 {
                    assert(greeting[i] == list_changed_burst(state.generation)[i - 2]);
                }
            }
            lemma_no_spawn_concat(greeting, replays(state.generation, state.subscriptions));
            lemma_no_spawn_concat(greeting, entered);
        },
        _ => {},
    }
}

/// How a session comes to relay: from its own handshake, when the child's
/// answer arrives, and in no other way.
pub proof fn lemma_step_enters_relay(state: RunnerView, event: EventView)
    requires
        state.wf(),
    ensures
        state.step(event).0.session is Relay || state.step(event).0.session is Draining
            ==> state.step(event).0.generation == state.generation && (state.session is Relay
            || state.session is Draining || ((state.session is AwaitResponse
            || state.session is AwaitReplay) && printed_by(event, state.generation))),
{
    lemma_step_handshake(state, event);
    match event {
        EventView::SpawnFinished { started } => {
            let installed = RunnerView { child: Child::Open, stage: Stage::Quiet, ..state };
            let (opened, opening) = installed.start_session();
            lemma_moved(opened, false);
            let waiting = RunnerView {
                child: Child::Absent,
                stage: Stage::Quiet,
                session: Session::WaitProcess,
                ..state
            };
            lemma_moved(waiting, false);
        },
        EventView::ChildLine { generation, line } => {
            if state.serving() {
                lemma_enter_relay_advances(state);
            }
        },
        EventView::ClientClosed => {
            let closed = RunnerView { client_open: false, ..state };
            lemma_moved(closed, false);
        },
        EventView::Shutdown => {
            let marked = RunnerView { closing: true, ..state };
            lemma_moved(marked, false);
        },
        EventView::ClientLine(line) => {},
        _ => {
            lemma_step_moved(state, event);
        },
    }
}

} // verus!
