//! What holds of every run of the supervisor, whatever the outside does.
//!
//! A run starts from a freshly set up supervisor and takes any sequence of
//! events, in any order, expected or not. Each theorem here is proved for all
//! of them.

use crate::message::{
    ActionView, EventView, ExitPoll, ListKind, Notice, Origin, Purpose, list_changed_text,
};
use crate::model::{lemma_initial_wf, lemma_step_wf, PlanView, RunnerView, replays};
use crate::subscription::{
    control_of_line, distinct, holds, lemma_position_unique, lemma_subscribed_distinct,
    lemma_unsubscribed_distinct, position, subscribed, unsubscribed, ControlView, Entry,
};
use crate::shape::{
    advances, burst_at, burst_offset, explained, generation_of, gives_request, is_initialize,
    is_list_changed,
    is_response, lemma_step_burst, lemma_step_capture, lemma_step_explained, lemma_step_forwards,
    lemma_step_handshake, lemma_step_initialize_once, lemma_step_response_first, past_handshake,
};
use crate::trace::{
    arriving, client_lines, forwarded, forwarded_lines, lemma_forwarded_concat,
    lemma_forwarded_none, lemma_run_wf, run,
};
use vstd::prelude::*;

verus! {

/// Whether the lines for the client in a list of actions come in the order of
/// their generations: once a generation has written, no earlier one writes
/// again.
pub open spec fn client_writes_in_order(actions: Seq<ActionView>) -> bool {
    forall|i: int, j: int|
        0 <= i < j < actions.len() && (#[trigger] actions[i]) is ToClient
            && (#[trigger] actions[j]) is ToClient ==> generation_of(actions[i]) <= generation_of(
            actions[j],
        )
}

/// Whether no line of a list of actions is written for a generation later
/// than `limit`.
pub open spec fn written_until(actions: Seq<ActionView>, limit: nat) -> bool {
    forall|i: int| 0 <= i < actions.len() ==> generation_of(#[trigger] actions[i]) <= limit
}

/// Whether a line for the client is whole: either the verbatim line that the
/// child of the same generation printed in one of the events, or the fixed
/// body of a list-changed notification.
pub open spec fn whole_line(action: ActionView, events: Seq<EventView>) -> bool {
    match action {
        ActionView::ToClient { generation, line, origin } => match origin {
            Origin::ListChanged(kind) => line == list_changed_text(kind),
            _ => exists|k: int|
                0 <= k < events.len() && #[trigger] events[k] == (EventView::ChildLine {
                    generation,
                    line,
                }),
        },
        _ => true,
    }
}

/// Whether every line for the client in a list of actions is whole.
pub open spec fn whole_lines(actions: Seq<ActionView>, events: Seq<EventView>) -> bool {
    forall|i: int| 0 <= i < actions.len() ==> whole_line(#[trigger] actions[i], events)
}

/// A line that is whole stays whole when more events follow.
proof fn lemma_whole_line_extends(action: ActionView, events: Seq<EventView>)
    requires
        events.len() > 0,
        whole_line(action, events.drop_last()),
    ensures
        whole_line(action, events),
{
    let before = events.drop_last();
    if let ActionView::ToClient { generation, line, origin } = action {
        if !(origin is ListChanged) {
            let k = choose|k: int|
                0 <= k < before.len() && #[trigger] before[k] == (EventView::ChildLine {
                    generation,
                    line,
                });
            assert(events[k] == before[k]);
        }
    }
}

/// In every run from a reachable state the lines for the client come in the
/// order of their generations, none of them for a generation that has not
/// begun, and each of them is whole.
pub proof fn lemma_run_client_writes(state: RunnerView, events: Seq<EventView>)
    requires
        state.wf(),
    ensures
        client_writes_in_order(run(state, events).1),
        written_until(run(state, events).1, run(state, events).0.generation),
        whole_lines(run(state, events).1, events),
    decreases events.len(),
{
    if events.len() > 0 {
        let before = events.drop_last();
        let (middle, early) = run(state, before);
        let (next, late) = middle.step(events.last());
        lemma_run_client_writes(state, before);
        lemma_run_wf(state, before);
        lemma_step_explained(middle, events.last());
        lemma_step_handshake(middle, events.last());
        assert(advances(middle, next));
        let all = early + late;
        assert forall|i: int| 0 <= i < late.len() implies generation_of(#[trigger] late[i])
            <= middle.generation && whole_line(late[i], events) by {
            assert(explained(middle, events.last(), late[i]));
            assert(events[events.len() - 1] == events.last());
        }
        assert forall|i: int| 0 <= i < all.len() implies whole_line(#[trigger] all[i], events) by {
            if i < early.len() {
                assert(all[i] == early[i]);
                lemma_whole_line_extends(early[i], events);
            } else {
                assert(all[i] == late[i - early.len()]);
            }
        }
        assert forall|i: int| 0 <= i < all.len() implies generation_of(#[trigger] all[i])
            <= next.generation by {
            if i < early.len() {
                assert(all[i] == early[i]);
            } else {
                assert(all[i] == late[i - early.len()]);
            }
        }
        assert forall|i: int, j: int|
            0 <= i < j < all.len() && (#[trigger] all[i]) is ToClient
                && (#[trigger] all[j]) is ToClient implies generation_of(all[i]) <= generation_of(
            all[j],
        ) by {
            if j < early.len() {
                assert(all[i] == early[i] && all[j] == early[j]);
            } else if i < early.len() {
                assert(all[i] == early[i] && all[j] == late[j - early.len()]);
                assert(explained(middle, events.last(), late[j - early.len()]));
            } else {
                assert(all[i] == late[i - early.len()] && all[j] == late[j - early.len()]);
                assert(explained(middle, events.last(), late[i - early.len()]));
                assert(explained(middle, events.last(), late[j - early.len()]));
            }
        }
    }
}

/// Output as the client observes it is never interleaved across generations,
/// and each delivered line is a complete, single message: in every run the
/// lines for the client come in the order of their generations, and each is
/// either a line that the child of that generation printed, verbatim, or the
/// fixed body of a list-changed notification.
pub proof fn law_client_output_is_never_interleaved(plan: PlanView, events: Seq<EventView>)
    ensures
        client_writes_in_order(run(RunnerView::initial(plan), events).1),
        whole_lines(run(RunnerView::initial(plan), events).1, events),
{
    lemma_initial_wf(plan);
    lemma_run_client_writes(RunnerView::initial(plan), events);
}

/// Whether the client lines that a list of actions hands to children go to
/// generations in order: a later line never goes to an earlier generation.
pub open spec fn forwards_in_order(actions: Seq<ActionView>) -> bool {
    forall|i: int, j: int|
        0 <= i < j < actions.len() && forwarded(#[trigger] actions[i]) is Some && forwarded(
            #[trigger] actions[j],
        ) is Some ==> generation_of(actions[i]) <= generation_of(actions[j])
}

/// In every run from a reachable state the client lines that were handed to
/// children, followed by those that still wait, are the lines that waited at
/// the start followed by the lines that arrived.
pub proof fn lemma_run_forwards(state: RunnerView, events: Seq<EventView>)
    requires
        state.wf(),
    ensures
        forwarded_lines(run(state, events).1) + run(state, events).0.backlog == state.backlog
            + client_lines(events),
        forwards_in_order(run(state, events).1),
    decreases events.len(),
{
    if events.len() == 0 {
        assert(Seq::<Seq<char>>::empty() + state.backlog =~= state.backlog + Seq::<
            Seq<char>,
        >::empty());
    } else {
        let before = events.drop_last();
        let (middle, early) = run(state, before);
        let (next, late) = middle.step(events.last());
        lemma_run_forwards(state, before);
        lemma_run_client_writes(state, before);
        lemma_run_wf(state, before);
        lemma_step_forwards(middle, events.last());
        lemma_step_explained(middle, events.last());
        lemma_forwarded_concat(early, late);
        let all = early + late;
        assert(forwarded_lines(all) + next.backlog =~= forwarded_lines(early) + (forwarded_lines(
            late,
        ) + next.backlog));
        assert(forwarded_lines(early) + (middle.backlog + arriving(events.last()))
            =~= forwarded_lines(early) + middle.backlog + arriving(events.last()));
        assert(state.backlog + client_lines(before) + arriving(events.last()) =~= state.backlog + (
        client_lines(before) + arriving(events.last())));
        assert forall|i: int, j: int|
            0 <= i < j < all.len() && forwarded(#[trigger] all[i]) is Some && forwarded(
                #[trigger] all[j],
            ) is Some implies generation_of(all[i]) <= generation_of(all[j]) by {
            if j < early.len() {
                assert(all[i] == early[i] && all[j] == early[j]);
            } else if i < early.len() {
                assert(all[i] == early[i] && all[j] == late[j - early.len()]);
                assert(explained(middle, events.last(), late[j - early.len()]));
            } else {
                assert(all[i] == late[i - early.len()] && all[j] == late[j - early.len()]);
                assert(explained(middle, events.last(), late[i - early.len()]));
                assert(explained(middle, events.last(), late[j - early.len()]));
            }
        }
    }
}

/// No input line is ever lost: in every run the lines that the client sent
/// are, in their order, the lines that were handed to children followed by
/// the lines that still wait for one. Each line is handed over once, to one
/// generation, and a later line never goes to an earlier generation. Handed
/// over means that the write was asked for: a write that fails is reported
/// and ends the generation, and its line is not handed over again.
pub proof fn law_no_client_line_is_lost(plan: PlanView, events: Seq<EventView>)
    ensures
        forwarded_lines(run(RunnerView::initial(plan), events).1) + run(
            RunnerView::initial(plan),
            events,
        ).0.backlog == client_lines(events),
        forwards_in_order(run(RunnerView::initial(plan), events).1),
{
    lemma_initial_wf(plan);
    lemma_run_forwards(RunnerView::initial(plan), events);
    assert(Seq::<Seq<char>>::empty() + client_lines(events) =~= client_lines(events));
}

/// The text of a line that an action writes; empty for any other action.
pub open spec fn line_of(action: ActionView) -> Seq<char> {
    match action {
        ActionView::ToChild { line, .. } => line,
        ActionView::ToClient { line, .. } => line,
        _ => Seq::empty(),
    }
}

/// Whether a list of actions passes the client's initialize request on at
/// most once.
pub open spec fn one_request(actions: Seq<ActionView>) -> bool {
    forall|i: int, j: int|
        0 <= i < j < actions.len() ==> !(is_initialize(#[trigger] actions[i]) && is_initialize(
            #[trigger] actions[j],
        ))
}

/// Whether a list of actions passes an answer to the client's initialize
/// request on at most once.
pub open spec fn one_response(actions: Seq<ActionView>) -> bool {
    forall|i: int, j: int|
        0 <= i < j < actions.len() ==> !(is_response(#[trigger] actions[i]) && is_response(
            #[trigger] actions[j],
        ))
}

/// Whether an answer at `at` comes from the child that was given the
/// client's request when it arrived: some earlier action passes the request
/// on, for the first time, to the answer's generation.
pub open spec fn answers_request(actions: Seq<ActionView>, at: int) -> bool {
    exists|j: int|
        0 <= j < at && is_initialize(#[trigger] actions[j]) && generation_of(actions[j])
            == generation_of(actions[at])
}

/// Whether every answer that a list of actions passes on comes from the
/// child that was given the client's request when it arrived.
pub open spec fn responses_answer_request(actions: Seq<ActionView>) -> bool {
    forall|i: int|
        0 <= i < actions.len() && is_response(#[trigger] actions[i]) ==> answers_request(actions, i)
}

/// Whether the request that a list of actions gives to children, for the
/// first time or again, is the first line that the client sent.
pub open spec fn request_is_first_line(actions: Seq<ActionView>, events: Seq<EventView>) -> bool {
    forall|i: int|
        0 <= i < actions.len() && gives_request(#[trigger] actions[i]) ==> client_lines(
            events,
        ).len() > 0 && line_of(actions[i]) == client_lines(events)[0]
}

/// Whether some action of a list passes the client's request on, for the
/// first time, to a generation.
pub open spec fn request_sent_to(actions: Seq<ActionView>, generation: nat) -> bool {
    exists|j: int|
        0 <= j < actions.len() && is_initialize(#[trigger] actions[j]) && generation_of(actions[j])
            == generation
}

/// Whether some action of a list passes an initialize response on.
pub open spec fn response_delivered(actions: Seq<ActionView>) -> bool {
    exists|i: int| 0 <= i < actions.len() && is_response(#[trigger] actions[i])
}

/// What links the handshake actions of a run to the state it ends in.
pub open spec fn handshake_invariant(
    state: RunnerView,
    actions: Seq<ActionView>,
    events: Seq<EventView>,
) -> bool {
    &&& one_request(actions)
    &&& one_response(actions)
    &&& responses_answer_request(actions)
    &&& request_is_first_line(actions, events)
    &&& state.captured is None ==> forall|i: int|
        0 <= i < actions.len() ==> forwarded(#[trigger] actions[i]) is None && !gives_request(
            actions[i],
        )
    &&& state.captured is Some ==> client_lines(events).len() > 0 && state.captured == Some(
        client_lines(events)[0],
    )
    &&& state.session is AwaitResponse ==> request_sent_to(actions, state.generation)
    &&& state.answered <==> response_delivered(actions)
}

/// Every run of a freshly set up supervisor keeps the handshake invariant.
pub proof fn lemma_run_handshake(plan: PlanView, events: Seq<EventView>)
    ensures
        run(RunnerView::initial(plan), events).0.wf(),
        handshake_invariant(
            run(RunnerView::initial(plan), events).0,
            run(RunnerView::initial(plan), events).1,
            events,
        ),
    decreases events.len(),
{
    let start = RunnerView::initial(plan);
    lemma_initial_wf(plan);
    lemma_run_wf(start, events);
    if events.len() > 0 {
        let before = events.drop_last();
        let (middle, early) = run(start, before);
        let (next, late) = middle.step(events.last());
        let event = events.last();
        lemma_run_handshake(plan, before);
        lemma_run_wf(start, before);
        lemma_run_forwards(start, before);
        lemma_step_wf(middle, event);
        lemma_step_explained(middle, event);
        lemma_step_handshake(middle, event);
        lemma_step_capture(middle, event);
        lemma_step_initialize_once(middle, event);
        lemma_step_response_first(middle, event);
        assert(advances(middle, next));
        let all = early + late;
        let cut = early.len() as int;
        assert forall|i: int| 0 <= i < all.len() implies (#[trigger] all[i]) == (if i < cut {
            early[i]
        } else {
            late[i - cut]
        }) by {}
        assert(client_lines(events) == client_lines(before) + arriving(event));
        // The request is passed on for the first time at most once.
        assert forall|i: int, j: int| 0 <= i < j < all.len() implies !(is_initialize(
            #[trigger] all[i],
        ) && is_initialize(#[trigger] all[j])) by {
            if is_initialize(all[i]) && is_initialize(all[j]) {
                if j < cut {
                    assert(is_initialize(early[i]) && is_initialize(early[j]));
                } else if i < cut {
                    assert(is_initialize(late[j - cut]));
                    assert(forwarded(early[i]) is None);
                } else {
                    assert(is_initialize(late[i - cut]) && is_initialize(late[j - cut]));
                }
            }
        }
        // An answer is passed on at most once.
        assert forall|i: int, j: int| 0 <= i < j < all.len() implies !(is_response(
            #[trigger] all[i],
        ) && is_response(#[trigger] all[j])) by {
            if is_response(all[i]) && is_response(all[j]) {
                if j < cut {
                    assert(is_response(early[i]) && is_response(early[j]));
                } else if i < cut {
                    assert(is_response(late[j - cut]));
                    assert(is_response(early[i]));
                    assert(response_delivered(early));
                } else {
                    assert(is_response(late[i - cut]) && is_response(late[j - cut]));
                }
            }
        }
        // Every answer comes from a child that was given the request.
        assert forall|i: int| 0 <= i < all.len() && is_response(
            #[trigger] all[i],
        ) implies answers_request(all, i) by {
            if i < cut {
                assert(answers_request(early, i));
                let j = choose|j: int|
                    0 <= j < i && is_initialize(#[trigger] early[j]) && generation_of(early[j])
                        == generation_of(early[i]);
                assert(all[j] == early[j]);
            } else {
                assert(is_response(late[i - cut]));
                assert(request_sent_to(early, middle.generation));
                let j = choose|j: int|
                    0 <= j < early.len() && is_initialize(#[trigger] early[j]) && generation_of(
                        early[j],
                    ) == middle.generation;
                assert(all[j] == early[j]);
            }
        }
        // The captured request is the first line that the client sent.
        if next.captured is Some {
            if middle.captured is Some {
                assert(client_lines(events)[0] == client_lines(before)[0]);
            } else {
                assert forall|i: int| 0 <= i < early.len() implies forwarded(
                    #[trigger] early[i],
                ) is None by {}
                lemma_forwarded_none(early);
                assert(Seq::<Seq<char>>::empty() + middle.backlog =~= middle.backlog);
                assert(Seq::<Seq<char>>::empty() + client_lines(before) =~= client_lines(before));
                assert(middle.backlog == client_lines(before));
                if event is ClientLine {
                    assert(client_lines(events)[0] == next.captured->0);
                } else {
                    assert(client_lines(events)[0] == middle.backlog[0]);
                }
            }
        }
        // Whatever gives a child the request gives it that first line.
        assert forall|i: int| 0 <= i < all.len() && gives_request(
            #[trigger] all[i],
        ) implies client_lines(events).len() > 0 && line_of(all[i]) == client_lines(events)[0] by {
            if i < cut {
                assert(gives_request(early[i]));
                assert(client_lines(events)[0] == client_lines(before)[0]);
            } else {
                let action = late[i - cut];
                assert(gives_request(action));
                assert(explained(middle, event, action));
                if is_initialize(action) {
                    assert(next.captured == Some(line_of(action)));
                } else {
                    assert(middle.captured == Some(line_of(action)));
                    assert(client_lines(events)[0] == client_lines(before)[0]);
                }
            }
        }
        // Nothing is handed to a child before the request is captured.
        if next.captured is None {
            assert forall|i: int| 0 <= i < all.len() implies forwarded(#[trigger] all[i]) is None
                && !gives_request(all[i]) by {
                if i >= cut {
                    assert(explained(middle, event, late[i - cut]));
                    if forwarded(late[i - cut]) is Some {
                        assert(is_initialize(late[i - cut]));
                    }
                }
            }
        }
        // While the answer is awaited, the request has gone to the current
        // generation.
        if next.session is AwaitResponse {
            if middle.session is AwaitResponse {
                let j = choose|j: int|
                    0 <= j < early.len() && is_initialize(#[trigger] early[j]) && generation_of(
                        early[j],
                    ) == middle.generation;
                assert(all[j] == early[j]);
            } else {
                let k = choose|k: int|
                    0 <= k < late.len() && is_initialize(#[trigger] late[k]) && generation_of(
                        late[k],
                    ) == middle.generation;
                assert(all[cut + k] == late[k]);
            }
            assert(request_sent_to(all, next.generation));
        }
        // The client holds a response exactly if one was passed on.
        if next.answered {
            if middle.answered {
                let i = choose|i: int| 0 <= i < early.len() && is_response(#[trigger] early[i]);
                assert(all[i] == early[i]);
            } else {
                let k = choose|k: int| 0 <= k < late.len() && is_response(#[trigger] late[k]);
                assert(all[cut + k] == late[k]);
            }
            assert(response_delivered(all));
        } else {
            assert forall|i: int| 0 <= i < all.len() implies !is_response(#[trigger] all[i]) by {
                if i < cut {
                    if is_response(early[i]) {
                        assert(response_delivered(early));
                    }
                }
            }
        }
    }
}

/// For any sequence of restarts, no second initialize response ever reaches
/// the client, and the one that does answers the client's own initialize
/// request. In every run at most one action passes a child's answer on as the
/// initialize response, and one does exactly if the state records that the
/// client holds its response. The answer comes from the generation whose
/// child was given the request when it arrived; the request is passed on for
/// the first time at most once, and whatever gives a child the request, then
/// or again later, gives it the first line that the client ever sent.
pub proof fn law_one_initialize_response(plan: PlanView, events: Seq<EventView>)
    ensures
        one_response(run(RunnerView::initial(plan), events).1),
        one_request(run(RunnerView::initial(plan), events).1),
        responses_answer_request(run(RunnerView::initial(plan), events).1),
        request_is_first_line(run(RunnerView::initial(plan), events).1, events),
        run(RunnerView::initial(plan), events).0.answered <==> response_delivered(
            run(RunnerView::initial(plan), events).1,
        ),
{
    lemma_run_handshake(plan, events);
}

/// A child that is installed while the client's request is captured is shown
/// the request again, whether or not an answer has reached the client: the
/// step gives the child the captured request, right after its notice, and
/// the session awaits an answer that it will throw away.
pub proof fn law_captured_request_is_replayed(state: RunnerView)
    requires
        state.wf(),
        state.stage is Spawning,
        state.captured is Some,
        !state.closing,
    ensures
        state.step(EventView::SpawnFinished { started: true }).1.len() >= 2,
        state.step(EventView::SpawnFinished { started: true }).1[1] == (ActionView::ToChild {
            generation: state.generation,
            line: state.captured->0,
            purpose: Purpose::ReplayInitialize,
        }),
        state.step(EventView::SpawnFinished { started: true }).0.session is AwaitReplay,
        state.step(EventView::SpawnFinished { started: true }).0.generation == state.generation,
{
    let installed = RunnerView {
        child: crate::model::Child::Open,
        stage: crate::model::Stage::Quiet,
        ..state
    };
    let (opened, opening) = installed.start_session();
    crate::shape::lemma_moved(opened, false);
    let head = seq![ActionView::Log(Notice::Started)] + opening;
    let actions = state.step(EventView::SpawnFinished { started: true }).1;
    assert(actions == head + opened.settle().1);
    assert(actions[1] == head[1]);
}

/// A restarted child is answered for, the client is notified, and the relay
/// goes on: the child's answer to the replayed request never reaches the
/// client, the child is sent `initialized`, the client reads the three
/// notifications, in their order and each once, and after them, verbatim,
/// whatever the child prints next. This is the whole of it where no
/// subscription is to be shown again and no client line waits.
pub proof fn law_restarted_child_is_notified_then_relayed(
    state: RunnerView,
    answer: Seq<char>,
    line: Seq<char>,
)
    requires
        state.wf(),
        state.session is AwaitReplay,
        state.child is Open,
        state.client_open,
        !state.plan.resend || state.subscriptions.len() == 0,
        state.backlog.len() == 0,
    ensures
        run(
            state,
            seq![
                EventView::ChildLine { generation: state.generation, line: answer },
                EventView::ChildLine { generation: state.generation, line },
            ],
        ).1 == seq![
            ActionView::Log(Notice::SkippingResponse),
            ActionView::ToChild {
                generation: state.generation,
                line: crate::message::INITIALIZED@,
                purpose: Purpose::Initialized,
            },
            ActionView::ToClient {
                generation: state.generation,
                line: list_changed_text(ListKind::Tools),
                origin: Origin::ListChanged(ListKind::Tools),
            },
            ActionView::ToClient {
                generation: state.generation,
                line: list_changed_text(ListKind::Prompts),
                origin: Origin::ListChanged(ListKind::Prompts),
            },
            ActionView::ToClient {
                generation: state.generation,
                line: list_changed_text(ListKind::Resources),
                origin: Origin::ListChanged(ListKind::Resources),
            },
            ActionView::ToClient { generation: state.generation, line, origin: Origin::Relayed },
        ],
        run(
            state,
            seq![
                EventView::ChildLine { generation: state.generation, line: answer },
                EventView::ChildLine { generation: state.generation, line },
            ],
        ).0.session is Relay,
{
    let first = EventView::ChildLine { generation: state.generation, line: answer };
    let second = EventView::ChildLine { generation: state.generation, line };
    let one = seq![first];
    let two = seq![first, second];
    assert(one.drop_last() =~= Seq::<EventView>::empty());
    assert(two.drop_last() =~= one);
    assert(run(state, one.drop_last()) == (state, Seq::<ActionView>::empty()));
    let (relaying, greeted) = state.step(first);
    assert(crate::model::forwards(state.generation, state.backlog) =~= Seq::<ActionView>::empty());
    assert(greeted =~= seq![
        ActionView::Log(Notice::SkippingResponse),
        ActionView::ToChild {
            generation: state.generation,
            line: crate::message::INITIALIZED@,
            purpose: Purpose::Initialized,
        },
        ActionView::ToClient {
            generation: state.generation,
            line: list_changed_text(ListKind::Tools),
            origin: Origin::ListChanged(ListKind::Tools),
        },
        ActionView::ToClient {
            generation: state.generation,
            line: list_changed_text(ListKind::Prompts),
            origin: Origin::ListChanged(ListKind::Prompts),
        },
        ActionView::ToClient {
            generation: state.generation,
            line: list_changed_text(ListKind::Resources),
            origin: Origin::ListChanged(ListKind::Resources),
        },
    ]);
    assert(relaying.session is Relay);
    assert(run(state, one).0 == relaying);
    assert(run(state, one).1 =~= greeted);
    let (after, relayed) = relaying.step(second);
    assert(run(state, two).1 =~= greeted + relayed);
    assert(run(state, two).0 == after);
}

/// The captured initialize request, once set, never changes.
pub proof fn law_captured_request_never_changes(
    plan: PlanView,
    events: Seq<EventView>,
    more: Seq<EventView>,
)
    requires
        run(RunnerView::initial(plan), events).0.captured is Some,
    ensures
        run(RunnerView::initial(plan), events + more).0.captured == run(
            RunnerView::initial(plan),
            events,
        ).0.captured,
    decreases more.len(),
{
    let start = RunnerView::initial(plan);
    lemma_initial_wf(plan);
    if more.len() == 0 {
        assert(events + more =~= events);
    } else {
        law_captured_request_never_changes(plan, events, more.drop_last());
        let shorter = events + more.drop_last();
        assert((events + more).drop_last() =~= shorter);
        assert((events + more).last() == more.last());
        lemma_run_wf(start, shorter);
        lemma_step_handshake(run(start, shorter).0, more.last());
    }
}

/// Whether the list-changed notification at `at`, if it is one, stands in its
/// place within a whole burst for its generation: right after the
/// `initialized` notification for the child come the notifications for tools,
/// prompts and resources, in this order and with nothing in between.
pub open spec fn in_burst(actions: Seq<ActionView>, at: int) -> bool {
    match actions[at] {
        ActionView::ToClient { generation, origin: Origin::ListChanged(kind), .. } => burst_at(
            actions,
            at - burst_offset(kind),
            generation,
        ),
        _ => true,
    }
}

/// Whether every list-changed notification of a list of actions is part of a
/// whole burst.
pub open spec fn bursts_are_whole(actions: Seq<ActionView>) -> bool {
    forall|i: int| 0 <= i < actions.len() ==> in_burst(actions, i)
}

/// Whether an action is the tools notification that opens a burst.
pub open spec fn opens_burst(action: ActionView) -> bool {
    action matches ActionView::ToClient { origin: Origin::ListChanged(ListKind::Tools), .. }
}

/// Whether no generation is notified twice: of two bursts the later one is
/// for a later generation.
pub open spec fn one_burst_per_generation(actions: Seq<ActionView>) -> bool {
    forall|i: int, j: int|
        0 <= i < j < actions.len() && opens_burst(#[trigger] actions[i]) && opens_burst(
            #[trigger] actions[j],
        ) ==> generation_of(actions[i]) < generation_of(actions[j])
}

/// Whether every list-changed notification of a list of actions is for a
/// generation before `generation`.
pub open spec fn notified_before(actions: Seq<ActionView>, generation: nat) -> bool {
    forall|i: int|
        0 <= i < actions.len() && is_list_changed(#[trigger] actions[i]) ==> generation_of(
            actions[i],
        ) < generation
}

/// A burst in a list of actions is a burst in every longer list.
proof fn lemma_burst_extends(
    early: Seq<ActionView>,
    late: Seq<ActionView>,
    at: int,
    generation: nat,
)
    requires
        burst_at(early, at, generation),
    ensures
        burst_at(early + late, at, generation),
{
    let all = early + late;
    assert(all[at] == early[at]);
    assert(all[at + 1] == early[at + 1]);
    assert(all[at + 2] == early[at + 2]);
    assert(all[at + 3] == early[at + 3]);
}

/// A burst in a list of actions is a burst, further back, in every list that
/// the first one ends.
proof fn lemma_burst_shifts(
    early: Seq<ActionView>,
    late: Seq<ActionView>,
    at: int,
    generation: nat,
)
    requires
        burst_at(late, at, generation),
    ensures
        burst_at(early + late, early.len() + at, generation),
{
    let all = early + late;
    let cut = early.len() as int;
    assert(all[cut + at] == late[at]);
    assert(all[cut + at + 1] == late[at + 1]);
    assert(all[cut + at + 2] == late[at + 2]);
    assert(all[cut + at + 3] == late[at + 3]);
}

/// In every run from a reachable state that has notified nobody yet, the
/// list-changed notifications come in whole bursts, one per generation at
/// most, and none for a generation whose handshake is still open.
pub proof fn lemma_run_bursts(state: RunnerView, events: Seq<EventView>)
    requires
        state.wf(),
    ensures
        bursts_are_whole(run(state, events).1),
        one_burst_per_generation(run(state, events).1),
        !past_handshake(run(state, events).0.session) ==> notified_before(
            run(state, events).1,
            run(state, events).0.generation,
        ),
    decreases events.len(),
{
    if events.len() > 0 {
        let before = events.drop_last();
        let (middle, early) = run(state, before);
        let event = events.last();
        let (next, late) = middle.step(event);
        lemma_run_bursts(state, before);
        lemma_run_client_writes(state, before);
        lemma_run_wf(state, before);
        lemma_step_explained(middle, event);
        lemma_step_handshake(middle, event);
        lemma_step_burst(middle, event);
        assert(advances(middle, next));
        let all = early + late;
        let cut = early.len() as int;
        assert forall|i: int| 0 <= i < all.len() implies (#[trigger] all[i]) == (if i < cut {
            early[i]
        } else {
            late[i - cut]
        }) by {}
        assert forall|i: int| 0 <= i < all.len() implies in_burst(all, i) by {
            if let ActionView::ToClient { generation, origin: Origin::ListChanged(kind), .. } =
                all[i] {
                if i < cut {
                    assert(in_burst(early, i));
                    lemma_burst_extends(early, late, i - burst_offset(kind), generation);
                } else {
                    assert(explained(middle, event, late[i - cut]));
                    lemma_burst_shifts(early, late, 1, middle.generation);
                }
            }
        }
        assert forall|i: int, j: int|
            0 <= i < j < all.len() && opens_burst(#[trigger] all[i]) && opens_burst(
                #[trigger] all[j],
            ) implies generation_of(all[i]) < generation_of(all[j]) by {
            if j < cut {
                assert(opens_burst(early[i]) && opens_burst(early[j]));
            } else if i < cut {
                assert(is_list_changed(early[i]));
                assert(explained(middle, event, late[j - cut]));
            } else {
                assert(opens_burst(late[i - cut]) && opens_burst(late[j - cut]));
            }
        }
        if !past_handshake(next.session) {
            assert forall|i: int| 0 <= i < all.len() && is_list_changed(
                #[trigger] all[i],
            ) implies generation_of(all[i]) < next.generation by {
                if i < cut {
                    assert(is_list_changed(early[i]));
                    assert(generation_of(early[i]) <= middle.generation);
                } else {
                    assert(is_list_changed(late[i - cut]));
                    assert(explained(middle, event, late[i - cut]));
                }
            }
        }
    }
}

/// The list-changed notifications come as whole bursts only. In every run a
/// list-changed notification appears only as part of the three, in the fixed
/// order tools, prompts, resources, right after the `initialized`
/// notification that ends a replayed handshake, and no generation sends two
/// bursts.
pub proof fn law_restarts_notify_in_whole_bursts(plan: PlanView, events: Seq<EventView>)
    ensures
        bursts_are_whole(run(RunnerView::initial(plan), events).1),
        one_burst_per_generation(run(RunnerView::initial(plan), events).1),
{
    lemma_initial_wf(plan);
    lemma_run_bursts(RunnerView::initial(plan), events);
}

/// A restarted child's answer to the replayed request never reaches the
/// client; the three notifications do. When the answer arrives, the step
/// writes the burst and writes nothing else to the client.
pub proof fn law_replayed_handshake_notifies(state: RunnerView, line: Seq<char>)
    requires
        state.wf(),
        state.session is AwaitReplay,
    ensures
        burst_at(
            state.step(EventView::ChildLine { generation: state.generation, line }).1,
            1,
            state.generation,
        ),
        forall|i: int|
            0 <= i < state.step(EventView::ChildLine { generation: state.generation, line }).1.len()
                && (#[trigger] state.step(
                EventView::ChildLine { generation: state.generation, line },
            ).1[i]) is ToClient ==> is_list_changed(
                state.step(EventView::ChildLine { generation: state.generation, line }).1[i],
            ),
{
    let event = EventView::ChildLine { generation: state.generation, line };
    lemma_step_burst(state, event);
    lemma_step_explained(state, event);
    let actions = state.step(event).1;
    assert forall|i: int| 0 <= i < actions.len() && (#[trigger] actions[i]) is ToClient implies is_list_changed(
        actions[i],
    ) by {
        assert(explained(state, event, actions[i]));
    }
}

/// Given subscribe and then unsubscribe for one resource, the resource is
/// not in the table, whatever the table held before.
pub proof fn law_unsubscribe_cancels_subscribe(
    entries: Seq<Entry>,
    uri: Seq<char>,
    line: Seq<char>,
)
    requires
        distinct(entries),
    ensures
        !holds(unsubscribed(subscribed(entries, uri, line), uri), uri),
        forall|i: int|
            0 <= i < unsubscribed(subscribed(entries, uri, line), uri).len() ==> (
            #[trigger] unsubscribed(subscribed(entries, uri, line), uri)[i]).0 != uri,
{
    lemma_subscribed_distinct(entries, uri, line);
    lemma_unsubscribed_distinct(subscribed(entries, uri, line), uri);
}

/// Given subscribe for a resource, the table holds the request line for the
/// resource in exactly one place.
pub proof fn law_subscribe_remembers_once(entries: Seq<Entry>, uri: Seq<char>, line: Seq<char>)
    requires
        distinct(entries),
    ensures
        holds(subscribed(entries, uri, line), uri),
        subscribed(entries, uri, line)[position(subscribed(entries, uri, line), uri)] == (
            uri,
            line,
        ),
        forall|i: int|
            0 <= i < subscribed(entries, uri, line).len() && (#[trigger] subscribed(
                entries,
                uri,
                line,
            )[i]).0 == uri ==> i == position(subscribed(entries, uri, line), uri),
{
    let after = subscribed(entries, uri, line);
    lemma_subscribed_distinct(entries, uri, line);
    let at = if holds(entries, uri) {
        position(entries, uri)
    } else {
        entries.len() as int
    };
    assert(after[at] == (uri, line));
    lemma_position_unique(after, uri, at);
    assert forall|i: int| 0 <= i < after.len() && (#[trigger] after[i]).0 == uri implies i
        == position(after, uri) by {
        lemma_position_unique(after, uri, i);
    }
}

/// What the client subscribes to while lines are relayed is remembered, and
/// what it unsubscribes from is forgotten: with resending switched on, a
/// subscribe line followed by an unsubscribe line for the same resource
/// leaves the resource out of the table, and a subscribe line alone leaves
/// the line in the table.
pub proof fn law_relay_tracks_subscriptions(
    state: RunnerView,
    subscribe: Seq<char>,
    unsubscribe: Seq<char>,
    uri: Seq<char>,
)
    requires
        state.wf(),
        state.session is Relay,
        state.plan.resend,
        control_of_line(subscribe) == ControlView::Subscribe(uri),
        control_of_line(unsubscribe) == ControlView::Unsubscribe(uri),
    ensures
        state.step(EventView::ClientLine(subscribe)).0.subscriptions == subscribed(
            state.subscriptions,
            uri,
            subscribe,
        ),
        holds(state.step(EventView::ClientLine(subscribe)).0.subscriptions, uri),
        !holds(
            state.step(EventView::ClientLine(subscribe)).0.step(
                EventView::ClientLine(unsubscribe),
            ).0.subscriptions,
            uri,
        ),
{
    law_unsubscribe_cancels_subscribe(state.subscriptions, uri, subscribe);
    lemma_subscribed_distinct(state.subscriptions, uri, subscribe);
    lemma_step_wf(state, EventView::ClientLine(subscribe));
}

/// After a restart with resending switched on, every remembered
/// subscription is shown to the new child exactly once: the step that ends
/// the replayed handshake of a child that still takes input emits, after the
/// burst, one replay for each table entry, in table order, and nothing after
/// them.
pub proof fn law_subscriptions_are_replayed_once(state: RunnerView, line: Seq<char>)
    requires
        state.wf(),
        state.session is AwaitReplay,
        state.child is Open,
        state.plan.resend,
        state.subscriptions.len() > 0,
    ensures
        state.step(EventView::ChildLine { generation: state.generation, line }).1.len() == 5
            + state.subscriptions.len(),
        forall|k: int|
            0 <= k < state.subscriptions.len() ==> #[trigger] state.step(
                EventView::ChildLine { generation: state.generation, line },
            ).1[5 + k] == (ActionView::ToChild {
                generation: state.generation,
                line: state.subscriptions[k].1,
                purpose: Purpose::ReplaySubscription,
            }),
        forall|i: int|
            0 <= i < 5 ==> !((#[trigger] state.step(
                EventView::ChildLine { generation: state.generation, line },
            ).1[i]) matches ActionView::ToChild { purpose: Purpose::ReplaySubscription, .. }),
{
    let event = EventView::ChildLine { generation: state.generation, line };
    let actions = state.step(event).1;
    let shown = replays(state.generation, state.subscriptions);
    lemma_step_burst(state, event);
    assert(actions.len() == 5 + shown.len());
    assert forall|k: int| 0 <= k < state.subscriptions.len() implies #[trigger] actions[5 + k]
        == (ActionView::ToChild {
        generation: state.generation,
        line: state.subscriptions[k].1,
        purpose: Purpose::ReplaySubscription,
    }) by {
        assert(actions[5 + k] == shown[k]);
    }
}

/// The answers to replayed subscriptions are thrown away: while they are
/// awaited, a line of the child leads to no line for the client.
pub proof fn law_replay_answers_are_dropped(state: RunnerView, line: Seq<char>)
    requires
        state.wf(),
        state.session is Draining,
    ensures
        forall|i: int|
            0 <= i < state.step(EventView::ChildLine { generation: state.generation, line }).1.len()
                ==> !((#[trigger] state.step(
                EventView::ChildLine { generation: state.generation, line },
            ).1[i]) is ToClient),
{
    let event = EventView::ChildLine { generation: state.generation, line };
    lemma_step_explained(state, event);
    let actions = state.step(event).1;
    assert forall|i: int| 0 <= i < actions.len() implies !((#[trigger] actions[i]) is ToClient) by {
        assert(explained(state, event, actions[i]));
    }
}

/// Given a child that has exited within the grace period after its input
/// was closed, no kill occurs: the step that learns of the exit kills nothing
/// and leaves no child installed.
pub proof fn law_exited_child_is_not_killed(state: RunnerView, poll: ExitPoll)
    requires
        state.wf(),
        state.stage is Polling,
        poll is ExitedCleanly || poll is ExitedWithError,
    ensures
        forall|i: int|
            0 <= i < state.step(EventView::ExitPolled(poll)).1.len() ==> !((#[trigger] state.step(
                EventView::ExitPolled(poll),
            ).1[i]) is Kill),
        state.step(EventView::ExitPolled(poll)).0.child is Absent,
{
    let event = EventView::ExitPolled(poll);
    lemma_step_explained(state, event);
    let actions = state.step(event).1;
    assert forall|i: int| 0 <= i < actions.len() implies !((#[trigger] actions[i]) is Kill) by {
        assert(explained(state, event, actions[i]));
    }
}

/// Given a child that ignores the closing of its input, a kill occurs once
/// the grace period has elapsed: from the state in which the grace period
/// runs, its end leads to one look at the exit status and, the child being
/// found alive, to one kill of that child.
pub proof fn law_stubborn_child_is_killed_after_grace(state: RunnerView, respawn: bool)
    requires
        state.wf(),
        state.stage == (crate::model::Stage::Grace { respawn }),
    ensures
        run(state, seq![EventView::GraceElapsed, EventView::ExitPolled(ExitPoll::StillRunning)]).1
            == seq![
            ActionView::PollExit { generation: state.generation },
            ActionView::Log(Notice::StillRunning),
            ActionView::Kill { generation: state.generation },
        ],
        run(state, seq![EventView::GraceElapsed]).1 == seq![
            ActionView::PollExit { generation: state.generation },
        ],
{
    let both = seq![EventView::GraceElapsed, EventView::ExitPolled(ExitPoll::StillRunning)];
    let first = seq![EventView::GraceElapsed];
    assert(both.drop_last() =~= first);
    assert(first.drop_last() =~= Seq::<EventView>::empty());
    assert(run(state, first.drop_last()) == (state, Seq::<ActionView>::empty()));
    let polling = state.step(EventView::GraceElapsed);
    assert(run(state, first).1 =~= polling.1);
    assert(run(state, first).0 == polling.0);
    assert(run(state, both).1 =~= polling.1 + polling.0.step(
        EventView::ExitPolled(ExitPoll::StillRunning),
    ).1);
    assert(run(state, both).1 =~= seq![
        ActionView::PollExit { generation: state.generation },
        ActionView::Log(Notice::StillRunning),
        ActionView::Kill { generation: state.generation },
    ]);
}

/// No child is killed before its grace period has elapsed: a kill is only
/// ever emitted by the step that finds the child alive, and the exit status
/// is only ever looked at by the step that ends the grace period.
pub proof fn law_kill_waits_for_grace(state: RunnerView, event: EventView)
    requires
        state.wf(),
    ensures
        forall|i: int|
            0 <= i < state.step(event).1.len() && (#[trigger] state.step(event).1[i]) is Kill
                ==> state.stage is Polling && (event == EventView::ExitPolled(
                ExitPoll::StillRunning,
            ) || event == EventView::ExitPolled(ExitPoll::Unknown)),
        state.step(event).0.stage is Polling ==> state.stage is Polling || (state.stage is Grace
            && event == EventView::GraceElapsed),
{
    lemma_step_explained(state, event);
    let actions = state.step(event).1;
    assert forall|i: int| 0 <= i < actions.len() && (#[trigger] actions[i]) is Kill implies state.stage is Polling
        && (event == EventView::ExitPolled(ExitPoll::StillRunning) || event
        == EventView::ExitPolled(ExitPoll::Unknown)) by {
        assert(explained(state, event, actions[i]));
    }
    crate::shape::lemma_step_stages(state, event);
}

/// Once the operator has asked the supervisor to stop, nothing is started
/// and nothing is relayed any more: in every run from a state that was
/// asked to stop, the state stays so, and no action starts a build or a
/// child or writes a line.
pub proof fn law_shutdown_is_final(state: RunnerView, events: Seq<EventView>)
    requires
        state.wf(),
        state.closing,
    ensures
        run(state, events).0.closing,
        forall|i: int|
            0 <= i < run(state, events).1.len() ==> crate::shape::winding_down(
                #[trigger] run(state, events).1[i],
            ),
    decreases events.len(),
{
    if events.len() > 0 {
        let before = events.drop_last();
        law_shutdown_is_final(state, before);
        lemma_run_wf(state, before);
        let (middle, early) = run(state, before);
        let late = middle.step(events.last()).1;
        crate::shape::lemma_step_closing(middle, events.last());
        let all = early + late;
        assert forall|i: int| 0 <= i < all.len() implies crate::shape::winding_down(
            #[trigger] all[i],
        ) by {
            if i < early.len() {
                assert(all[i] == early[i]);
            } else {
                assert(all[i] == late[i - early.len()]);
            }
        }
    }
}

/// An awaited answer to the client's initialize request is delivered: while
/// a session awaits it, the next line of the current child goes to the
/// client, verbatim, as the initialize response, ahead of anything else the
/// step does.
pub proof fn law_first_answer_is_delivered(state: RunnerView, line: Seq<char>)
    requires
        state.wf(),
        state.session is AwaitResponse,
    ensures
        state.step(EventView::ChildLine { generation: state.generation, line }).1.len() > 0,
        state.step(EventView::ChildLine { generation: state.generation, line }).1[0] == (
        ActionView::ToClient {
            generation: state.generation,
            line,
            origin: Origin::InitializeResponse,
        }),
{
}

/// The client's first line is captured and passed on: while the request is
/// awaited, the next line of the client becomes the captured request and
/// goes to the current child, verbatim and alone.
pub proof fn law_first_line_is_the_request(state: RunnerView, line: Seq<char>)
    requires
        state.wf(),
        state.session is AwaitRequest,
    ensures
        state.step(EventView::ClientLine(line)).0.captured == Some(line),
        state.step(EventView::ClientLine(line)).1 == seq![
            ActionView::ToChild {
                generation: state.generation,
                line,
                purpose: Purpose::Initialize,
            },
        ],
{
}

/// At most one child lives at any instant, as far as the supervisor can
/// tell: a child is only asked for while none is installed, or in the very
/// step that lets the old one go because it has exited or its kill was
/// attempted. What is asked for is the configured run command, in the target
/// root, as the child of the next generation.
pub proof fn law_child_is_spawned_only_when_none_is_installed(state: RunnerView, event: EventView)
    requires
        state.wf(),
    ensures
        crate::shape::step_spawns_soundly(state, event),
{
    crate::shape::lemma_step_spawns(state, event);
}

/// As many answers are thrown away as subscriptions were shown: the step
/// that shows them awaits one answer for each, and every line of the child
/// counts one off until the last one opens the relay, in both directions or,
/// where the client's input has ended in the meantime, for the child's
/// output alone. A generation that was told to stop in the meantime stops
/// with the last answer.
pub proof fn law_one_answer_is_dropped_per_replay(state: RunnerView, line: Seq<char>)
    requires
        state.wf(),
    ensures
        state.session is AwaitReplay && state.child is Open && state.plan.resend && 0
            < state.subscriptions.len() <= usize::MAX ==> state.step(
            EventView::ChildLine { generation: state.generation, line },
        ).0.session == (crate::model::Session::Draining {
            remaining: state.subscriptions.len() as usize,
        }),
        state.session matches crate::model::Session::Draining { remaining } ==> (if remaining > 1 {
            state.step(EventView::ChildLine { generation: state.generation, line }).0.session == (
            crate::model::Session::Draining { remaining: (remaining - 1) as usize })
        } else if !(state.child is Open) {
            state.step(EventView::ChildLine { generation: state.generation, line }).0.session is Ended
        } else if state.client_open {
            state.step(EventView::ChildLine { generation: state.generation, line }).0.session is Relay
        } else {
            state.step(EventView::ChildLine { generation: state.generation, line }).0.session is Finishing
        }),
{
    let relaying = RunnerView {
        session: crate::model::Session::Relay,
        subscriptions: crate::model::observed_all(
            state.subscriptions,
            state.plan.resend,
            state.backlog,
        ),
        backlog: Seq::empty(),
        ..state
    };
    crate::shape::lemma_moved(relaying, false);
}

/// One settled batch of changes is one restart cycle. From an idle
/// coordinator whose child runs, and with no build command configured, a
/// batch that holds any change, the end of the grace period and the news
/// that the child has exited lead to these actions and no others: the stop
/// signal, the closing of the child's input, the grace period, one look at
/// the exit status, and one spawn of the run command in the target root as
/// the child of the next generation. No build is started.
pub proof fn law_one_batch_is_one_restart_cycle(state: RunnerView, changes: usize)
    requires
        state.wf(),
        state.stage is Quiet,
        state.child is Open,
        !state.closing,
        state.accepted < crate::model::restart_limit(),
        state.plan.build_command.len() == 0,
        changes > 0,
    ensures
        run(
            state,
            seq![
                EventView::FilesChanged { events: changes },
                EventView::GraceElapsed,
                EventView::ExitPolled(ExitPoll::ExitedCleanly),
            ],
        ).1 == seq![
            ActionView::Log(Notice::StopSent),
            ActionView::Log(Notice::ClosingInput),
            ActionView::CloseInput { generation: state.generation },
            ActionView::WaitGrace { seconds: crate::message::GRACE_PERIOD_SECS as nat },
            ActionView::PollExit { generation: state.generation },
            ActionView::Log(Notice::ExitedCleanly),
            ActionView::Log(Notice::RunningCommand),
            ActionView::Spawn {
                generation: state.generation + 1,
                command: state.plan.run_command,
                args: state.plan.run_args,
                dir: state.plan.root,
                wiring: crate::message::child_wiring(),
            },
        ],
        run(
            state,
            seq![
                EventView::FilesChanged { events: changes },
                EventView::GraceElapsed,
                EventView::ExitPolled(ExitPoll::ExitedCleanly),
            ],
        ).0.generation == state.generation + 1,
        run(
            state,
            seq![
                EventView::FilesChanged { events: changes },
                EventView::GraceElapsed,
                EventView::ExitPolled(ExitPoll::ExitedCleanly),
            ],
        ).0.accepted == state.accepted + 1,
{
    let first = EventView::FilesChanged { events: changes };
    let second = EventView::GraceElapsed;
    let third = EventView::ExitPolled(ExitPoll::ExitedCleanly);
    let one = seq![first];
    let two = seq![first, second];
    let three = seq![first, second, third];
    assert(one.drop_last() =~= Seq::<EventView>::empty());
    assert(two.drop_last() =~= one);
    assert(three.drop_last() =~= two);
    assert(run(state, one.drop_last()) == (state, Seq::<ActionView>::empty()));
    let (stopping, begun) = state.step(first);
    assert(run(state, one).0 == stopping);
    assert(run(state, one).1 =~= begun);
    assert(begun =~= seq![
        ActionView::Log(Notice::StopSent),
        ActionView::Log(Notice::ClosingInput),
        ActionView::CloseInput { generation: state.generation },
        ActionView::WaitGrace { seconds: crate::message::GRACE_PERIOD_SECS as nat },
    ]);
    let (polling, looked) = stopping.step(second);
    assert(run(state, two).0 == polling);
    assert(run(state, two).1 =~= begun + looked);
    let (spawning, spawned) = polling.step(third);
    assert(spawned =~= seq![
        ActionView::Log(Notice::ExitedCleanly),
        ActionView::Log(Notice::RunningCommand),
        ActionView::Spawn {
            generation: state.generation + 1,
            command: state.plan.run_command,
            args: state.plan.run_args,
            dir: state.plan.root,
            wiring: crate::message::child_wiring(),
        },
    ]);
    assert(run(state, three).0 == spawning);
    assert(run(state, three).1 =~= begun + looked + spawned);
}

/// A Go project with no overrides watches its module file, builds nothing
/// and runs `go run main.go`: touching `go.mod` while the server runs is one
/// restart cycle that starts no build and spawns exactly one child, with the
/// Go run command, in the target root.
pub proof fn law_touching_go_mod_restarts_with_go_run(
    root: Seq<char>,
    config: crate::config::Config,
    state: RunnerView,
    changes: usize,
)
    requires
        config.language == crate::language::Language::Golang,
        config.watch is None,
        config.build is None,
        config.run is None,
        state.plan == crate::config::plan_of(root, config),
        state.wf(),
        state.stage is Quiet,
        state.child is Open,
        !state.closing,
        state.accepted < crate::model::restart_limit(),
        changes > 0,
    ensures
        crate::config::configured_watch_roots(config) == seq!["go.mod"@],
        state.plan.language == crate::language::Language::Golang,
        run(
            state,
            seq![
                EventView::FilesChanged { events: changes },
                EventView::GraceElapsed,
                EventView::ExitPolled(ExitPoll::ExitedCleanly),
            ],
        ).1 == seq![
            ActionView::Log(Notice::StopSent),
            ActionView::Log(Notice::ClosingInput),
            ActionView::CloseInput { generation: state.generation },
            ActionView::WaitGrace { seconds: 2 },
            ActionView::PollExit { generation: state.generation },
            ActionView::Log(Notice::ExitedCleanly),
            ActionView::Log(Notice::RunningCommand),
            ActionView::Spawn {
                generation: state.generation + 1,
                command: "go"@,
                args: seq!["run"@, "main.go"@],
                dir: root,
                wiring: crate::message::child_wiring(),
            },
        ],
{
    reveal_strlit("");
    assert(crate::config::configured_watch_roots(config) =~= seq!["go.mod"@]);
    law_one_batch_is_one_restart_cycle(state, changes);
}

/// Whether a generation has made itself known to the client: it passed the
/// initialize response on, or it opened a burst of list-changed
/// notifications.
pub open spec fn announced(actions: Seq<ActionView>, generation: nat) -> bool {
    exists|i: int|
        0 <= i < actions.len() && (is_response(#[trigger] actions[i]) || opens_burst(actions[i]))
            && generation_of(actions[i]) == generation
}

/// No generation relays unannounced: in every run, a generation that
/// relays, or is about to once the answers to replayed subscriptions are in,
/// has either delivered the client's initialize response or opened the burst
/// of the three notifications.
pub proof fn law_relaying_generation_was_announced(plan: PlanView, events: Seq<EventView>)
    ensures
        run(RunnerView::initial(plan), events).0.session is Relay || run(
            RunnerView::initial(plan),
            events,
        ).0.session is Draining ==> announced(
            run(RunnerView::initial(plan), events).1,
            run(RunnerView::initial(plan), events).0.generation,
        ),
    decreases events.len(),
{
    let start = RunnerView::initial(plan);
    lemma_initial_wf(plan);
    if events.len() > 0 {
        let before = events.drop_last();
        let (middle, early) = run(start, before);
        let event = events.last();
        let (next, late) = middle.step(event);
        law_relaying_generation_was_announced(plan, before);
        lemma_run_wf(start, before);
        crate::shape::lemma_step_enters_relay(middle, event);
        lemma_step_burst(middle, event);
        let all = early + late;
        let cut = early.len() as int;
        if next.session is Relay || next.session is Draining {
            if middle.session is Relay || middle.session is Draining {
                let i = choose|i: int|
                    0 <= i < early.len() && (is_response(#[trigger] early[i]) || opens_burst(
                        early[i],
                    )) && generation_of(early[i]) == middle.generation;
                assert(all[i] == early[i]);
            } else if middle.session is AwaitResponse {
                assert(is_response(late[0]));
                assert(all[cut] == late[0]);
            } else {
                assert(burst_at(late, 1, middle.generation));
                assert(opens_burst(late[2]));
                assert(all[cut + 2] == late[2]);
            }
        }
    }
}

/// A restart does not cut a handshake short. Whatever the coordinator does
/// short of letting the child go (taking a restart on, finishing a build,
/// closing the child's input, waiting, looking for its exit, asking for its
/// kill), and whatever the client sends or closes, a session in its
/// handshake stays where it is, in its generation, with the captured request
/// and the record of the response as they were.
pub proof fn law_restart_does_not_cut_a_handshake(state: RunnerView, event: EventView)
    requires
        state.wf(),
        state.handshaking(),
        !state.closing,
        event is Trigger || event is FilesChanged || event is WatchFailed || event is BuildFinished
            || event is GraceElapsed || event == EventView::ExitPolled(ExitPoll::StillRunning)
            || event == EventView::ExitPolled(ExitPoll::Unknown) || event is ClientLine
            || event is ClientClosed || event is ChildClosed,
    ensures
        state.step(event).0.session == state.session,
        state.step(event).0.generation == state.generation,
        state.step(event).0.answered == state.answered,
        state.step(event).0.captured == state.captured,
{
    let counted = RunnerView { accepted: state.accepted + 1, ..state };
    crate::shape::lemma_moved(counted, false);
    crate::shape::lemma_moved(state, true);
}

/// The end of the client's input does not end the child's output. When the
/// client's input ends, a session that relays goes on, in its generation, to
/// pass only the child's output on. In that state every line of the child
/// goes to the client, verbatim and alone, and leaves the state as it is; the
/// end of the child's output ends the session.
pub proof fn law_output_outlives_the_client_input(state: RunnerView, line: Seq<char>)
    requires
        state.wf(),
    ensures
        state.session is Relay ==> state.step(EventView::ClientClosed).0.session is Finishing
            && state.step(EventView::ClientClosed).0.generation == state.generation,
        state.session is Finishing ==> state.step(
            EventView::ChildLine { generation: state.generation, line },
        ) == (
            state,
            seq![
                ActionView::ToClient {
                    generation: state.generation,
                    line,
                    origin: Origin::Relayed,
                },
            ],
        ),
        state.session is Finishing ==> state.step(
            EventView::ChildClosed { generation: state.generation },
        ).0.session is Ended,
{
    let closed = RunnerView { client_open: false, ..state };
    let finishing = RunnerView { session: crate::model::Session::Finishing, ..closed };
    crate::shape::lemma_moved(finishing, false);
}

} // verus!
