//! Runs of the supervisor and what can be read off them.

use crate::message::{ActionView, EventView, Purpose};
use crate::model::{forwards, lemma_step_wf, Outcome, RunnerView};
use vstd::prelude::*;

verus! {

/// The state after a sequence of events, and every action on the way there.
pub open spec fn run(state: RunnerView, events: Seq<EventView>) -> Outcome
    decreases events.len(),
{
    if events.len() == 0 {
        (state, Seq::empty())
    } else {
        let (middle, early) = run(state, events.drop_last());
        let (next, late) = middle.step(events.last());
        (next, early + late)
    }
}

/// A run from a reachable state ends in a reachable state.
pub proof fn lemma_run_wf(state: RunnerView, events: Seq<EventView>)
    requires
        state.wf(),
    ensures
        run(state, events).0.wf(),
    decreases events.len(),
{
    if events.len() > 0 {
        lemma_run_wf(state, events.drop_last());
        lemma_step_wf(run(state, events.drop_last()).0, events.last());
    }
}

/// The client line that an action hands to a child for the first time, if it
/// does: replays and synthetic notifications are no client lines on their way.
pub open spec fn forwarded(action: ActionView) -> Option<Seq<char>> {
    match action {
        ActionView::ToChild { line, purpose: Purpose::Initialize, .. } => Some(line),
        ActionView::ToChild { line, purpose: Purpose::Forward, .. } => Some(line),
        _ => None,
    }
}

/// The client lines that a list of actions hands to children, in order.
pub open spec fn forwarded_lines(actions: Seq<ActionView>) -> Seq<Seq<char>>
    decreases actions.len(),
{
    if actions.len() == 0 {
        Seq::empty()
    } else {
        let earlier = forwarded_lines(actions.drop_last());
        match forwarded(actions.last()) {
            Some(line) => earlier.push(line),
            None => earlier,
        }
    }
}

/// The line that an event brings from the client, if it does.
pub open spec fn arriving(event: EventView) -> Seq<Seq<char>> {
    match event {
        EventView::ClientLine(line) => seq![line],
        _ => Seq::empty(),
    }
}

/// The lines that the client sent in a sequence of events, in order.
pub open spec fn client_lines(events: Seq<EventView>) -> Seq<Seq<char>>
    decreases events.len(),
{
    if events.len() == 0 {
        Seq::empty()
    } else {
        client_lines(events.drop_last()) + arriving(events.last())
    }
}

/// The forwarded lines of two lists of actions, one after the other.
pub proof fn lemma_forwarded_concat(first: Seq<ActionView>, second: Seq<ActionView>)
    ensures
        forwarded_lines(first + second) == forwarded_lines(first) + forwarded_lines(second),
    decreases second.len(),
{
    if second.len() == 0 {
        assert(first + second =~= first);
        assert(forwarded_lines(first) + forwarded_lines(second) =~= forwarded_lines(first));
    } else {
        lemma_forwarded_concat(first, second.drop_last());
        assert((first + second).drop_last() =~= first + second.drop_last());
        assert((first + second).last() == second.last());
        match forwarded(second.last()) {
            Some(line) => {
                assert(forwarded_lines(first + second) =~= forwarded_lines(first)
                    + forwarded_lines(second));
            },
            None => {},
        }
    }
}

/// A list of actions none of which forwards a line forwards no lines.
pub proof fn lemma_forwarded_none(actions: Seq<ActionView>)
    requires
        forall|i: int| 0 <= i < actions.len() ==> forwarded(#[trigger] actions[i]) is None,
    ensures
        forwarded_lines(actions) == Seq::<Seq<char>>::empty(),
    decreases actions.len(),
{
    if actions.len() > 0 {
        let earlier = actions.drop_last();
        assert forall|i: int| 0 <= i < earlier.len() implies forwarded(#[trigger] earlier[i]) is None by {
            assert(earlier[i] == actions[i]);
        }
        lemma_forwarded_none(earlier);
        assert(forwarded(actions[actions.len() - 1]) is None);
    }
}

/// A list of one action forwards that action's line, if any.
pub proof fn lemma_forwarded_single(action: ActionView)
    ensures
        forwarded_lines(seq![action]) == match forwarded(action) {
            Some(line) => seq![line],
            None => Seq::<Seq<char>>::empty(),
        },
{
    let single = seq![action];
    assert(single.drop_last() =~= Seq::<ActionView>::empty());
    assert(forwarded_lines(single.drop_last()) =~= Seq::<Seq<char>>::empty());
    assert(single.last() == action);
    match forwarded(action) {
        Some(line) => {
            assert(forwarded_lines(single) =~= seq![line]);
        },
        None => {},
    }
}

/// Forwarding a backlog forwards exactly its lines, in order.
pub proof fn lemma_forwarded_forwards(generation: nat, lines: Seq<Seq<char>>)
    ensures
        forwarded_lines(forwards(generation, lines)) == lines,
    decreases lines.len(),
{
    let sent = forwards(generation, lines);
    if lines.len() == 0 {
        assert(forwarded_lines(sent) =~= lines);
    } else {
        lemma_forwarded_forwards(generation, lines.drop_last());
        assert(sent.drop_last() =~= forwards(generation, lines.drop_last()));
        assert(forwarded(sent.last()) == Some(lines.last()));
        assert(forwarded_lines(sent) =~= lines.drop_last().push(lines.last()));
        assert(lines.drop_last().push(lines.last()) =~= lines);
    }
}

} // verus!
