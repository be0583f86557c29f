//! Whole runs: what the state machine makes of a sequence of events.

use vstd::prelude::*;
use crate::command::CommandView;
use crate::confirm::affirmative;
use crate::session::{Action, EventView, Outcome, SessionView, Stage};

verus! {

/// The state that a run reaches from `state` on hearing `events` one after
/// another, with the actions that it asks for on the way. An event that the
/// stage does not await is passed over.
pub open spec fn run(state: SessionView, events: Seq<EventView>) -> (SessionView, Seq<Action>)
    decreases events.len(),
{
    if events.len() == 0 {
        (state, Seq::empty())
    } else {
        match state.step(events.first()) {
            Some((next, action)) => {
                let (last, actions) = run(next, events.drop_first());
                (last, seq![action] + actions)
            },
            None => run(state, events.drop_first()),
        }
    }
}

/// How many of the rename attempts succeeded.
pub open spec fn successes(results: Seq<bool>) -> nat
    decreases results.len(),
{
    if results.len() == 0 {
        0
    } else if results.first() {
        1 + successes(results.drop_first())
    } else {
        successes(results.drop_first())
    }
}

/// How many of the rename attempts failed.
pub open spec fn failures(results: Seq<bool>) -> nat {
    (results.len() - successes(results)) as nat
}

/// The events that report `results`, one rename after another.
pub open spec fn attempts(results: Seq<bool>) -> Seq<EventView> {
    results.map_values(|succeeded: bool| EventView::Renamed { succeeded })
}

/// Where a stage stands in the order of a run.
pub open spec fn rank(stage: Stage) -> nat {
    match stage {
        Stage::Validating => 0,
        Stage::Scanning => 1,
        Stage::Confirming => 2,
        Stage::Applying { .. } => 3,
        Stage::Finished(_) => 4,
    }
}

/// A run begins in a valid state.
pub proof fn lemma_initial_state_is_valid(command: CommandView)
    ensures
        SessionView::initial(command).wf(),
{
}

/// Every step leads from a valid state to a valid state.
pub proof fn lemma_step_keeps_valid(state: SessionView, event: EventView)
    requires
        state.wf(),
        event matches EventView::Scanned(entries) ==> entries.len() <= usize::MAX,
    ensures
        state.step(event) matches Some((next, _)) ==> next.wf(),
{
    if let EventView::Scanned(entries) = event {
        crate::plan::lemma_plan_no_longer_than_scan(entries, state.command);
    }
}

/// No step goes back: each leads to a later stage, or to the next rename of
/// the plan.
pub proof fn lemma_step_goes_forward(state: SessionView, event: EventView)
    requires
        state.wf(),
    ensures
        state.step(event) matches Some((next, _)) ==> {
            ||| rank(next.stage) > rank(state.stage)
            ||| state.stage is Applying && next.stage is Applying && next.attempted()
                == state.attempted() + 1
        },
{
}

/// The command never changes, and the plan is set once, by the scan: what was
/// previewed is what is attempted.
pub proof fn lemma_plan_is_fixed(state: SessionView, event: EventView)
    ensures
        state.step(event) matches Some((next, _)) ==> {
            &&& next.command == state.command
            &&& !(state.stage is Scanning) ==> next.plan == state.plan
        },
{
}

/// The plan is shown, and an answer asked for, only where there is something
/// to rename, and only once the directory has been scanned.
pub proof fn lemma_confirmation_needs_a_plan(state: SessionView, event: EventView)
    ensures
        state.step(event) matches Some((next, Action::Confirm)) ==> {
            &&& state.stage is Scanning
            &&& next.stage is Confirming
            &&& next.plan.len() > 0
        },
{
}

/// A finished run takes no further event.
pub proof fn lemma_finished_run_is_over(state: SessionView, events: Seq<EventView>)
    requires
        state.stage is Finished,
    ensures
        run(state, events) == (state, Seq::<Action>::empty()),
    decreases events.len(),
{
    if events.len() > 0 {
        lemma_finished_run_is_over(state, events.drop_first());
    }
}

/// An answer that is not affirmative ends the run without a single rename,
/// whatever is reported afterwards.
pub proof fn lemma_declined_answer_renames_nothing(
    state: SessionView,
    answer: Seq<char>,
    later: Seq<EventView>,
)
    requires
        state.stage is Confirming,
        !affirmative(answer),
    ensures
        run(state, seq![EventView::Answered(answer)] + later) == (
            SessionView { stage: Stage::Finished(Outcome::Cancelled), ..state },
            seq![Action::Finish(Outcome::Cancelled)],
        ),
{
    let events = seq![EventView::Answered(answer)] + later;
    let cancelled = SessionView { stage: Stage::Finished(Outcome::Cancelled), ..state };
    assert(events.drop_first() == later);
    lemma_finished_run_is_over(cancelled, later);
}

/// Without an affirmative answer no rename is ever asked for, whatever else is
/// reported and in whatever order.
pub proof fn lemma_no_rename_without_yes(state: SessionView, events: Seq<EventView>)
    requires
        !(state.stage is Applying),
        forall|i: int|
            0 <= i < events.len() ==> ((#[trigger] events[i]) matches EventView::Answered(answer)
                ==> !affirmative(answer)),
    ensures
        !(run(state, events).0.stage is Applying),
        forall|j: int|
            0 <= j < run(state, events).1.len() ==> !(#[trigger] run(state, events).1[j]
                is Rename),
    decreases events.len(),
{
    if events.len() > 0 {
        let rest = events.drop_first();
        assert forall|i: int| 0 <= i < rest.len() implies ((#[trigger] rest[i])
            matches EventView::Answered(answer) ==> !affirmative(answer)) by {
            assert(rest[i] == events[i + 1]);
        }
        match state.step(events.first()) {
            Some((next, action)) => {
                lemma_no_rename_without_yes(next, rest);
                let actions = run(state, events).1;
                let later = run(next, rest).1;
                assert(actions == seq![action] + later);
                assert forall|j: int| 0 <= j < actions.len() implies !(#[trigger] actions[j]
                    is Rename) by {
                    if j > 0 {
                        assert(actions[j] == later[j - 1]);
                    }
                }
            },
            None => {
                lemma_no_rename_without_yes(state, rest);
            },
        }
    }
}

/// An affirmative answer starts the renames with the first entry of the plan.
pub proof fn lemma_affirmative_answer_starts_renames(state: SessionView, answer: Seq<char>)
    requires
        state.stage is Confirming,
        affirmative(answer),
    ensures
        state.step(EventView::Answered(answer)) == Some(
            (
                SessionView { stage: Stage::Applying { succeeded: 0, failed: 0 }, ..state },
                Action::Rename { index: 0 },
            ),
        ),
{
}

/// Every rename of the plan is attempted once and in order, whether those
/// before it succeeded or failed, and the run ends with the exact counts.
pub proof fn lemma_every_rename_is_attempted(state: SessionView, results: Seq<bool>)
    requires
        state.wf(),
        state.stage is Applying,
        state.attempted() + results.len() == state.plan.len(),
    ensures
        ({
            let (last, actions) = run(state, attempts(results));
            let done = Outcome::Completed {
                succeeded: (state.stage->succeeded + successes(results)) as usize,
                failed: (state.stage->failed + failures(results)) as usize,
            };
            &&& last == SessionView { stage: Stage::Finished(done), ..state }
            &&& state.stage->succeeded + successes(results) + state.stage->failed + failures(
                results,
            ) == state.plan.len()
            &&& actions.len() == results.len()
            &&& forall|i: int|
                0 <= i < results.len() - 1 ==> #[trigger] actions[i] == Action::Rename {
                    index: (state.attempted() + i + 1) as usize,
                }
            &&& actions.last() == Action::Finish(done)
        }),
    decreases results.len(),
{
    let events = attempts(results);
    let first = EventView::Renamed { succeeded: results.first() };
    assert(events.drop_first() == attempts(results.drop_first()));
    let (next, action) = state.step(first).unwrap();
    let (last, actions) = run(state, events);
    let (inner_last, inner_actions) = run(next, events.drop_first());
    assert(actions == seq![action] + inner_actions);
    if results.len() == 1 {
        lemma_finished_run_is_over(next, events.drop_first());
    } else {
        lemma_every_rename_is_attempted(next, results.drop_first());
        assert forall|i: int| 0 <= i < results.len() - 1 implies #[trigger] actions[i]
            == (Action::Rename { index: (state.attempted() + i + 1) as usize }) by {
            if i > 0 {
                assert(actions[i] == inner_actions[i - 1]);
            }
        }
    }
}

/// With one failure among the renames of a plan, all the others are still
/// attempted, and the run ends with that one failure counted.
pub proof fn lemma_one_failure_among_many(state: SessionView, results: Seq<bool>, failed: int)
    requires
        state.wf(),
        state.stage == (Stage::Applying { succeeded: 0, failed: 0 }),
        results.len() == state.plan.len(),
        0 <= failed < results.len(),
        forall|i: int| 0 <= i < results.len() ==> (results[i] <==> i != failed),
    ensures
        run(state, attempts(results)).1.len() == state.plan.len(),
        run(state, attempts(results)).0.stage == Stage::Finished(
            Outcome::Completed { succeeded: (state.plan.len() - 1) as usize, failed: 1 },
        ),
{
    lemma_every_rename_is_attempted(state, results);
    lemma_count_one_failure(results, failed);
}

/// Results of which exactly one is a failure hold one success fewer than
/// their number.
proof fn lemma_count_one_failure(results: Seq<bool>, failed: int)
    requires
        0 <= failed < results.len(),
        forall|i: int| 0 <= i < results.len() ==> (results[i] <==> i != failed),
    ensures
        successes(results) == results.len() - 1,
    decreases results.len(),
{
    let rest = results.drop_first();
    if failed == 0 {
        lemma_count_all_succeeded(rest);
    } else {
        lemma_count_one_failure(rest, failed - 1);
    }
}

/// Results without a failure hold as many successes as their number.
proof fn lemma_count_all_succeeded(results: Seq<bool>)
    requires
        forall|i: int| 0 <= i < results.len() ==> results[i],
    ensures
        successes(results) == results.len(),
    decreases results.len(),
{
    if results.len() > 0 {
        lemma_count_all_succeeded(results.drop_first());
    }
}

} // verus!
