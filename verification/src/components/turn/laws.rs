//! What holds of turns as a whole: what their records change, what they leave
//! answered, and how far they can go.

use crate::carried_state;
use crate::commands::RunCommand;
use crate::component::{CommandEffectView, StepPhase, StepRunView, TurnCtxView};
use crate::components;
use crate::components::queue::inbox::IncomingView;
use crate::components::turn::{
    self, ConclusionView, LlmFailure, LlmFailureView, MAX_RESULT_NUDGES, RESULT_NUDGE,
    RunOutcomeView, STUCK_THRESHOLD, SUBMIT_RESULT_TOOL, StepResponse, StepResponseView,
    TurnFlightView, TurnStep,
};
use crate::events::{
    AgentDomainEvent, AgentDomainEventView, RunEndView, StepFailureView, StepKindView,
};
use crate::json::JsonView;
use crate::model::{
    ContentPartView, MessageView, StopReason, StoppedCallView, ToolChoiceView, ToolUse,
    ToolUseView,
};
use crate::params::AgentParamsView;
use crate::state::{self, AgentLogBodyView, AgentStateView};
use crate::text;
use crate::timers;
use vstd::prelude::*;

verus! {

/// Whether an event is one a turn writes as it goes.
pub open spec fn own_record(event: AgentDomainEventView) -> bool {
    match event {
        AgentDomainEventView::MessageComplete { .. } => true,
        AgentDomainEventView::MessageAborted { .. } => true,
        AgentDomainEventView::ToolComplete { .. } => true,
        AgentDomainEventView::RunComplete { .. } => true,
        AgentDomainEventView::RunAborted { .. } => true,
        _ => false,
    }
}

/// Whether two states agree on everything that decides what an ending means.
pub open spec fn wakes_alike(a: AgentStateView, b: AgentStateView) -> bool {
    &&& a.offer() == b.offer()
    &&& a.timers() == b.timers()
    &&& carried_state::running(a.log) == carried_state::running(b.log)
    &&& a.nudges() == b.nudges()
}

/// What a turn writes as it goes does not change what would wake its agent: an
/// ending means the same whether it is read before those records or after.
pub proof fn law_a_turns_records_do_not_change_what_would_wake_it(
    state: AgentStateView,
    event: AgentDomainEventView,
)
    requires
        own_record(event),
    ensures
        wakes_alike(state, components::applied(state, event)),
{
    let after = components::applied(state, event);
    assert(after.history.drop_last() =~= state.history);
    if after.log.len() > state.log.len() {
        assert(after.log.drop_last() =~= state.log);
    }
}

/// The same of any number of them.
pub proof fn law_endings_read_the_same_after_a_turns_records(
    state: AgentStateView,
    events: Seq<AgentDomainEventView>,
    params: AgentParamsView,
    run: StepRunView,
    now: u64,
)
    requires
        forall|i: int| 0 <= i < events.len() ==> own_record(#[trigger] events[i]),
    ensures
        wakes_alike(state, components::applied_all(state, events)),
        turn::completing(state, run, params, now) == turn::completing(
            components::applied_all(state, events),
            run,
            params,
            now,
        ),
        forall|calls: Seq<StoppedCallView>| #[trigger]
            turn::stopping(state, calls, now) == turn::stopping(components::applied_all(state, events), calls, now),
    decreases events.len(),
{
    if events.len() > 0 {
        law_endings_read_the_same_after_a_turns_records(
            state,
            events.drop_last(),
            params,
            run,
            now,
        );
        law_a_turns_records_do_not_change_what_would_wake_it(
            components::applied_all(state, events.drop_last()),
            events.last(),
        );
    }
}

/// A turn whose calls are spent makes no other, and one whose calls are not
/// spent counts the next one.
pub proof fn law_a_turn_stays_within_its_calls(
    flight: Option<TurnFlightView>,
    run: StepRunView,
    state: AgentStateView,
    params: AgentParamsView,
    now: u64,
)
    ensures
        turn::stepping(flight, run, state, params, now).call is Some ==> turn::started(flight, run).iteration
            < turn::call_limit(params),
        turn::started(flight, run).iteration >= turn::call_limit(params) ==> {
            &&& turn::stepping(flight, run, state, params, now).call is None
            &&& turn::stepping(flight, run, state, params, now).flight is None
        },
{
}

/// A failing call is tried again at most as often as was configured: every
/// retry counts one more attempt, and none is made past the last.
pub proof fn law_retries_are_bounded(
    flight: Option<TurnFlightView>,
    run: StepRunView,
    state: AgentStateView,
    params: AgentParamsView,
    failure: LlmFailureView,
    now: u64,
)
    ensures
        turn::retrying(flight, run, state, params, failure, now).call is Some ==> {
            &&& failure.transient
            &&& turn::started(flight, run).attempt < params.max_retries
            &&& turn::retrying(flight, run, state, params, failure, now).flight matches Some(next)
                && next.attempt == turn::started(flight, run).attempt + 1
        },
{
}

/// A permanent failure is never shown as one worth trying again.
pub proof fn law_a_failure_keeps_its_kind(
    flight: Option<TurnFlightView>,
    run: StepRunView,
    state: AgentStateView,
    params: AgentParamsView,
    failure: LlmFailureView,
    now: u64,
)
    requires
        !failure.transient,
    ensures
        turn::retrying(flight, run, state, params, failure, now).effect.events.last()
            == (AgentDomainEventView::RunEnded {
            reason: RunEndView::Failed {
                error: failure.error,
                recoverable: false,
                terminal: false,
            },
            at_ms: now,
        }),
{
}

/// A turn that fails leaves no step open and no correction counted: the next
/// run starts afresh.
pub proof fn law_a_failed_turn_closes_its_step(
    state: AgentStateView,
    error: Seq<char>,
    recoverable: bool,
    now: u64,
)
    ensures
        components::applied_all(state, turn::failure_events(error, recoverable, now)).open_step() is None,
        components::applied_all(state, turn::failure_events(error, recoverable, now)).nudges() == 0,
{
    let events = turn::failure_events(error, recoverable, now);
    assert(components::applied_all(state, events) == components::applied(
        components::applied_all(state, events.drop_last()),
        events.last(),
    ));
}

/// A model that keeps making the same calls is stopped: once as many identical
/// batches as fill the window have come in a row, the turn fails.
pub proof fn law_a_stuck_turn_fails(
    flight: TurnFlightView,
    run: StepRunView,
    state: AgentStateView,
    params: AgentParamsView,
    response: StepResponseView,
    now: u64,
)
    requires
        turn::tool_calls(response.message.parts).len() > 0,
        flight.fingerprints.len() >= STUCK_THRESHOLD - 1,
        flight.fingerprints.len() <= STUCK_THRESHOLD,
        turn::all_are(flight.fingerprints, response.fingerprint),
    ensures
        turn::responding(Some(flight), run, state, params, response, now).flight is None,
        turn::responding(Some(flight), run, state, params, response, now).effect.events.last()
            matches AgentDomainEventView::RunEnded { reason: RunEndView::Failed { .. }, .. },
{
    let seen = turn::window(flight.fingerprints, response.fingerprint);
    let all = flight.fingerprints.push(response.fingerprint);
    assert forall|i: int| 0 <= i < seen.len() implies #[trigger] seen[i]
        == response.fingerprint by {
        if all.len() > STUCK_THRESHOLD {
            assert(seen[i] == all[i + 1]);
        } else {
            assert(seen[i] == all[i]);
        }
    }
}

/// A fresh batch of calls is journaled and nothing else happens to it here.
pub proof fn law_a_fresh_batch_is_only_journaled(
    flight: TurnFlightView,
    run: StepRunView,
    state: AgentStateView,
    params: AgentParamsView,
    response: StepResponseView,
    now: u64,
)
    requires
        turn::tool_calls(response.message.parts).len() > 0,
        flight.fingerprints.len() > 0,
        flight.fingerprints.len() <= STUCK_THRESHOLD,
        flight.fingerprints.last() != response.fingerprint,
    ensures
        turn::responding(Some(flight), run, state, params, response, now).effect
            == CommandEffectView::persist(
            seq![
                AgentDomainEventView::MessageComplete {
                    message: response.message,
                    usage: response.usage,
                },
            ],
        ),
{
    let had = flight.fingerprints;
    let seen = turn::window(had, response.fingerprint);
    let all = had.push(response.fingerprint);
    if all.len() > STUCK_THRESHOLD {
        assert(seen[had.len() - 2] == had.last());
    } else {
        assert(seen[had.len() - 1] == had.last());
    }
}

/// Every call of a contradictory batch is answered: nothing is left dangling.
pub proof fn law_a_contradiction_leaves_nothing_dangling(
    state: AgentStateView,
    calls: Seq<StoppedCallView>,
    nudges: u64,
    now: u64,
    k: int,
)
    requires
        0 <= k < calls.len(),
    ensures
        state::answered_in(
            components::applied_all(state, turn::correcting(calls, nudges, now)).log,
            calls[k].tool_call_id,
        ),
{
    let events = turn::correcting(calls, nudges, now);
    assert(turn::refusals(calls, now)[k] == (AgentDomainEventView::ToolComplete {
        tool_call_id: calls[k].tool_call_id,
        output: turn::contradiction(calls),
        is_error: true,
        artifacts: seq![],
        at_ms: now,
    }));
    assert(events[k] == turn::refusals(calls, now)[k]);
    lemma_tool_complete_answers(state, events, k);
}

/// A result that was submitted is answered, so no later turn finds the call
/// open and submits it again.
pub proof fn law_a_submitted_result_is_answered(
    state: AgentStateView,
    tool_call_id: Seq<char>,
    now: u64,
)
    ensures
        state::answered_in(
            components::applied_all(state, turn::submitting(state, Some(tool_call_id), now)).log,
            tool_call_id,
        ),
{
    let events = turn::submitting(state, Some(tool_call_id), now);
    assert(events[0] is ToolComplete);
    lemma_tool_complete_answers(state, events, 0);
}

/// A submitted result leaves no timer armed: nothing is left for one to wake.
pub proof fn law_a_submitted_result_drops_every_timer(
    state: AgentStateView,
    submitted: Option<Seq<char>>,
    now: u64,
)
    ensures
        components::applied_all(state, turn::submitting(state, submitted, now)).timers().len() == 0,
{
    let events = turn::submitting(state, submitted, now);
    let armed = state.timers();
    if armed.len() == 0 {
        if submitted is Some {
            components::lemma_one_event(state, events);
        } else {
            assert(events =~= seq![]);
        }
    } else {
        let rest = events.drop_last();
        if submitted is Some {
            components::lemma_one_event(state, rest);
        } else {
            assert(rest =~= seq![]);
        }
        assert(components::applied_all(state, rest).timers() == armed);
        components::law_a_part_reads_back_what_was_kept(
            components::applied_all(state, rest).parts,
            timers::without(armed, timers::ids_of(armed)),
            seq![],
        );
        timers::law_cancelling_all_leaves_nothing(armed);
    }
}

/// So does a batch that submits one: a timer its other calls armed goes with
/// the rest.
pub proof fn law_a_batch_that_submits_leaves_no_timer(
    flight: Option<TurnFlightView>,
    events: Seq<AgentDomainEventView>,
    calls: Seq<StoppedCallView>,
    state: AgentStateView,
    now: u64,
)
    requires
        turn::interpreted(calls) is Output,
    ensures
        components::applied_all(
            state,
            turn::batch_ended(flight, events, calls, state, now).events,
        ).timers().len() == 0,
{
    let complete = AgentDomainEventView::RunComplete {
        iterations: match flight {
            Some(flight) => flight.iteration,
            None => 0,
        },
        at_ms: now,
    };
    let written = events + seq![complete];
    let folded = components::applied_all(state, written);
    let tail = turn::stopping(folded, calls, now).events;
    components::law_replay_agrees_with_live_handling(state, written, tail);
    law_a_submitted_result_drops_every_timer(folded, turn::interpreted(calls)->Output_1, now);
}

/// An answer in the transcript stays there.
proof fn lemma_answers_stay(
    state: AgentStateView,
    events: Seq<AgentDomainEventView>,
    id: Seq<char>,
)
    requires
        state::answered_in(state.log, id),
        forall|i: int| 0 <= i < events.len() ==> !((#[trigger] events[i]) is Seeded),
    ensures
        state::answered_in(components::applied_all(state, events).log, id),
    decreases events.len(),
{
    if events.len() > 0 {
        let rest = events.drop_last();
        lemma_answers_stay(state, rest, id);
        let before = components::applied_all(state, rest);
        let after = components::applied_all(state, events);
        let k = choose|k: int|
            0 <= k < before.log.len() && ((#[trigger] before.log[k]).body matches
                AgentLogBodyView::Llm(message) && state::answers_call(message, id));
        assert(after.log[k] == before.log[k]);
    }
}

/// A result among the events answers its call.
proof fn lemma_tool_complete_answers(
    state: AgentStateView,
    events: Seq<AgentDomainEventView>,
    k: int,
)
    requires
        0 <= k < events.len(),
        events[k] is ToolComplete,
        forall|i: int| 0 <= i < events.len() ==> !((#[trigger] events[i]) is Seeded),
    ensures
        state::answered_in(components::applied_all(state, events).log, events[k]->ToolComplete_tool_call_id),
{
    let id = events[k]->ToolComplete_tool_call_id;
    let upto = events.take(k + 1);
    assert(upto.last() == events[k]);
    let before = components::applied_all(state, upto.drop_last());
    let after = components::applied_all(state, upto);
    assert(after == components::applied(before, events[k]));
    let entry = after.log[before.log.len() as int];
    assert(entry.body matches AgentLogBodyView::Llm(message) && state::answers_call(message, id)) by {
        let message = entry.body->Llm_0;
        assert(message.parts[0] matches ContentPartView::ToolResult(result)
            && result.tool_call_id == id);
    }
    assert(state::answered_in(after.log, id));
    assert(upto + events.skip(k + 1) =~= events);
    components::law_replay_agrees_with_live_handling(state, upto, events.skip(k + 1));
    lemma_answers_stay(after, events.skip(k + 1), id);
}

/// What an event does to the count of corrections.
proof fn lemma_nudges_step(state: AgentStateView, event: AgentDomainEventView)
    requires
        !(event is Seeded),
    ensures
        components::applied(state, event).nudges() == (match event {
            AgentDomainEventView::RunEnded { .. } => 0,
            AgentDomainEventView::Nudged { .. } => state.nudges() + 1,
            _ => state.nudges(),
        }),
{
    assert(components::applied(state, event).history.drop_last() =~= state.history);
}

/// A correction counts one more against the run's budget.
pub proof fn law_a_correction_is_counted(
    state: AgentStateView,
    calls: Seq<StoppedCallView>,
    now: u64,
)
    requires
        state.nudges() < u64::MAX,
    ensures
        components::applied_all(state, turn::correcting(calls, state.nudges() as u64, now)).nudges()
            == state.nudges() + 1,
{
    let nudges = state.nudges() as u64;
    let told = turn::refusals(calls, now);
    let nudge = AgentDomainEventView::Nudged { at_ms: now };
    lemma_refusals_count_nothing(state, told, calls, now, calls.len() as int);
    assert(told.take(calls.len() as int) =~= told);
    assert(told.push(nudge).drop_last() =~= told);
    let counted = components::applied_all(state, told.push(nudge));
    assert(counted == components::applied(components::applied_all(state, told), nudge));
    lemma_nudges_step(components::applied_all(state, told), nudge);
    let events = turn::correcting(calls, nudges, now);
    if timers::capped_sum(nudges, 1) <= MAX_RESULT_NUDGES {
        assert(events.drop_last() =~= told.push(nudge));
        lemma_nudges_step(counted, events.last());
    }
}

/// Error results leave the budget as it was.
proof fn lemma_refusals_count_nothing(
    state: AgentStateView,
    told: Seq<AgentDomainEventView>,
    calls: Seq<StoppedCallView>,
    now: u64,
    k: int,
)
    requires
        told == turn::refusals(calls, now),
        0 <= k <= calls.len(),
    ensures
        components::applied_all(state, told.take(k)).nudges() == state.nudges(),
    decreases k,
{
    if k > 0 {
        lemma_refusals_count_nothing(state, told, calls, now, k - 1);
        assert(told.take(k).drop_last() =~= told.take(k - 1));
        assert(told.take(k).last() == told[k - 1]);
        law_a_turns_records_do_not_change_what_would_wake_it(
            components::applied_all(state, told.take(k - 1)),
            told[k - 1],
        );
    }
}

/// An agent that owes a result and ends its turn without one is not left
/// waiting for nothing: either the queue already offers its next turn, or
/// something will wake it, or the nudge it is given does, or its run ends.
pub proof fn law_an_agent_that_owes_a_result_never_stalls(
    state: AgentStateView,
    run: StepRunView,
    now: u64,
)
    requires
        state.nudges() < u64::MAX,
    ensures
        ({
            let after = components::applied_all(state, turn::lacking_result(state, run, now).0.events);
            ||| after.offer() is Some
            ||| turn::will_wake(after)
            ||| after.history.last().record matches AgentDomainEventView::RunEnded {
                reason: RunEndView::Failed { .. },
                ..
            }
        }),
{
    let events = turn::lacking_result(state, run, now).0.events;
    let after = components::applied_all(state, events);
    if state.offer() is Some {
        assert(events =~= seq![]);
    } else if turn::will_wake(state) {
        components::lemma_two_events(state, events);
    } else if state.nudges() as u64 >= MAX_RESULT_NUDGES {
        components::lemma_one_event(state, events);
    } else {
        components::lemma_two_events(state, events);
        assert(after.inbox == state.inbox.push(events[0]->item));
        assert(after.inbox[state.inbox.len() as int].is_user());
    }
}

/// The nudges of one run are numbered, and after the last of them the step
/// fails.
pub proof fn law_result_nudges_run_out(state: AgentStateView, run: StepRunView, now: u64)
    requires
        state.offer() is None,
        !turn::will_wake(state),
    ensures
        state.nudges() < MAX_RESULT_NUDGES ==> components::applied_all(
            state,
            turn::lacking_result(state, run, now).0.events,
        ).nudges() == state.nudges() + 1,
        MAX_RESULT_NUDGES <= state.nudges() <= u64::MAX ==> turn::lacking_result(
            state,
            run,
            now,
        ).0.events.last() matches AgentDomainEventView::RunEnded {
            reason: RunEndView::Failed { .. },
            ..
        },
{
    let events = turn::lacking_result(state, run, now).0.events;
    if state.nudges() < MAX_RESULT_NUDGES {
        components::lemma_two_events(state, events);
        lemma_nudges_step(state, events[0]);
        lemma_nudges_step(components::applied(state, events[0]), events[1]);
    }
}

/// The last nudge names the tool, so the model can emit nothing else; no
/// earlier one does.
pub proof fn law_only_the_last_nudge_forces_the_tool(
    state: AgentStateView,
    run: StepRunView,
    now: u64,
)
    requires
        state.offer() is None,
        !turn::will_wake(state),
        state.nudges() < MAX_RESULT_NUDGES,
    ensures
        state.nudges() + 1 == MAX_RESULT_NUDGES ==> turn::lacking_result(
            state,
            run,
            now,
        ).1.pending_tool_choice == Some(ToolChoiceView::Required(SUBMIT_RESULT_TOOL@)),
        state.nudges() + 1 < MAX_RESULT_NUDGES ==> turn::lacking_result(state, run, now).1 == run,
{
}

/// A choice about tool use applies to exactly one turn: the turn that starts
/// takes it, and leaves none behind.
pub proof fn law_a_tool_choice_is_used_once(run: StepRunView, choice: ToolChoiceView)
    requires
        run.pending_tool_choice == Some(choice),
    ensures
        turn::started(None, run).tool_choice == choice,
        turn::taken(None, run).pending_tool_choice is None,
        turn::started(None, turn::taken(None, run)).tool_choice == ToolChoiceView::Auto,
{
}

/// A question is a park: what was asked is what the agent waits on, and no
/// step is open.
pub proof fn law_an_ask_parks_on_every_question(
    state: AgentStateView,
    calls: Seq<StoppedCallView>,
    now: u64,
)
    requires
        calls.len() > 0,
        turn::all_ask(calls),
    ensures
        ({
            let after = components::applied_all(state, turn::stopping(state, calls, now).events);
            &&& after.asks == calls.map_values(|c: StoppedCallView| turn::asked(c))
            &&& after.open_step() is None
        }),
{
    let events = turn::stopping(state, calls, now).events;
    components::lemma_two_events(state, events);
}

/// A report of a step that is not open, or that was stopped, changes nothing.
pub proof fn law_stragglers_change_nothing(
    flight: Option<TurnFlightView>,
    run: StepRunView,
    state: AgentStateView,
    marker_seq: u64,
    handled: TurnStep,
)
    requires
        !state.agent_step_is(marker_seq) || !run.live(marker_seq),
    ensures
        turn::reported(flight, run, state, marker_seq, handled) == (TurnStep {
            flight,
            run,
            effect: CommandEffectView::none(),
            call: None,
        }),
{
}

/// A turn goes on to its next call as long as it has calls left: a hundred of
/// them where nothing else is configured, and as many as were configured
/// where something is. Nothing is written, and the calls counted so far stay
/// counted.
pub proof fn law_a_turn_with_calls_left_goes_on(
    flight: Option<TurnFlightView>,
    run: StepRunView,
    state: AgentStateView,
    params: AgentParamsView,
    marker_seq: u64,
    now: u64,
)
    requires
        run.ctx is Some,
        state.open_step() == Some((marker_seq, StepKindView::Agent)),
    ensures
        ({
            let made: int = match flight {
                Some(flight) => flight.iteration as int,
                None => 0,
            };
            let left = match params.max_iterations {
                Some(n) => made < n,
                None => made < 100,
            };
            let step = turn::stepping(flight, run, state, params, now);
            &&& left ==> step.call is Some && step.effect.events.len() == 0 && !step.effect.snapshot
            &&& left ==> (step.flight matches Some(next) && next.iteration == made)
            &&& step.call is Some ==> left
        }),
{
}

/// A turn whose calls are spent fails for good, whatever else is true of it,
/// and says how many it was allowed.
pub proof fn law_a_turn_out_of_calls_fails(
    flight: TurnFlightView,
    run: StepRunView,
    state: AgentStateView,
    params: AgentParamsView,
    now: u64,
)
    requires
        match params.max_iterations {
            Some(n) => flight.iteration >= n,
            None => flight.iteration >= 100,
        },
    ensures
        ({
            let allowed: nat = match params.max_iterations {
                Some(n) => n as nat,
                None => 100,
            };
            let error = "max iterations exceeded (max="@ + text::decimal(allowed) + ")"@;
            let step = turn::stepping(Some(flight), run, state, params, now);
            &&& step.call is None
            &&& step.flight is None
            &&& step.run == run
            &&& step.effect.events == seq![
                AgentDomainEventView::RunAborted { at_ms: now },
                AgentDomainEventView::StepFailed { reason: StepFailureView::Provider(error) },
                AgentDomainEventView::RunEnded {
                    reason: RunEndView::Failed { error, recoverable: false, terminal: false },
                    at_ms: now,
                },
            ]
        }),
{
    let events = turn::stepping(Some(flight), run, state, params, now).effect.events;
    assert(events.len() == 3);
}

/// A call that is made is made for the open step, with what the run was
/// prepared with, and holds the slot until it reports back. Whether it is the
/// first try or a later one changes only how long it waits.
pub proof fn law_a_call_carries_what_was_prepared(
    flight: TurnFlightView,
    run: StepRunView,
    ctx: TurnCtxView,
    state: AgentStateView,
    params: AgentParamsView,
    failure: LlmFailureView,
    marker_seq: u64,
    now: u64,
)
    requires
        run.ctx == Some(ctx),
        state.open_step() == Some((marker_seq, StepKindView::Agent)),
    ensures
        ({
            let first = turn::stepping(Some(flight), run, state, params, now);
            let again = turn::retrying(Some(flight), run, state, params, failure, now);
            &&& first.call matches Some(call) ==> {
                &&& call.delay_ms is None
                &&& call.marker_seq == marker_seq
                &&& call.generation == run.generation
                &&& call.tool_choice == flight.tool_choice
                &&& call.conversation_id == ctx.conversation_id
                &&& call.system_prompt == ctx.system_prompt
                &&& call.specs == ctx.specs
                &&& call.thinking_effort == ctx.thinking_effort
                &&& first.run.running == Some(StepPhase::CallingProvider)
                &&& first.run.marker_seq == Some(marker_seq)
                &&& first.run.ctx == run.ctx
                &&& first.run.generation == run.generation
                &&& first.run.deltas == run.deltas
                &&& first.run.calls == run.calls
                &&& first.run.pending_tool_choice == run.pending_tool_choice
                &&& first.flight == Some(flight)
            }
            &&& again.call matches Some(call) ==> {
                &&& call.delay_ms is Some
                &&& call.marker_seq == marker_seq
                &&& call.generation == run.generation
                &&& call.tool_choice == flight.tool_choice
                &&& call.conversation_id == ctx.conversation_id
                &&& call.system_prompt == ctx.system_prompt
                &&& call.specs == ctx.specs
                &&& call.thinking_effort == ctx.thinking_effort
                &&& again.run.running == Some(StepPhase::CallingProvider)
                &&& again.run.marker_seq == Some(marker_seq)
                &&& again.run.ctx == run.ctx
                &&& again.run.generation == run.generation
                &&& again.run.pending_tool_choice == run.pending_tool_choice
            }
        }),
{
}

/// No call is made without something prepared to run against, nor outside an
/// open step of the agent's own; a turn with calls left is not failed for it.
pub proof fn law_no_call_without_a_step_to_make_it_in(
    flight: Option<TurnFlightView>,
    run: StepRunView,
    state: AgentStateView,
    params: AgentParamsView,
    failure: LlmFailureView,
    now: u64,
)
    requires
        run.ctx is None || !(state.open_step() matches Some((_, StepKindView::Agent))),
    ensures
        turn::stepping(flight, run, state, params, now).call is None,
        turn::retrying(flight, run, state, params, failure, now).call is None,
        flight is None && params.max_iterations is None ==> turn::stepping(
            flight,
            run,
            state,
            params,
            now,
        ).effect.events.len() == 0,
{
}

/// The first call of a turn says about tool use what was left waiting for it,
/// and nothing in particular where nothing was; what was waiting is gone.
pub proof fn law_the_first_call_takes_the_waiting_choice(
    run: StepRunView,
    state: AgentStateView,
    params: AgentParamsView,
    marker_seq: u64,
    now: u64,
)
    requires
        run.ctx is Some,
        params.max_iterations is None,
        state.open_step() == Some((marker_seq, StepKindView::Agent)),
    ensures
        ({
            let step = turn::stepping(None, run, state, params, now);
            &&& step.run.pending_tool_choice is None
            &&& step.call matches Some(call) && call.tool_choice == (
            match run.pending_tool_choice {
                Some(choice) => choice,
                None => ToolChoiceView::Auto,
            })
            &&& step.flight matches Some(flight) && flight.iteration == 0 && flight.attempt == 0
                && flight.fingerprints.len() == 0
        }),
{
}

/// A call that failed for now is made again while tries are left, after as
/// long as the provider asked for; where it asked for nothing, after a wait
/// that doubles from a tenth of a second and stops growing at the sixth try.
/// Nothing is written, and nothing but the number of tries moves.
pub proof fn law_a_passing_failure_is_tried_again(
    flight: TurnFlightView,
    run: StepRunView,
    state: AgentStateView,
    params: AgentParamsView,
    failure: LlmFailureView,
    marker_seq: u64,
    now: u64,
)
    requires
        failure.transient,
        flight.attempt < params.max_retries,
        run.ctx is Some,
        state.open_step() == Some((marker_seq, StepKindView::Agent)),
    ensures
        ({
            let step = turn::retrying(Some(flight), run, state, params, failure, now);
            &&& step.effect.events.len() == 0
            &&& step.flight == Some(TurnFlightView { attempt: (flight.attempt + 1) as u32, ..flight })
            &&& step.call matches Some(call) && call.delay_ms matches Some(ms) && {
                &&& failure.retry_after_ms matches Some(asked) ==> ms == asked
                &&& failure.retry_after_ms is None ==> {
                    &&& flight.attempt == 0 ==> ms == 100
                    &&& flight.attempt == 1 ==> ms == 200
                    &&& flight.attempt == 2 ==> ms == 400
                    &&& flight.attempt == 3 ==> ms == 800
                    &&& flight.attempt == 4 ==> ms == 1600
                    &&& flight.attempt >= 5 ==> ms == 3200
                }
            }
        }),
{
    reveal_with_fuel(turn::doubled, 8);
}

/// A failure that no further try is left for, or that trying again cannot
/// help, ends the turn with the provider's own words and says whether it was
/// worth trying.
pub proof fn law_a_failure_without_tries_left_ends_the_turn(
    flight: TurnFlightView,
    run: StepRunView,
    state: AgentStateView,
    params: AgentParamsView,
    failure: LlmFailureView,
    now: u64,
)
    requires
        !failure.transient || flight.attempt >= params.max_retries,
    ensures
        ({
            let step = turn::retrying(Some(flight), run, state, params, failure, now);
            &&& step.call is None
            &&& step.flight is None
            &&& step.effect.events == seq![
                AgentDomainEventView::RunAborted { at_ms: now },
                AgentDomainEventView::StepFailed {
                    reason: StepFailureView::Provider(failure.error),
                },
                AgentDomainEventView::RunEnded {
                    reason: RunEndView::Failed {
                        error: failure.error,
                        recoverable: failure.transient,
                        terminal: false,
                    },
                    at_ms: now,
                },
            ]
        }),
{
    let events = turn::retrying(Some(flight), run, state, params, failure, now).effect.events;
    assert(events.len() == 3);
}

/// Whatever a provider call answers, its message and its cost are written
/// first, and no other call is made here. A message that makes a tool call
/// never ends the turn well, and counts one call more.
pub proof fn law_an_answer_is_written_first(
    flight: TurnFlightView,
    run: StepRunView,
    state: AgentStateView,
    params: AgentParamsView,
    response: StepResponseView,
    now: u64,
)
    ensures
        ({
            let step = turn::responding(Some(flight), run, state, params, response, now);
            &&& step.call is None
            &&& step.effect.events.len() > 0
            &&& step.effect.events[0] == (AgentDomainEventView::MessageComplete {
                message: response.message,
                usage: response.usage,
            })
            &&& step.flight matches Some(next) ==> {
                &&& flight.iteration < u32::MAX ==> next.iteration == flight.iteration + 1
                &&& next.attempt == 0
                &&& next.tool_choice == flight.tool_choice
                &&& next.fingerprints.len() > 0
                &&& next.fingerprints.last() == response.fingerprint
            }
        }),
{
}

/// The parts of a message that are tool calls are its calls: it makes none
/// exactly when no part is one.
pub proof fn law_a_message_calls_what_its_parts_call(parts: Seq<ContentPartView>)
    ensures
        turn::tool_calls(parts).len() == 0 <==> forall|i: int|
            0 <= i < parts.len() ==> !((#[trigger] parts[i]) is ToolUse),
        forall|call: ToolUseView| #[trigger]
            turn::tool_calls(parts).contains(call) <==> parts.contains(ContentPartView::ToolUse(call)),
{
    let pick = |p: ContentPartView| turn::as_call(p);
    crate::lists::lemma_filter_map_members(parts, pick);
    assert(turn::tool_calls(parts) == crate::lists::filter_map(parts, pick));
    assert forall|call: ToolUseView| #[trigger] turn::tool_calls(parts).contains(call)
        <==> parts.contains(ContentPartView::ToolUse(call)) by {
        if parts.contains(ContentPartView::ToolUse(call)) {
            let i = choose|i: int|
                0 <= i < parts.len() && parts[i] == ContentPartView::ToolUse(call);
            assert(pick(parts[i]) == Some(call));
        }
        if turn::tool_calls(parts).contains(call) {
            let i = choose|i: int| 0 <= i < parts.len() && pick(#[trigger] parts[i]) == Some(call);
            assert(parts[i] == ContentPartView::ToolUse(call));
        }
    }
    if forall|i: int| 0 <= i < parts.len() ==> !((#[trigger] parts[i]) is ToolUse) {
        crate::lists::lemma_filter_map_none(parts, pick);
    }
    if turn::tool_calls(parts).len() == 0 {
        assert forall|i: int| 0 <= i < parts.len() implies !((#[trigger] parts[i]) is ToolUse) by {
            if parts[i] is ToolUse {
                assert(parts.contains(ContentPartView::ToolUse(parts[i]->ToolUse_0)));
                assert(turn::tool_calls(parts).contains(parts[i]->ToolUse_0));
            }
        }
    }
}

/// Plain text that was not cut short ends the turn well: the call is counted
/// and the run is complete. Where no result is owed and nothing is to be
/// waited for, that is all that is written.
pub proof fn law_plain_text_ends_the_turn(
    flight: TurnFlightView,
    run: StepRunView,
    state: AgentStateView,
    params: AgentParamsView,
    response: StepResponseView,
    now: u64,
)
    requires
        forall|i: int|
            0 <= i < response.message.parts.len() ==> !((#[trigger] response.message.parts[i]) is
                ToolUse),
        response.stop_reason != StopReason::MaxTokens,
        flight.iteration < u32::MAX,
    ensures
        ({
            let step = turn::responding(Some(flight), run, state, params, response, now);
            &&& step.flight is None
            &&& step.effect.events.len() >= 2
            &&& step.effect.events[1] == (AgentDomainEventView::RunComplete {
                iterations: (flight.iteration + 1) as u32,
                at_ms: now,
            })
            &&& !params.requires_result && !params.park_on_outstanding_work
                ==> step.effect.events.len() == 2 && !step.effect.snapshot && step.run == run
        }),
{
    law_a_message_calls_what_its_parts_call(response.message.parts);
}

/// Plain text cut off at the token limit is no finished turn: it fails for
/// good, in words that say why.
pub proof fn law_truncated_text_fails_the_turn(
    flight: TurnFlightView,
    run: StepRunView,
    state: AgentStateView,
    params: AgentParamsView,
    response: StepResponseView,
    now: u64,
)
    requires
        forall|i: int|
            0 <= i < response.message.parts.len() ==> !((#[trigger] response.message.parts[i]) is
                ToolUse),
        response.stop_reason == StopReason::MaxTokens,
    ensures
        ({
            let error = "response truncated at the max_tokens limit"@;
            let step = turn::responding(Some(flight), run, state, params, response, now);
            &&& step.flight is None
            &&& step.effect.events == seq![
                AgentDomainEventView::MessageComplete {
                    message: response.message,
                    usage: response.usage,
                },
                AgentDomainEventView::RunAborted { at_ms: now },
                AgentDomainEventView::StepFailed { reason: StepFailureView::Provider(error) },
                AgentDomainEventView::RunEnded {
                    reason: RunEndView::Failed { error, recoverable: false, terminal: false },
                    at_ms: now,
                },
            ]
        }),
{
    law_a_message_calls_what_its_parts_call(response.message.parts);
    let events = turn::responding(Some(flight), run, state, params, response, now).effect.events;
    assert(events.len() == 4);
}

/// A message with tool calls is judged by how alike the newest batches are,
/// this one among them, looking back over five at most. Five alike fail the
/// turn and name the first tool; three or four alike answer every call with
/// the same advice, as a result that is no error; anything else is only
/// written down, and the calls are left to be made.
pub proof fn law_a_repeating_turn_is_advised_and_stopped(
    flight: TurnFlightView,
    run: StepRunView,
    state: AgentStateView,
    params: AgentParamsView,
    response: StepResponseView,
    recent: Seq<Seq<char>>,
    now: u64,
)
    requires
        turn::tool_calls(response.message.parts).len() > 0,
        flight.fingerprints.len() <= 5,
        recent == (if flight.fingerprints.len() == 5 {
            flight.fingerprints.drop_first()
        } else {
            flight.fingerprints
        }),
    ensures
        ({
            let calls = turn::tool_calls(response.message.parts);
            let alike = forall|i: int|
                0 <= i < recent.len() ==> #[trigger] recent[i] == response.fingerprint;
            let seen = recent.len() + 1;
            let step = turn::responding(Some(flight), run, state, params, response, now);
            let error = "stuck in loop: tool '"@ + calls[0].name + "' called identically 5 times"@;
            &&& step.run == run
            &&& seen == 5 && alike ==> step.flight is None && step.effect.events.len() == 4
                && step.effect.events[3] == (AgentDomainEventView::RunEnded {
                reason: RunEndView::Failed { error, recoverable: false, terminal: false },
                at_ms: now,
            })
            &&& !(seen == 5 && alike) ==> (step.flight matches Some(next)
                && next.fingerprints == recent.push(response.fingerprint))
            &&& !alike || seen < 3 ==> step.effect.events.len() == 1
            &&& 3 <= seen < 5 && alike ==> {
                &&& step.effect.events.len() == 1 + calls.len()
                &&& forall|i: int|
                    1 <= i <= calls.len() ==> (#[trigger] step.effect.events[i])
                        == (AgentDomainEventView::InputMessage {
                        message: MessageView::tool_result(
                            calls[i - 1].id,
                            "You have called this tool with identical arguments multiple times. Please try a different approach."@,
                            false,
                            seq![],
                            now,
                        ),
                    })
            }
        }),
{
    let print = response.fingerprint;
    let calls = turn::tool_calls(response.message.parts);
    let seen = turn::window(flight.fingerprints, print);
    assert(seen =~= recent.push(print));
    let alike = forall|i: int| 0 <= i < recent.len() ==> #[trigger] recent[i] == print;
    if alike {
        assert forall|i: int| 0 <= i < seen.len() implies #[trigger] seen[i] == print by {
            if i < recent.len() {
                assert(seen[i] == recent[i]);
            }
        }
        assert(turn::all_are(seen, print));
        let step = turn::responding(Some(flight), run, state, params, response, now);
        if seen.len() < 5 && seen.len() >= 3 {
            assert forall|i: int| 1 <= i <= calls.len() implies (#[trigger] step.effect.events[i])
                == turn::advice(calls, now)[i - 1] by {}
        }
    } else {
        let i = choose|i: int| 0 <= i < recent.len() && #[trigger] recent[i] != print;
        assert(seen[i] == recent[i]);
        assert(!turn::all_are(seen, print));
    }
}

/// A result that is owed and was not handed in: while something is queued the
/// queue goes on; while a timer or a worker is out the agent parks; otherwise
/// it is told twice at most, the second time with the tool forced, and the
/// third time the step fails.
pub proof fn law_a_missing_result_is_asked_for_twice(
    flight: TurnFlightView,
    run: StepRunView,
    state: AgentStateView,
    params: AgentParamsView,
    now: u64,
)
    requires
        params.requires_result,
        state.nudges() < u64::MAX,
    ensures
        ({
            let (effect, after) = turn::completing(state, run, params, now);
            let idle = state.offer() is None && state.timers().len() == 0 && carried_state::running(
                state.log,
            ).len() == 0;
            &&& state.offer() is Some ==> effect.events.len() == 0 && after == run
            &&& state.offer() is None && !idle ==> effect.snapshot && after == run
                && effect.events == seq![
                AgentDomainEventView::Parked { at_ms: now },
                AgentDomainEventView::RunEnded { reason: RunEndView::Parked, at_ms: now },
            ]
            &&& idle && state.nudges() < 2 ==> {
                &&& effect.events.len() == 2
                &&& effect.events[0] == (AgentDomainEventView::Received {
                    item: IncomingView::User {
                        id: "nudge-result:"@ + text::decimal(state.nudges()),
                        text: RESULT_NUDGE@,
                        artifacts: seq![],
                    },
                    at_ms: now,
                })
                &&& effect.events[1] == (AgentDomainEventView::Nudged { at_ms: now })
            }
            &&& idle && state.nudges() == 0 ==> after == run
            &&& idle && state.nudges() == 1 ==> after == (StepRunView {
                pending_tool_choice: Some(ToolChoiceView::Required("submit_result"@)),
                ..run
            })
            &&& idle && state.nudges() >= 2 ==> after == run && effect.events == seq![
                AgentDomainEventView::RunEnded {
                    reason: RunEndView::Failed {
                        error: "the step ended "@ + text::decimal(state.nudges() + 1)
                            + " turns without calling `submit_result`, and nothing would wake it"@,
                        recoverable: false,
                        terminal: false,
                    },
                    at_ms: now,
                },
            ]
        }),
{
}

/// An agent that owes nothing ends its turn quietly, unless it is to park on
/// what is outstanding: then it parks exactly when nothing is queued and a
/// timer or a worker is out.
pub proof fn law_an_agent_parks_on_what_is_outstanding(
    run: StepRunView,
    state: AgentStateView,
    params: AgentParamsView,
    now: u64,
)
    requires
        !params.requires_result,
    ensures
        ({
            let (effect, after) = turn::completing(state, run, params, now);
            let waits = params.park_on_outstanding_work && state.offer() is None && (
            state.timers().len() > 0 || carried_state::running(state.log).len() > 0);
            &&& after == run
            &&& waits ==> effect.snapshot && effect.events == seq![
                AgentDomainEventView::Parked { at_ms: now },
                AgentDomainEventView::RunEnded { reason: RunEndView::Parked, at_ms: now },
            ]
            &&& !waits ==> effect.events.len() == 0 && !effect.snapshot
        }),
{
}

/// The tools that ended a run mean one thing: questions alone are a park on
/// all of them, one result alone is the output and names its call, no call at
/// all is an empty output, and everything else contradicts itself.
pub proof fn law_what_ended_a_run_is_read_off_its_tools(calls: Seq<StoppedCallView>)
    ensures
        ({
            let questions = forall|i: int|
                0 <= i < calls.len() ==> (#[trigger] calls[i]).tool == "ask_user"@;
            let result = calls.len() == 1 && calls[0].tool == "submit_result"@;
            &&& calls.len() == 0 ==> turn::interpreted(calls) == ConclusionView::Output(
                JsonView::Null,
                None,
            )
            &&& calls.len() > 0 && questions ==> (turn::interpreted(calls) matches ConclusionView::Ask(
                asks,
            ) && asks.len() == calls.len() && forall|i: int|
                0 <= i < calls.len() ==> {
                    &&& (#[trigger] asks[i]).tool_call_id == Some(calls[i].tool_call_id)
                    &&& asks[i].question == (match calls[i].input.get("question"@) {
                        Some(JsonView::String(text)) => text,
                        _ => seq![],
                    })
                    &&& asks[i].multiple == (calls[i].input.get("multiple"@) == Some(
                        JsonView::Bool(true),
                    ))
                    &&& asks[i].choices == (match calls[i].input.get("choices"@) {
                        Some(JsonView::Array(items)) => crate::json::strings_among(items),
                        _ => seq![],
                    })
                })
            &&& result ==> turn::interpreted(calls) == ConclusionView::Output(
                calls[0].input,
                Some(calls[0].tool_call_id),
            )
            &&& calls.len() > 0 && !questions && !result ==> turn::interpreted(calls)
                == ConclusionView::Contradiction(calls)
        }),
{
    reveal_strlit("ask_user");
    reveal_strlit("submit_result");
    if calls.len() == 1 && calls[0].tool == "submit_result"@ {
        assert("ask_user"@.len() != "submit_result"@.len());
        assert(calls[0].tool != "ask_user"@);
    }
}

/// What each ending writes, on the state the turn's records leave: a park
/// records what was asked and snapshots; a result is answered, and every timer
/// is dropped; a contradiction answers each call with the same error, counts a
/// correction, and goes on while fewer than two were made.
pub proof fn law_each_ending_writes_what_it_means(
    state: AgentStateView,
    calls: Seq<StoppedCallView>,
    now: u64,
)
    requires
        state.nudges() < u64::MAX,
    ensures
        ({
            let effect = turn::stopping(state, calls, now);
            &&& turn::interpreted(calls) matches ConclusionView::Ask(asks) ==> effect.snapshot
                && effect.events == seq![
                AgentDomainEventView::AskRecorded { asks, at_ms: now },
                AgentDomainEventView::RunEnded {
                    reason: RunEndView::AwaitingInput { asks },
                    at_ms: now,
                },
            ]
            &&& turn::interpreted(calls) matches ConclusionView::Output(_, Some(id)) ==> {
                &&& !effect.snapshot
                &&& effect.events.len() == (if state.timers().len() > 0 {
                    2int
                } else {
                    1
                })
                &&& effect.events[0] == (AgentDomainEventView::ToolComplete {
                    tool_call_id: id,
                    output: "result submitted"@,
                    is_error: false,
                    artifacts: seq![],
                    at_ms: now,
                })
            }
            &&& turn::interpreted(calls) matches ConclusionView::Contradiction(_) ==> {
                let said =
                    "You ended your turn with more than one finishing tool ("@ + text::joined(
                    calls.map_values(|c: StoppedCallView| c.tool),
                    ", "@,
                ) + "). Do one thing: either ask the user, or submit this step's result."@;
                &&& !effect.snapshot
                &&& effect.events.len() == calls.len() + (if state.nudges() < 2 {
                    2int
                } else {
                    1
                })
                &&& forall|i: int|
                    0 <= i < calls.len() ==> (#[trigger] effect.events[i])
                        == (AgentDomainEventView::ToolComplete {
                        tool_call_id: calls[i].tool_call_id,
                        output: said,
                        is_error: true,
                        artifacts: seq![],
                        at_ms: now,
                    })
                &&& effect.events[calls.len() as int] == (AgentDomainEventView::Nudged {
                    at_ms: now,
                })
                &&& state.nudges() < 2 ==> effect.events.last() == (
                AgentDomainEventView::Received {
                    item: IncomingView::Continue {
                        id: "contradiction:"@ + text::decimal(state.nudges() + 1),
                        reason: said,
                    },
                    at_ms: now,
                })
            }
        }),
{
}

/// A batch that ends a run writes what its other calls came back with first,
/// in order, then the end of the run with the calls it counted, and then what
/// the ending means.
pub proof fn law_a_batch_is_written_before_its_ending(
    flight: Option<TurnFlightView>,
    events: Seq<AgentDomainEventView>,
    calls: Seq<StoppedCallView>,
    state: AgentStateView,
    now: u64,
)
    ensures
        ({
            let effect = turn::batch_ended(flight, events, calls, state, now);
            &&& effect.events.len() >= events.len() + 1
            &&& effect.events.take(events.len() as int) == events
            &&& effect.events[events.len() as int] == (AgentDomainEventView::RunComplete {
                iterations: match flight {
                    Some(flight) => flight.iteration,
                    None => 0,
                },
                at_ms: now,
            })
            &&& turn::interpreted(calls) is Ask ==> effect.snapshot
        }),
{
    let effect = turn::batch_ended(flight, events, calls, state, now);
    assert(effect.events.take(events.len() as int) =~= events);
}

/// A cancelled turn repairs every call it left dangling, in order, keeps what
/// the model had written when that is more than white space, and ends as
/// cancelled, with a snapshot behind it.
pub proof fn law_a_cancelled_turn_keeps_what_was_written(
    run: StepRunView,
    repairs: Seq<MessageView>,
    message_id: Seq<char>,
    now: u64,
)
    ensures
        ({
            let effect = turn::cancelling(run, repairs, message_id, now);
            let text = text::joined(run.deltas, ""@);
            let n = effect.events.len();
            &&& effect.snapshot
            &&& n == repairs.len() + (if text::trimmed(text).len() > 0 {
                3int
            } else {
                2
            })
            &&& forall|i: int|
                0 <= i < repairs.len() ==> (#[trigger] effect.events[i])
                    == (AgentDomainEventView::InputMessage { message: repairs[i] })
            &&& text::trimmed(text).len() > 0 ==> effect.events[repairs.len() as int]
                == (AgentDomainEventView::MessageAborted {
                message: MessageView::assistant_text(message_id, text, now),
            })
            &&& effect.events[n - 2] == (AgentDomainEventView::RunCancelled { at_ms: now })
            &&& effect.events[n - 1] == (AgentDomainEventView::RunEnded {
                reason: RunEndView::Cancelled,
                at_ms: now,
            })
        }),
{
}

/// An ending is concluded as what it was: text as a finished turn, stopped
/// calls as what they mean, a cancel as a cancel, and a failure in its own
/// words with its own kind.
pub proof fn law_an_ending_is_concluded_as_what_it_was(
    state: AgentStateView,
    run: StepRunView,
    params: AgentParamsView,
    calls: Seq<StoppedCallView>,
    repairs: Seq<MessageView>,
    message_id: Seq<char>,
    error: Seq<char>,
    recoverable: bool,
    now: u64,
)
    ensures
        turn::concluding(
            RunOutcomeView::Completed,
            state,
            run,
            params,
            repairs,
            message_id,
            now,
        ) == turn::completing(state, run, params, now),
        turn::concluding(
            RunOutcomeView::Stopped { calls },
            state,
            run,
            params,
            repairs,
            message_id,
            now,
        ) == (turn::stopping(state, calls, now), run),
        turn::concluding(
            RunOutcomeView::Cancelled,
            state,
            run,
            params,
            repairs,
            message_id,
            now,
        ) == (turn::cancelling(run, repairs, message_id, now), run),
        ({
            let (effect, after) = turn::concluding(
                RunOutcomeView::Failed { error, recoverable },
                state,
                run,
                params,
                repairs,
                message_id,
                now,
            );
            &&& after == run
            &&& effect.events == seq![
                AgentDomainEventView::StepFailed { reason: StepFailureView::Provider(error) },
                AgentDomainEventView::RunEnded {
                    reason: RunEndView::Failed { error, recoverable, terminal: false },
                    at_ms: now,
                },
            ]
        }),
{
}

/// A message's calls are read part by part, in order; what is no call is left
/// out.
pub proof fn law_calls_are_read_part_by_part(
    a: Seq<ContentPartView>,
    b: Seq<ContentPartView>,
    part: ContentPartView,
)
    ensures
        turn::tool_calls(a + b) == turn::tool_calls(a) + turn::tool_calls(b),
        part matches ContentPartView::ToolUse(call) ==> turn::tool_calls(seq![part]) == seq![call],
        !(part is ToolUse) ==> turn::tool_calls(seq![part]).len() == 0,
{
    crate::lists::law_a_list_is_filtered_item_by_item(
        a,
        b,
        part,
        |p: ContentPartView| crate::components::turn::as_call(p),
    );
}

/// A turn that ends in plain text writes that it completed and then whatever
/// its completion comes to, as the state stood.
pub proof fn law_plain_text_completes_the_turn(
    flight: TurnFlightView,
    run: StepRunView,
    state: AgentStateView,
    params: AgentParamsView,
    response: StepResponseView,
    now: u64,
)
    requires
        turn::tool_calls(response.message.parts).len() == 0,
        response.stop_reason != StopReason::MaxTokens,
    ensures
        ({
            let step = turn::responding(Some(flight), run, state, params, response, now);
            let (tail, after) = turn::completing(state, run, params, now);
            &&& step.effect.events.skip(2) == tail.events
            &&& step.effect.snapshot == tail.snapshot
            &&& step.run == after
            &&& step.call is None
        }),
{
    let step = turn::responding(Some(flight), run, state, params, response, now);
    assert(step.effect.events.skip(2) =~= turn::completing(state, run, params, now).0.events);
}

/// What a batch's ending writes is decided on the state as the batch left it.
pub proof fn law_a_batchs_ending_is_read_after_the_batch(
    flight: TurnFlightView,
    events: Seq<AgentDomainEventView>,
    calls: Seq<StoppedCallView>,
    state: AgentStateView,
    now: u64,
)
    ensures
        ({
            let effect = turn::batch_ended(Some(flight), events, calls, state, now);
            let complete = AgentDomainEventView::RunComplete {
                iterations: flight.iteration,
                at_ms: now,
            };
            let tail = turn::stopping(components::applied_all(state, events.push(complete)), calls, now);
            &&& effect.events.skip(events.len() as int + 1) == tail.events
            &&& effect.snapshot == tail.snapshot
        }),
{
    let complete = AgentDomainEventView::RunComplete { iterations: flight.iteration, at_ms: now };
    assert(events + seq![complete] =~= events.push(complete));
    let effect = turn::batch_ended(Some(flight), events, calls, state, now);
    let tail = turn::stopping(components::applied_all(state, events.push(complete)), calls, now);
    assert(effect.events.skip(events.len() as int + 1) =~= tail.events);
}

/// A submitted result cancels the timers there are by their ids, all of them
/// and in order, and none when there is none.
pub proof fn law_a_submitted_result_cancels_each_timer_by_its_id(
    state: AgentStateView,
    id: Seq<char>,
    now: u64,
)
    ensures
        ({
            let events = turn::submitting(state, Some(id), now);
            &&& state.timers().len() == 0 ==> events.len() == 1
            &&& state.timers().len() > 0 ==> events.len() == 2 && (events[1] matches
                AgentDomainEventView::TimerCancelled { ids, at_ms } && at_ms == now && ids.len()
                == state.timers().len() && forall|i: int|
                0 <= i < ids.len() ==> (#[trigger] ids[i]) == state.timers()[i].id)
        }),
{
}

/// What the model streams in the open step is kept piece by piece, and nothing
/// else changes; what is streamed for any other step is dropped. Progress is
/// written as it comes.
pub proof fn law_what_is_streamed_is_kept(
    flight: Option<TurnFlightView>,
    run: StepRunView,
    state: AgentStateView,
    params: AgentParamsView,
    marker_seq: u64,
    text: String,
    events: Vec<AgentDomainEvent>,
    now: u64,
)
    ensures
        ({
            let step = turn::commanded(
                flight,
                run,
                state,
                params,
                RunCommand::StreamDelta { marker_seq, text },
                now,
            );
            let live = state.open_step() == Some((marker_seq, StepKindView::Agent))
                && run.marker_seq == Some(marker_seq);
            let written = turn::commanded(
                flight,
                run,
                state,
                params,
                RunCommand::PersistProgress { events },
                now,
            );
            &&& step.flight == flight && step.call is None && step.effect.events.len() == 0
            &&& live ==> step.run == (StepRunView { deltas: run.deltas.push(text@), ..run })
            &&& !live ==> step.run == run
            &&& written.effect.events == events.deep_view() && written.run == run
                && written.flight == flight && written.call is None
        }),
{
}

/// A report of the open step frees its slot and is then handled as what it is:
/// an answer or a failure.
pub proof fn law_a_report_is_handled_as_what_it_is(
    flight: Option<TurnFlightView>,
    run: StepRunView,
    state: AgentStateView,
    params: AgentParamsView,
    marker_seq: u64,
    response: Box<StepResponse>,
    error: LlmFailure,
    now: u64,
)
    requires
        state.open_step() == Some((marker_seq, StepKindView::Agent)),
        run.marker_seq == Some(marker_seq),
    ensures
        turn::commanded(flight, run, state, params, RunCommand::StepDone { marker_seq, response }, now)
            == turn::responding(
            flight,
            StepRunView { running: None, ..run },
            state,
            params,
            (*response).deep_view(),
            now,
        ),
        turn::commanded(flight, run, state, params, RunCommand::StepFailed { marker_seq, error }, now)
            == turn::retrying(
            flight,
            StepRunView { running: None, ..run },
            state,
            params,
            error.deep_view(),
            now,
        ),
{
}

} // verus!
