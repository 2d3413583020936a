//! The runtime and context setup every kind of work shares.
//!
//! The work crosses a process boundary and runs off the mailbox. What it
//! produces is published to the shared run, where a turn, a compaction and a
//! summary all read the same one. Nobody asks for this: it is started when what
//! it prepares is stale, and the work that follows never learns it happened.

use crate::commands::{ProvidedOutcome, ProvisionCommand};
use crate::component::{
    CommandEffect, CommandEffectView, StepPhase, StepRun, StepRunView, TurnCtx, TurnCtxView,
};
use crate::components;
use crate::context::{self, ContextError, ContextErrorView, Contexts, ContextsView, FilteredToolbox};
use crate::events::{
    AgentDomainEvent, AgentDomainEventView, AgentHistoryEntryView, RunEnd, RunEndView,
    StepFailure, StepFailureView, StepKind, StepKindView, SystemPromptSource,
};
use crate::lists;
use crate::mcp_toolbox::{self, CompositeToolbox};
use crate::model::{CompactionBudget, CompactionBudgetView, ToolSpec, ToolSpecView};
use crate::params::{AgentParams, AgentParamsView};
use crate::state::{self, AgentState, AgentStateView};
use crate::text::Dup;
use vstd::prelude::*;

verus! {

/// What share of a window starts a compaction, and what share one keeps.
#[derive(Debug, PartialEq, Eq)]
pub struct CompactionShares {
    pub trigger_at_percent: u32,
    pub retain_percent: u32,
}

/// What a [`CompactionShares`] stands for.
#[verifier::ext_equal]
pub struct CompactionSharesView {
    pub trigger_at_percent: u32,
    pub retain_percent: u32,
}

impl DeepView for CompactionShares {
    type V = CompactionSharesView;

    open spec fn deep_view(&self) -> CompactionSharesView {
        CompactionSharesView {
            trigger_at_percent: self.trigger_at_percent.deep_view(),
            retain_percent: self.retain_percent.deep_view(),
        }
    }
}

impl Dup for CompactionShares {
    fn dup(&self) -> (out: Self) {
        CompactionShares {
            trigger_at_percent: self.trigger_at_percent.dup(),
            retain_percent: self.retain_percent.dup(),
        }
    }
}

impl Clone for CompactionShares {
    fn clone(&self) -> (out: Self)
        ensures
            out.deep_view() == self.deep_view(),
    {
        self.dup()
    }
}

/// The names this agent's selection resolved to, those a further narrowing
/// did, and every name a selection could have known.
#[derive(Debug, PartialEq, Eq)]
pub struct Selections {
    pub allowed: Vec<String>,
    pub narrowed: Option<Vec<String>>,
    pub governed: Vec<String>,
}

/// What a [`Selections`] stands for.
#[verifier::ext_equal]
pub struct SelectionsView {
    pub allowed: Seq<Seq<char>>,
    pub narrowed: Option<Seq<Seq<char>>>,
    pub governed: Seq<Seq<char>>,
}

impl DeepView for Selections {
    type V = SelectionsView;

    open spec fn deep_view(&self) -> SelectionsView {
        SelectionsView {
            allowed: self.allowed.deep_view(),
            narrowed: self.narrowed.deep_view(),
            governed: self.governed.deep_view(),
        }
    }
}

impl Dup for Selections {
    fn dup(&self) -> (out: Self) {
        Selections {
            allowed: self.allowed.dup(),
            narrowed: self.narrowed.dup(),
            governed: self.governed.dup(),
        }
    }
}

impl Clone for Selections {
    fn clone(&self) -> (out: Self)
        ensures
            out.deep_view() == self.deep_view(),
    {
        self.dup()
    }
}

/// What is left of the tools once every selection has been applied: the
/// component tools join before the filter and ahead of the runtime's, so a
/// selection reaches them and they win a name.
pub open spec fn selected_specs(
    vended: Seq<Seq<ToolSpecView>>,
    toolbox: Seq<ToolSpecView>,
    selections: SelectionsView,
) -> Seq<ToolSpecView> {
    let composed = mcp_toolbox::first_of_each(mcp_toolbox::flattened(vended.push(toolbox)));
    let chosen = context::filtered(composed, selections.allowed, selections.governed);
    match selections.narrowed {
        Some(narrowed) => context::filtered(chosen, narrowed, selections.governed),
        None => chosen,
    }
}

/// What a run is prepared with.
pub open spec fn assembled(
    vended: Seq<Seq<ToolSpecView>>,
    contexts: ContextsView,
    selections: SelectionsView,
    params: AgentParamsView,
    shares: CompactionSharesView,
    conversation_id: Seq<char>,
) -> TurnCtxView {
    TurnCtxView {
        specs: selected_specs(vended, contexts.toolbox, selections),
        system_prompt: match contexts.system_prompt {
            Some(prompt) => prompt,
            None => match params.system_prompt {
                Some(prompt) => prompt,
                None => seq![],
            },
        },
        budget: match contexts.context_window {
            Some(context_window) => Some(
                CompactionBudgetView {
                    context_window,
                    trigger_at_percent: shares.trigger_at_percent,
                    retain_percent: shares.retain_percent,
                },
            ),
            None => None,
        },
        conversation_id,
        thinking_effort: params.thinking_effort,
    }
}

/// Whether this is the setup the open step is doing.
pub open spec fn setup_is_open(state: AgentStateView, marker_seq: u64, initializing: bool) -> bool {
    state.open_step() == Some(
        (
            marker_seq,
            if initializing {
                StepKindView::Initialize
            } else {
                StepKindView::Connect
            },
        ),
    )
}

/// What a setup that succeeded writes.
pub open spec fn setup_events(initializing: bool, system_prompt: Seq<char>) -> Seq<
    AgentDomainEventView,
> {
    if !initializing {
        seq![AgentDomainEventView::ConnectionCompleted]
    } else if system_prompt.len() == 0 {
        seq![AgentDomainEventView::AgentInitialized]
    } else {
        seq![
            AgentDomainEventView::SystemPromptRecorded {
                source: SystemPromptSource::InitialContext,
                content: system_prompt,
            },
            AgentDomainEventView::AgentInitialized,
        ]
    }
}

/// What a setup that failed writes.
pub open spec fn setup_failure(error: ContextErrorView, now: u64) -> Seq<AgentDomainEventView> {
    seq![
        AgentDomainEventView::StepFailed { reason: StepFailureView::Provider(error.message) },
        AgentDomainEventView::RunEnded {
            reason: RunEndView::Failed {
                error: error.message,
                recoverable: true,
                terminal: error.terminal,
            },
            at_ms: now,
        },
    ]
}

/// What a setup that reported back comes to. One that only reconnected keeps
/// the prompt the agent was initialized with.
pub open spec fn provisioned(
    state: AgentStateView,
    run: StepRunView,
    marker_seq: u64,
    initializing: bool,
    outcome: Result<TurnCtxView, ContextErrorView>,
    now: u64,
) -> (CommandEffectView, StepRunView) {
    if !setup_is_open(state, marker_seq, initializing) {
        (CommandEffectView::none(), run)
    } else if !run.live(marker_seq) {
        (CommandEffectView::none(), run)
    } else {
        let run = run.settled(marker_seq);
        match outcome {
            Ok(ctx) => {
                let ctx = if initializing {
                    ctx
                } else {
                    TurnCtxView { system_prompt: state.system_prompt(), ..ctx }
                };
                (
                    CommandEffectView::persist(setup_events(initializing, ctx.system_prompt)),
                    StepRunView { ctx: Some(ctx), ctx_stale: false, ..run },
                )
            },
            Err(error) => (CommandEffectView::persist(setup_failure(error, now)), run),
        }
    }
}

/// What a setup's outcome stands for.
pub open spec fn outcome_view(outcome: Result<TurnCtx, ContextError>) -> Result<
    TurnCtxView,
    ContextErrorView,
> {
    match outcome {
        Ok(ctx) => Ok(ctx.deep_view()),
        Err(error) => Err(error.deep_view()),
    }
}

/// What a reported outcome stands for.
pub open spec fn boxed_outcome(outcome: Result<Box<TurnCtx>, ContextError>) -> Result<
    TurnCtxView,
    ContextErrorView,
> {
    match outcome {
        Ok(ctx) => Ok((*ctx).deep_view()),
        Err(error) => Err(error.deep_view()),
    }
}

/// The runtime and context setup every kind of work shares.
#[derive(Debug, PartialEq, Eq)]
pub struct Provision;

impl Provision {
    /// Claim the slot for a setup. The generation handed back is what the work
    /// is cancelled by.
    pub fn start(step_run: &mut StepRun, marker_seq: u64, initializing: bool) -> (r: u64)
        ensures
            r == old(step_run).generation,
            final(step_run).deep_view() == old(step_run).deep_view().begun(
                if initializing {
                    StepPhase::Initialize
                } else {
                    StepPhase::Connect
                },
                marker_seq,
            ),
    {
        let phase = if initializing {
            StepPhase::Initialize
        } else {
            StepPhase::Connect
        };
        step_run.begin(phase, marker_seq)
    }

    /// Put together what a run is prepared with. `vended` is what every
    /// component's own toolbox advertises.
    pub fn assemble(
        vended: Vec<Vec<ToolSpec>>,
        contexts: Contexts,
        selections: Selections,
        params: &AgentParams,
        shares: &CompactionShares,
        conversation_id: String,
    ) -> (r: TurnCtx)
        ensures
            r.deep_view() == assembled(
                vended.deep_view(),
                contexts.deep_view(),
                selections.deep_view(),
                params.deep_view(),
                shares.deep_view(),
                conversation_id@,
            ),
    {
        let mut boxes = vended;
        let ghost had = boxes.deep_view();
        let ghost own = contexts.toolbox.deep_view();
        boxes.push(contexts.toolbox);
        proof {
            assert(boxes.deep_view() =~= had.push(own));
        }
        let composed = CompositeToolbox::new(boxes).specs();
        let governed = selections.governed.dup();
        let chosen = FilteredToolbox::new(composed, selections.allowed, selections.governed).specs();
        let specs = match selections.narrowed {
            Some(narrowed) => FilteredToolbox::new(chosen, narrowed, governed).specs(),
            None => chosen,
        };
        let system_prompt = match contexts.system_prompt {
            Some(prompt) => prompt,
            None => match &params.system_prompt {
                Some(prompt) => prompt.clone(),
                None => String::new(),
            },
        };
        let budget = match contexts.context_window {
            Some(context_window) => Some(
                CompactionBudget {
                    context_window,
                    trigger_at_percent: shares.trigger_at_percent,
                    retain_percent: shares.retain_percent,
                },
            ),
            None => None,
        };
        TurnCtx {
            specs,
            system_prompt,
            budget,
            conversation_id,
            thinking_effort: params.thinking_effort,
        }
    }

    /// Decide what a setup command means.
    pub fn handle(cmd: ProvisionCommand, state: &AgentState, step_run: &mut StepRun, now: u64) -> (r:
        CommandEffect)
        ensures
            match cmd {
                ProvisionCommand::Provided(done) => (r.deep_view(), final(step_run).deep_view())
                    == provisioned(
                    state.deep_view(),
                    old(step_run).deep_view(),
                    (*done).marker_seq,
                    (*done).initializing,
                    boxed_outcome((*done).outcome),
                    now,
                ),
            },
    {
        let ProvisionCommand::Provided(done) = cmd;
        let ProvidedOutcome { marker_seq, initializing, outcome } = *done;
        let outcome = match outcome {
            Ok(ctx) => Ok(*ctx),
            Err(error) => Err(error),
        };
        Provision::provided(state, step_run, marker_seq, initializing, outcome, now)
    }

    /// A setup reported back. Dropped when it is not the one the open step is
    /// doing, or when the step was stopped.
    pub fn provided(
        state: &AgentState,
        step_run: &mut StepRun,
        marker_seq: u64,
        initializing: bool,
        outcome: Result<TurnCtx, ContextError>,
        now: u64,
    ) -> (r: CommandEffect)
        ensures
            (r.deep_view(), final(step_run).deep_view()) == provisioned(
                state.deep_view(),
                old(step_run).deep_view(),
                marker_seq,
                initializing,
                outcome_view(outcome),
                now,
            ),
    {
        let open = match state.open_step() {
            Some((seq, StepKind::Initialize)) => initializing && seq == marker_seq,
            Some((seq, StepKind::Connect)) => !initializing && seq == marker_seq,
            _ => false,
        };
        if !open || !step_run.finished(marker_seq) {
            return CommandEffect::none();
        }
        let mut events: Vec<AgentDomainEvent> = Vec::new();
        match outcome {
            Ok(ctx) => {
                let mut ctx = ctx;
                if initializing {
                    let initialized = AgentDomainEvent::AgentInitialized;
                    if !ctx.system_prompt.as_str().is_empty() {
                        let recorded = AgentDomainEvent::SystemPromptRecorded {
                            source: SystemPromptSource::InitialContext,
                            content: ctx.system_prompt.clone(),
                        };
                        let ghost first = recorded.deep_view();
                        events.push(recorded);
                        events.push(initialized);
                        proof {
                            assert(events.deep_view() =~= seq![first, initialized.deep_view()]);
                        }
                    } else {
                        events.push(initialized);
                        proof {
                            assert(events.deep_view() =~= seq![initialized.deep_view()]);
                        }
                    }
                } else {
                    ctx.system_prompt = state.system_prompt();
                    let connected = AgentDomainEvent::ConnectionCompleted;
                    events.push(connected);
                    proof {
                        assert(events.deep_view() =~= seq![connected.deep_view()]);
                    }
                }
                step_run.ctx = Some(ctx);
                step_run.ctx_stale = false;
                CommandEffect::persist(events)
            },
            Err(error) => {
                let failed = AgentDomainEvent::StepFailed {
                    reason: StepFailure::Provider(error.message.clone()),
                };
                let ended = AgentDomainEvent::RunEnded {
                    reason: RunEnd::Failed {
                        error: error.message,
                        recoverable: true,
                        terminal: error.terminal,
                    },
                    at_ms: now,
                };
                events.push(failed);
                events.push(ended);
                proof {
                    assert(events.deep_view() =~= seq![failed.deep_view(), ended.deep_view()]);
                }
                CommandEffect::persist(events)
            },
        }
    }
}

/// The prompt an agent was initialized with is the one every later connection
/// uses, whatever the connection itself would have composed.
pub proof fn law_a_connection_keeps_the_prompt(
    state: AgentStateView,
    run: StepRunView,
    marker_seq: u64,
    ctx: TurnCtxView,
    now: u64,
)
    requires
        setup_is_open(state, marker_seq, false),
        run.live(marker_seq),
    ensures
        provisioned(state, run, marker_seq, false, Ok(ctx), now).1.ctx matches Some(kept)
            && kept.system_prompt == state.system_prompt(),
{
}

/// A prompt that was recorded is the one read back.
pub proof fn law_the_recorded_prompt_is_read_back(state: AgentStateView, prompt: Seq<char>)
    requires
        prompt.len() > 0,
    ensures
        components::applied_all(state, setup_events(true, prompt)).system_prompt() == prompt,
{
    let events = setup_events(true, prompt);
    components::lemma_two_events(state, events);
    let read = |e: AgentHistoryEntryView| state::recorded_prompt(e);
    let once = components::applied(state, events[0]);
    let after = components::applied(once, events[1]);
    assert(lists::find_last(once.history, read) == Some(prompt));
    assert(after.history.drop_last() =~= once.history);
    assert(lists::find_last(after.history, read) == lists::find_last(once.history, read));
}

/// A failed setup ends the step whether or not the agent can run again.
pub proof fn law_a_failed_setup_closes_its_step(
    state: AgentStateView,
    error: ContextErrorView,
    now: u64,
)
    ensures
        components::applied_all(state, setup_failure(error, now)).open_step() is None,
{
    components::lemma_two_events(state, setup_failure(error, now));
}

/// What a run is shown: every tool comes from a component or from the runtime,
/// and none is one that a selection could have known and the agent's own
/// leaves out, nor one that a further narrowing leaves out.
pub proof fn law_only_selected_tools_are_shown(
    vended: Seq<Seq<ToolSpecView>>,
    contexts: ContextsView,
    selections: SelectionsView,
    params: AgentParamsView,
    shares: CompactionSharesView,
    conversation_id: Seq<char>,
    spec: ToolSpecView,
)
    requires
        assembled(vended, contexts, selections, params, shares, conversation_id).specs.contains(
            spec,
        ),
    ensures
        selections.governed.contains(spec.name) ==> selections.allowed.contains(spec.name),
        selections.narrowed matches Some(narrowed) ==> (selections.governed.contains(spec.name)
            ==> narrowed.contains(spec.name)),
        contexts.toolbox.contains(spec) || exists|b: int|
            0 <= b < vended.len() && (#[trigger] vended[b]).contains(spec),
{
    let boxes = vended.push(contexts.toolbox);
    let all = mcp_toolbox::flattened(boxes);
    let composed = mcp_toolbox::first_of_each(all);
    let chosen = context::filtered(composed, selections.allowed, selections.governed);
    lemma_filtered_members(composed, selections.allowed, selections.governed);
    match selections.narrowed {
        Some(narrowed) => {
            lemma_filtered_members(chosen, narrowed, selections.governed);
        },
        None => {},
    }
    assert(composed.contains(spec));
    mcp_toolbox::law_the_first_of_a_name_is_shown(all);
    let i = choose|i: int|
        0 <= i < all.len() && (#[trigger] all[i]) == spec && !mcp_toolbox::advertises(
            all.take(i),
            spec.name,
        );
    assert(all.contains(spec));
    let b = lemma_found_in_a_box(boxes, spec);
    if b < vended.len() {
        assert(vended[b].contains(spec));
    }
}

/// A component's tool is shown when nothing of its name stands before it and
/// the selections let it through: components win a name over the runtime.
pub proof fn law_a_components_tool_is_shown(
    vended: Seq<Seq<ToolSpecView>>,
    contexts: ContextsView,
    selections: SelectionsView,
    params: AgentParamsView,
    shares: CompactionSharesView,
    conversation_id: Seq<char>,
    b: int,
    k: int,
)
    requires
        0 <= b < vended.len(),
        0 <= k < vended[b].len(),
        forall|i: int, j: int|
            0 <= i < b && 0 <= j < vended[i].len() ==> (#[trigger] vended[i][j]).name
                != vended[b][k].name,
        forall|j: int| 0 <= j < k ==> (#[trigger] vended[b][j]).name != vended[b][k].name,
        selections.governed.contains(vended[b][k].name) ==> selections.allowed.contains(
            vended[b][k].name,
        ) && (selections.narrowed matches Some(narrowed) ==> narrowed.contains(vended[b][k].name)),
    ensures
        assembled(vended, contexts, selections, params, shares, conversation_id).specs.contains(
            vended[b][k],
        ),
{
    let boxes = vended.push(contexts.toolbox);
    assert(boxes.drop_last() =~= vended);
    lemma_first_is_shown(boxes, selections, b, k);
}

/// A tool of the runtime is shown when no component has its name, nothing of
/// its name stands before it and the selections let it through.
pub proof fn law_the_runtimes_tool_is_shown(
    vended: Seq<Seq<ToolSpecView>>,
    contexts: ContextsView,
    selections: SelectionsView,
    params: AgentParamsView,
    shares: CompactionSharesView,
    conversation_id: Seq<char>,
    k: int,
)
    requires
        0 <= k < contexts.toolbox.len(),
        forall|i: int, j: int|
            0 <= i < vended.len() && 0 <= j < vended[i].len() ==> (#[trigger] vended[i][j]).name
                != contexts.toolbox[k].name,
        forall|j: int|
            0 <= j < k ==> (#[trigger] contexts.toolbox[j]).name != contexts.toolbox[k].name,
        selections.governed.contains(contexts.toolbox[k].name) ==> selections.allowed.contains(
            contexts.toolbox[k].name,
        ) && (selections.narrowed matches Some(narrowed) ==> narrowed.contains(
            contexts.toolbox[k].name,
        )),
    ensures
        assembled(vended, contexts, selections, params, shares, conversation_id).specs.contains(
            contexts.toolbox[k],
        ),
{
    let boxes = vended.push(contexts.toolbox);
    assert(boxes.drop_last() =~= vended);
    assert forall|i: int, j: int| 0 <= i < vended.len() && 0 <= j < boxes[i].len() implies (
    #[trigger] boxes[i][j]).name != contexts.toolbox[k].name by {
        assert(boxes[i] == vended[i]);
        assert(vended[i][j].name != contexts.toolbox[k].name);
    }
    lemma_first_is_shown(boxes, selections, vended.len() as int, k);
}

/// No name is shown twice to a run.
pub proof fn law_a_run_is_shown_no_name_twice(
    vended: Seq<Seq<ToolSpecView>>,
    toolbox: Seq<ToolSpecView>,
    selections: SelectionsView,
)
    ensures
        forall|i: int, j: int|
            0 <= i < j < selected_specs(vended, toolbox, selections).len() ==> (
            #[trigger] selected_specs(vended, toolbox, selections)[i]).name != (
            #[trigger] selected_specs(vended, toolbox, selections)[j]).name,
{
    let all = mcp_toolbox::flattened(vended.push(toolbox));
    let composed = mcp_toolbox::first_of_each(all);
    assert forall|i: int, j: int| 0 <= i < j < composed.len() implies (
    #[trigger] composed[i]).name != (#[trigger] composed[j]).name by {
        mcp_toolbox::law_no_name_is_advertised_twice(all, i, j);
    }
    lemma_filtered_keeps_names_apart(composed, selections.allowed, selections.governed);
    let chosen = context::filtered(composed, selections.allowed, selections.governed);
    if let Some(narrowed) = selections.narrowed {
        lemma_filtered_keeps_names_apart(chosen, narrowed, selections.governed);
    }
}

/// A selection that leaves tools out leaves their names apart.
proof fn lemma_filtered_keeps_names_apart(
    specs: Seq<ToolSpecView>,
    allowed: Seq<Seq<char>>,
    governed: Seq<Seq<char>>,
)
    requires
        forall|i: int, j: int|
            0 <= i < j < specs.len() ==> (#[trigger] specs[i]).name != (#[trigger] specs[j]).name,
    ensures
        forall|i: int, j: int|
            0 <= i < j < context::filtered(specs, allowed, governed).len() ==> (
            #[trigger] context::filtered(specs, allowed, governed)[i]).name != (
            #[trigger] context::filtered(specs, allowed, governed)[j]).name,
    decreases specs.len(),
{
    if specs.len() > 0 {
        let rest = specs.drop_last();
        lemma_filtered_keeps_names_apart(rest, allowed, governed);
        lemma_filtered_members(rest, allowed, governed);
        let kept = context::filtered(rest, allowed, governed);
        let out = context::filtered(specs, allowed, governed);
        assert forall|i: int, j: int| 0 <= i < j < out.len() implies (#[trigger] out[i]).name != (
        #[trigger] out[j]).name by {
            if j >= kept.len() {
                assert(out[i] == kept[i]);
                assert(kept.contains(kept[i]));
                let m = choose|m: int| 0 <= m < rest.len() && rest[m] == kept[i];
                assert(specs[m] == kept[i]);
                assert(specs[m].name != specs[specs.len() - 1].name);
            } else {
                assert(out[i] == kept[i] && out[j] == kept[j]);
            }
        }
    }
}

/// What a selection leaves, by membership.
proof fn lemma_filtered_members(
    specs: Seq<ToolSpecView>,
    allowed: Seq<Seq<char>>,
    governed: Seq<Seq<char>>,
)
    ensures
        forall|spec: ToolSpecView| #[trigger]
            context::filtered(specs, allowed, governed).contains(spec) <==> specs.contains(spec)
                && (governed.contains(spec.name) ==> allowed.contains(spec.name)),
{
    let keep = |s: ToolSpecView| context::let_through(allowed, governed, s);
    crate::lists::lemma_filter_map_members(specs, keep);
    assert forall|spec: ToolSpecView| #[trigger]
        context::filtered(specs, allowed, governed).contains(spec) <==> specs.contains(spec) && (
        governed.contains(spec.name) ==> allowed.contains(spec.name)) by {
        if specs.contains(spec) && (governed.contains(spec.name) ==> allowed.contains(spec.name)) {
            let i = choose|i: int| 0 <= i < specs.len() && specs[i] == spec;
            assert(keep(specs[i]) == Some(spec));
        }
        if context::filtered(specs, allowed, governed).contains(spec) {
            let i = choose|i: int|
                0 <= i < specs.len() && keep(#[trigger] specs[i]) == Some(spec);
            assert(specs[i] == spec);
        }
    }
}

/// What is laid end to end came out of a box.
proof fn lemma_found_in_a_box(boxes: Seq<Seq<ToolSpecView>>, spec: ToolSpecView) -> (b: int)
    requires
        mcp_toolbox::flattened(boxes).contains(spec),
    ensures
        0 <= b < boxes.len(),
        boxes[b].contains(spec),
    decreases boxes.len(),
{
    let all = mcp_toolbox::flattened(boxes);
    let i = choose|i: int| 0 <= i < all.len() && all[i] == spec;
    let rest = mcp_toolbox::flattened(boxes.drop_last());
    if i < rest.len() {
        assert(rest[i] == spec);
        lemma_found_in_a_box(boxes.drop_last(), spec)
    } else {
        assert(boxes.last()[i - rest.len()] == spec);
        boxes.len() - 1
    }
}

/// The first tool of a name, among boxes laid end to end, is shown when the
/// selections let it through.
proof fn lemma_first_is_shown(
    boxes: Seq<Seq<ToolSpecView>>,
    selections: SelectionsView,
    b: int,
    k: int,
)
    requires
        0 <= b < boxes.len(),
        0 <= k < boxes[b].len(),
        forall|i: int, j: int|
            0 <= i < b && 0 <= j < boxes[i].len() ==> (#[trigger] boxes[i][j]).name
                != boxes[b][k].name,
        forall|j: int| 0 <= j < k ==> (#[trigger] boxes[b][j]).name != boxes[b][k].name,
        selections.governed.contains(boxes[b][k].name) ==> selections.allowed.contains(
            boxes[b][k].name,
        ) && (selections.narrowed matches Some(narrowed) ==> narrowed.contains(boxes[b][k].name)),
    ensures
        selected_specs(boxes.drop_last(), boxes.last(), selections).contains(boxes[b][k]),
{
    let spec = boxes[b][k];
    let front = boxes.take(b);
    let one = seq![boxes[b]];
    let back = boxes.skip(b + 1);
    assert(boxes =~= front + one + back);
    assert(boxes.drop_last().push(boxes.last()) =~= boxes);
    mcp_toolbox::law_boxes_are_laid_end_to_end(front + one, back, boxes[b]);
    mcp_toolbox::law_boxes_are_laid_end_to_end(front, one, boxes[b]);
    let all = mcp_toolbox::flattened(boxes);
    let before = mcp_toolbox::flattened(front);
    let at = before.len() + k;
    assert(all[at] == spec);
    assert(!mcp_toolbox::advertises(all.take(at), spec.name)) by {
        if mcp_toolbox::advertises(all.take(at), spec.name) {
            let m = choose|m: int|
                0 <= m < all.take(at).len() && (#[trigger] all.take(at)[m]).name == spec.name;
            if m < before.len() {
                assert(before[m] == all[m]);
                assert(before.contains(before[m]));
                let a = lemma_found_in_a_box(front, before[m]);
                let j = choose|j: int| 0 <= j < front[a].len() && front[a][j] == before[m];
                assert(boxes[a][j].name != spec.name);
            } else {
                assert(all[m] == boxes[b][m - before.len()]);
                assert(boxes[b][m - before.len()].name != spec.name);
            }
        }
    }
    mcp_toolbox::law_the_first_of_a_name_is_shown(all);
    let composed = mcp_toolbox::first_of_each(all);
    assert(composed.contains(spec));
    lemma_filtered_members(composed, selections.allowed, selections.governed);
    let chosen = context::filtered(composed, selections.allowed, selections.governed);
    if let Some(narrowed) = selections.narrowed {
        lemma_filtered_members(chosen, narrowed, selections.governed);
    }
}

/// A run is prepared with the prompt its contexts compose; else with the one
/// that was configured; else with none. It may be compacted where the model's
/// window is known, by the shares it was given, and carries its conversation
/// and its effort through.
pub proof fn law_a_run_is_prepared_with_what_it_was_given(
    vended: Seq<Seq<ToolSpecView>>,
    contexts: ContextsView,
    selections: SelectionsView,
    params: AgentParamsView,
    shares: CompactionSharesView,
    conversation_id: Seq<char>,
)
    ensures
        ({
            let ctx = assembled(vended, contexts, selections, params, shares, conversation_id);
            &&& contexts.system_prompt matches Some(prompt) ==> ctx.system_prompt == prompt
            &&& contexts.system_prompt is None ==> (params.system_prompt matches Some(prompt)
                ==> ctx.system_prompt == prompt)
            &&& contexts.system_prompt is None && params.system_prompt is None
                ==> ctx.system_prompt.len() == 0
            &&& ctx.budget is Some <==> contexts.context_window is Some
            &&& ctx.budget matches Some(budget) ==> Some(budget.context_window)
                == contexts.context_window && budget.trigger_at_percent
                == shares.trigger_at_percent && budget.retain_percent == shares.retain_percent
            &&& ctx.conversation_id == conversation_id
            &&& ctx.thinking_effort == params.thinking_effort
        }),
{
}

/// A setup that succeeds for the open step is published and no longer stale,
/// and frees the slot. A first one records its prompt, when there is one, and
/// that the agent is initialized; a later one only that it is connected.
pub proof fn law_a_setup_that_succeeds_is_published(
    state: AgentStateView,
    run: StepRunView,
    marker_seq: u64,
    ctx: TurnCtxView,
    now: u64,
)
    requires
        run.marker_seq == Some(marker_seq),
    ensures
        state.open_step() == Some((marker_seq, StepKindView::Initialize)) ==> {
            let (effect, after) = provisioned(state, run, marker_seq, true, Ok(ctx), now);
            &&& after.ctx == Some(ctx)
            &&& !after.ctx_stale
            &&& after.running is None
            &&& after.marker_seq == run.marker_seq
            &&& after.generation == run.generation
            &&& after.pending_tool_choice == run.pending_tool_choice
            &&& effect.events.last() == AgentDomainEventView::AgentInitialized
            &&& ctx.system_prompt.len() == 0 ==> effect.events.len() == 1
            &&& ctx.system_prompt.len() > 0 ==> effect.events.len() == 2 && effect.events[0]
                == (AgentDomainEventView::SystemPromptRecorded {
                source: SystemPromptSource::InitialContext,
                content: ctx.system_prompt,
            })
        },
        state.open_step() == Some((marker_seq, StepKindView::Connect)) ==> {
            let (effect, after) = provisioned(state, run, marker_seq, false, Ok(ctx), now);
            &&& after.ctx matches Some(kept) && kept.specs == ctx.specs && kept.budget
                == ctx.budget && kept.conversation_id == ctx.conversation_id
                && kept.thinking_effort == ctx.thinking_effort && kept.system_prompt
                == state.system_prompt()
            &&& !after.ctx_stale
            &&& after.running is None
            &&& effect.events == seq![AgentDomainEventView::ConnectionCompleted]
        },
{
}

/// A setup that fails for the open step ends the run in its own words, as one
/// that can be tried again unless it is over for good, and prepares nothing.
pub proof fn law_a_setup_that_fails_ends_the_run(
    state: AgentStateView,
    run: StepRunView,
    marker_seq: u64,
    initializing: bool,
    error: ContextErrorView,
    now: u64,
)
    requires
        run.marker_seq == Some(marker_seq),
        state.open_step() == Some(
            (
                marker_seq,
                if initializing {
                    StepKindView::Initialize
                } else {
                    StepKindView::Connect
                },
            ),
        ),
    ensures
        ({
            let (effect, after) = provisioned(state, run, marker_seq, initializing, Err(error), now);
            &&& after.ctx == run.ctx
            &&& after.ctx_stale == run.ctx_stale
            &&& after.running is None
            &&& effect.events == seq![
                AgentDomainEventView::StepFailed {
                    reason: StepFailureView::Provider(error.message),
                },
                AgentDomainEventView::RunEnded {
                    reason: RunEndView::Failed {
                        error: error.message,
                        recoverable: true,
                        terminal: error.terminal,
                    },
                    at_ms: now,
                },
            ]
        }),
{
}

/// A setup's report means nothing once its step is over, or was stopped, or
/// when it is of the other kind.
pub proof fn law_a_stale_setup_changes_nothing(
    state: AgentStateView,
    run: StepRunView,
    marker_seq: u64,
    initializing: bool,
    outcome: Result<TurnCtxView, ContextErrorView>,
    now: u64,
)
    requires
        run.marker_seq != Some(marker_seq) || state.open_step() != Some(
            (
                marker_seq,
                if initializing {
                    StepKindView::Initialize
                } else {
                    StepKindView::Connect
                },
            ),
        ),
    ensures
        provisioned(state, run, marker_seq, initializing, outcome, now).1 == run,
        provisioned(state, run, marker_seq, initializing, outcome, now).0.events.len() == 0,
{
}

} // verus!
