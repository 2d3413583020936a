//! The turn: what one provider call says, and what an ending means.
//!
//! Nothing here decides when a call happens. What comes back from one is
//! journaled: an assistant message, or a turn that is over. Every report is
//! fenced by the open marker, so a cancelled turn's stragglers are dropped.
//!
//! The second half is the conclusion: what an ending means, which is decided
//! here because only the turn knows what would wake the agent again.

use crate::carried_state::{self, has_outstanding_children};
use crate::commands::RunCommand;
use crate::component::{CommandEffect, CommandEffectView, StepPhase, StepRun, StepRunView};
use crate::components::{self, AgentLoop};
use crate::components::queue::inbox::{Incoming, IncomingView};
use crate::components::seed::{self, input_events};
use crate::context::{AskedQuestion, AskedQuestionView};
use crate::events::{
    AgentDomainEvent, AgentDomainEventView, RunEnd, RunEndView, StepFailure, StepFailureView,
    StepKind, StepKindView,
};
use crate::json::{self, Json, JsonView};
use crate::lists;
use crate::model::{
    ArtifactRef, ContentPart, ContentPartView, Message, MessageView, StopReason, StoppedCall,
    StoppedCallView, ThinkingEffort, ToolChoice, ToolChoiceView, ToolSpec, ToolSpecView, ToolUse,
    ToolUseView, Usage, UsageView,
};
use crate::params::{AgentParams, AgentParamsView};
use crate::state::{AgentLogBody, AgentLogBodyView, AgentState, AgentStateView};
use crate::text::{self, Dup, join, number, same, trim};
use crate::timers;
use vstd::prelude::*;

pub mod laws;

verus! {

/// How many provider calls one turn may make when nothing else is configured.
pub const MAX_ITERATIONS: u32 = 100;

/// How many identical batches of tool calls in a row fail a turn.
pub const STUCK_THRESHOLD: usize = 5;

/// How many identical batches of tool calls in a row are answered with advice.
pub const NUDGE_THRESHOLD: usize = 3;

/// How many turns an agent that owes a result may end without one before the
/// step is failed.
pub const MAX_RESULT_NUDGES: u64 = 2;

/// The tool that asks a person.
pub const ASK_USER_TOOL: &'static str = "ask_user";

/// The tool that hands in a step's result.
pub const SUBMIT_RESULT_TOOL: &'static str = "submit_result";

/// What a repeated batch of tool calls is answered with.
pub const REPEATED_CALL_ADVICE: &'static str =
    "You have called this tool with identical arguments multiple times. Please try a different approach.";

/// What an agent that owes a result is told when its turn ends without one.
pub const RESULT_NUDGE: &'static str =
    "Your turn ended without calling `submit_result`, and nothing will wake you — you have no armed timers and no delegated work still running. If the step's work is done, call `submit_result` now. If it is not, carry on working.";

/// One turn's in-flight bookkeeping.
#[derive(Debug, PartialEq, Eq)]
pub struct TurnFlight {
    pub tool_choice: ToolChoice,
    /// Completed provider calls this turn.
    pub iteration: u32,
    /// Consecutive failed attempts at the current call.
    pub attempt: u32,
    /// What the newest batches of tool calls were, oldest first.
    pub fingerprints: Vec<String>,
}

/// What a [`TurnFlight`] stands for.
#[verifier::ext_equal]
pub struct TurnFlightView {
    pub tool_choice: ToolChoiceView,
    pub iteration: u32,
    pub attempt: u32,
    pub fingerprints: Seq<Seq<char>>,
}

impl DeepView for TurnFlight {
    type V = TurnFlightView;

    open spec fn deep_view(&self) -> TurnFlightView {
        TurnFlightView {
            tool_choice: self.tool_choice.deep_view(),
            iteration: self.iteration.deep_view(),
            attempt: self.attempt.deep_view(),
            fingerprints: self.fingerprints.deep_view(),
        }
    }
}

impl Dup for TurnFlight {
    fn dup(&self) -> (out: Self) {
        TurnFlight {
            tool_choice: self.tool_choice.dup(),
            iteration: self.iteration.dup(),
            attempt: self.attempt.dup(),
            fingerprints: self.fingerprints.dup(),
        }
    }
}

impl Clone for TurnFlight {
    fn clone(&self) -> (out: Self)
        ensures
            out.deep_view() == self.deep_view(),
    {
        self.dup()
    }
}

/// Process-local bookkeeping for provider steps. Durable run state is derived
/// from history; a crash reconstructs it rather than recovering this value.
#[derive(Debug, PartialEq, Eq)]
pub struct Turn {
    /// The turn in flight, if any.
    pub flight: Option<TurnFlight>,
}

/// What a [`Turn`] stands for.
#[verifier::ext_equal]
pub struct TurnView {
    pub flight: Option<TurnFlightView>,
}

impl DeepView for Turn {
    type V = TurnView;

    open spec fn deep_view(&self) -> TurnView {
        TurnView {
            flight: self.flight.deep_view(),
        }
    }
}

impl Dup for Turn {
    fn dup(&self) -> (out: Self) {
        Turn {
            flight: self.flight.dup(),
        }
    }
}

impl Clone for Turn {
    fn clone(&self) -> (out: Self)
        ensures
            out.deep_view() == self.deep_view(),
    {
        self.dup()
    }
}

/// How a turn ended.
#[derive(Debug, PartialEq, Eq)]
pub enum RunOutcome {
    /// The agent ended its turn with plain text.
    Completed,
    /// A tool ended the run. One call per stopper the model issued.
    Stopped { calls: Vec<StoppedCall> },
    Cancelled,
    Failed { error: String, recoverable: bool },
}

/// What a [`RunOutcome`] stands for.
#[verifier::ext_equal]
pub enum RunOutcomeView {
    Completed,
    Stopped { calls: Seq<StoppedCallView> },
    Cancelled,
    Failed { error: Seq<char>, recoverable: bool },
}

impl DeepView for RunOutcome {
    type V = RunOutcomeView;

    open spec fn deep_view(&self) -> RunOutcomeView {
        match self {
            RunOutcome::Completed => RunOutcomeView::Completed,
            RunOutcome::Stopped { calls } => RunOutcomeView::Stopped {
                calls: calls.deep_view(),
            },
            RunOutcome::Cancelled => RunOutcomeView::Cancelled,
            RunOutcome::Failed { error, recoverable } => RunOutcomeView::Failed {
                error: error.deep_view(),
                recoverable: recoverable.deep_view(),
            },
        }
    }
}

impl Dup for RunOutcome {
    fn dup(&self) -> (out: Self) {
        match self {
            RunOutcome::Completed => RunOutcome::Completed,
            RunOutcome::Stopped { calls } => RunOutcome::Stopped {
                calls: calls.dup(),
            },
            RunOutcome::Cancelled => RunOutcome::Cancelled,
            RunOutcome::Failed { error, recoverable } => RunOutcome::Failed {
                error: error.dup(),
                recoverable: recoverable.dup(),
            },
        }
    }
}

impl Clone for RunOutcome {
    fn clone(&self) -> (out: Self)
        ensures
            out.deep_view() == self.deep_view(),
    {
        self.dup()
    }
}

/// What a turn came to, as it is handed on to be interpreted.
#[derive(Debug, PartialEq, Eq)]
pub struct RunReport {
    pub outcome: RunOutcome,
}

/// What a [`RunReport`] stands for.
#[verifier::ext_equal]
pub struct RunReportView {
    pub outcome: RunOutcomeView,
}

impl DeepView for RunReport {
    type V = RunReportView;

    open spec fn deep_view(&self) -> RunReportView {
        RunReportView {
            outcome: self.outcome.deep_view(),
        }
    }
}

/// What the tools that ended a run meant.
#[derive(Debug, PartialEq, Eq)]
pub enum Conclusion {
    /// The step's result, and the call that carried it; no call when the run
    /// stopped with none at all.
    Output(Json, Option<String>),
    /// One or more questions, all parked on together.
    Ask(Vec<AskedQuestion>),
    /// Two turn-enders at once.
    Contradiction(Vec<StoppedCall>),
}

/// What a [`Conclusion`] stands for.
#[verifier::ext_equal]
pub enum ConclusionView {
    Output(JsonView, Option<Seq<char>>),
    Ask(Seq<AskedQuestionView>),
    Contradiction(Seq<StoppedCallView>),
}

impl DeepView for Conclusion {
    type V = ConclusionView;

    open spec fn deep_view(&self) -> ConclusionView {
        match self {
            Conclusion::Output(a, b) => ConclusionView::Output(a.deep_view(), b.deep_view()),
            Conclusion::Ask(a) => ConclusionView::Ask(a.deep_view()),
            Conclusion::Contradiction(a) => ConclusionView::Contradiction(a.deep_view()),
        }
    }
}

impl Dup for Conclusion {
    fn dup(&self) -> (out: Self) {
        match self {
            Conclusion::Output(a, b) => Conclusion::Output(a.dup(), b.dup()),
            Conclusion::Ask(a) => Conclusion::Ask(a.dup()),
            Conclusion::Contradiction(a) => Conclusion::Contradiction(a.dup()),
        }
    }
}

impl Clone for Conclusion {
    fn clone(&self) -> (out: Self)
        ensures
            out.deep_view() == self.deep_view(),
    {
        self.dup()
    }
}

/// What one provider call came back with. The fingerprint is that of its tool
/// calls.
#[derive(Debug, PartialEq, Eq)]
pub struct StepResponse {
    pub message: Message,
    pub fingerprint: String,
    pub stop_reason: StopReason,
    pub usage: Usage,
}

/// What a [`StepResponse`] stands for.
#[verifier::ext_equal]
pub struct StepResponseView {
    pub message: MessageView,
    pub fingerprint: Seq<char>,
    pub stop_reason: StopReason,
    pub usage: UsageView,
}

impl DeepView for StepResponse {
    type V = StepResponseView;

    open spec fn deep_view(&self) -> StepResponseView {
        StepResponseView {
            message: self.message.deep_view(),
            fingerprint: self.fingerprint.deep_view(),
            stop_reason: self.stop_reason.deep_view(),
            usage: self.usage.deep_view(),
        }
    }
}

/// Why a provider call failed.
#[derive(Debug, PartialEq, Eq)]
pub struct LlmFailure {
    pub error: String,
    /// Whether trying the same call again can succeed.
    pub transient: bool,
    /// How long the provider asked to be left alone.
    pub retry_after_ms: Option<u64>,
}

/// What a [`LlmFailure`] stands for.
#[verifier::ext_equal]
pub struct LlmFailureView {
    pub error: Seq<char>,
    pub transient: bool,
    pub retry_after_ms: Option<u64>,
}

impl DeepView for LlmFailure {
    type V = LlmFailureView;

    open spec fn deep_view(&self) -> LlmFailureView {
        LlmFailureView {
            error: self.error.deep_view(),
            transient: self.transient.deep_view(),
            retry_after_ms: self.retry_after_ms.deep_view(),
        }
    }
}

impl Dup for LlmFailure {
    fn dup(&self) -> (out: Self) {
        LlmFailure {
            error: self.error.dup(),
            transient: self.transient.dup(),
            retry_after_ms: self.retry_after_ms.dup(),
        }
    }
}

impl Clone for LlmFailure {
    fn clone(&self) -> (out: Self)
        ensures
            out.deep_view() == self.deep_view(),
    {
        self.dup()
    }
}

/// A provider call to make, over the prompt of the state it was asked for.
#[derive(Debug, PartialEq, Eq)]
pub struct ProviderCall {
    pub marker_seq: u64,
    /// What the call is cancelled by.
    pub generation: u64,
    /// How long to wait first.
    pub delay_ms: Option<u64>,
    pub tool_choice: ToolChoice,
    pub conversation_id: String,
    pub system_prompt: String,
    pub specs: Vec<ToolSpec>,
    pub thinking_effort: Option<ThinkingEffort>,
}

/// What a [`ProviderCall`] stands for.
#[verifier::ext_equal]
pub struct ProviderCallView {
    pub marker_seq: u64,
    pub generation: u64,
    pub delay_ms: Option<u64>,
    pub tool_choice: ToolChoiceView,
    pub conversation_id: Seq<char>,
    pub system_prompt: Seq<char>,
    pub specs: Seq<ToolSpecView>,
    pub thinking_effort: Option<ThinkingEffort>,
}

impl DeepView for ProviderCall {
    type V = ProviderCallView;

    open spec fn deep_view(&self) -> ProviderCallView {
        ProviderCallView {
            marker_seq: self.marker_seq.deep_view(),
            generation: self.generation.deep_view(),
            delay_ms: self.delay_ms.deep_view(),
            tool_choice: self.tool_choice.deep_view(),
            conversation_id: self.conversation_id.deep_view(),
            system_prompt: self.system_prompt.deep_view(),
            specs: self.specs.deep_view(),
            thinking_effort: self.thinking_effort.deep_view(),
        }
    }
}

impl Dup for ProviderCall {
    fn dup(&self) -> (out: Self) {
        ProviderCall {
            marker_seq: self.marker_seq.dup(),
            generation: self.generation.dup(),
            delay_ms: self.delay_ms.dup(),
            tool_choice: self.tool_choice.dup(),
            conversation_id: self.conversation_id.dup(),
            system_prompt: self.system_prompt.dup(),
            specs: self.specs.dup(),
            thinking_effort: self.thinking_effort.dup(),
        }
    }
}

impl Clone for ProviderCall {
    fn clone(&self) -> (out: Self)
        ensures
            out.deep_view() == self.deep_view(),
    {
        self.dup()
    }
}

/// What handling a turn's command comes to: what to journal, and the provider
/// call to make.
#[derive(Debug, PartialEq, Eq)]
pub struct TurnEffect {
    pub effect: CommandEffect,
    pub call: Option<ProviderCall>,
}

/// What a [`TurnEffect`] stands for.
#[verifier::ext_equal]
pub struct TurnEffectView {
    pub effect: CommandEffectView,
    pub call: Option<ProviderCallView>,
}

impl DeepView for TurnEffect {
    type V = TurnEffectView;

    open spec fn deep_view(&self) -> TurnEffectView {
        TurnEffectView {
            effect: self.effect.deep_view(),
            call: self.call.deep_view(),
        }
    }
}

/// A turn and the shared run after a command, with what the command came to.
#[verifier::ext_equal]
pub struct TurnStep {
    pub flight: Option<TurnFlightView>,
    pub run: StepRunView,
    pub effect: CommandEffectView,
    pub call: Option<ProviderCallView>,
}

/// The bookkeeping of a turn, started if this is its first call.
pub open spec fn started(flight: Option<TurnFlightView>, run: StepRunView) -> TurnFlightView {
    match flight {
        Some(flight) => flight,
        None => TurnFlightView {
            tool_choice: match run.pending_tool_choice {
                Some(choice) => choice,
                None => ToolChoiceView::Auto,
            },
            iteration: 0,
            attempt: 0,
            fingerprints: seq![],
        },
    }
}

/// The shared run once a turn's bookkeeping has started: a turn that starts
/// takes the choice that was waiting for it.
pub open spec fn taken(flight: Option<TurnFlightView>, run: StepRunView) -> StepRunView {
    if flight is None {
        StepRunView { pending_tool_choice: None, ..run }
    } else {
        run
    }
}

/// Asking for one provider call. Nothing comes of it when nothing is prepared
/// to run against, or when no agent step is open.
pub open spec fn calling(
    flight: Option<TurnFlightView>,
    run: StepRunView,
    state: AgentStateView,
    delay_ms: Option<u64>,
) -> TurnStep {
    match run.ctx {
        None => TurnStep { flight, run, effect: CommandEffectView::none(), call: None },
        Some(ctx) => {
            let now = started(flight, run);
            let after = taken(flight, run);
            match state.open_step() {
                Some((marker_seq, StepKindView::Agent)) => TurnStep {
                    flight: Some(now),
                    run: after.begun(StepPhase::CallingProvider, marker_seq),
                    effect: CommandEffectView::none(),
                    call: Some(
                        ProviderCallView {
                            marker_seq,
                            generation: run.generation,
                            delay_ms,
                            tool_choice: now.tool_choice,
                            conversation_id: ctx.conversation_id,
                            system_prompt: ctx.system_prompt,
                            specs: ctx.specs,
                            thinking_effort: ctx.thinking_effort,
                        },
                    ),
                },
                _ => TurnStep {
                    flight: Some(now),
                    run: after,
                    effect: CommandEffectView::none(),
                    call: None,
                },
            }
        },
    }
}

/// What a failed turn writes behind what it had already written.
pub open spec fn failure_events(error: Seq<char>, recoverable: bool, now: u64) -> Seq<
    AgentDomainEventView,
> {
    seq![
        AgentDomainEventView::StepFailed { reason: StepFailureView::Provider(error) },
        AgentDomainEventView::RunEnded {
            reason: RunEndView::Failed { error, recoverable, terminal: false },
            at_ms: now,
        },
    ]
}

/// A turn that ends as a failure.
pub open spec fn failing(
    run: StepRunView,
    events: Seq<AgentDomainEventView>,
    error: Seq<char>,
    recoverable: bool,
    now: u64,
) -> TurnStep {
    TurnStep {
        flight: None,
        run,
        effect: CommandEffectView::persist(
            events + seq![AgentDomainEventView::RunAborted { at_ms: now }] + failure_events(
                error,
                recoverable,
                now,
            ),
        ),
        call: None,
    }
}

/// How many calls one turn may make.
pub open spec fn call_limit(params: AgentParamsView) -> u32 {
    match params.max_iterations {
        Some(n) => n,
        None => MAX_ITERATIONS,
    }
}

/// What a turn whose calls are spent fails with.
pub open spec fn spent_error(limit: u32) -> Seq<char> {
    "max iterations exceeded (max="@ + text::decimal(limit as nat) + ")"@
}

/// Making a turn's next provider call, or failing it when its budget is spent.
pub open spec fn stepping(
    flight: Option<TurnFlightView>,
    run: StepRunView,
    state: AgentStateView,
    params: AgentParamsView,
    now: u64,
) -> TurnStep {
    let limit = call_limit(params);
    if started(flight, run).iteration >= limit {
        failing(taken(flight, run), seq![], spent_error(limit), false, now)
    } else {
        calling(Some(started(flight, run)), taken(flight, run), state, None)
    }
}

/// The tool calls a message makes, in order.
pub open spec fn tool_calls(parts: Seq<ContentPartView>) -> Seq<ToolUseView> {
    lists::filter_map(parts, |p: ContentPartView| as_call(p))
}

/// The tool call a part makes.
pub open spec fn as_call(part: ContentPartView) -> Option<ToolUseView> {
    match part {
        ContentPartView::ToolUse(call) => Some(call),
        _ => None,
    }
}

/// The newest fingerprints once one more is known, oldest first.
pub open spec fn window(had: Seq<Seq<char>>, fingerprint: Seq<char>) -> Seq<Seq<char>> {
    let all = had.push(fingerprint);
    if all.len() > STUCK_THRESHOLD {
        all.drop_first()
    } else {
        all
    }
}

/// Whether every fingerprint is this one.
pub open spec fn all_are(fingerprints: Seq<Seq<char>>, fingerprint: Seq<char>) -> bool {
    forall|i: int| 0 <= i < fingerprints.len() ==> #[trigger] fingerprints[i] == fingerprint
}

/// What a turn stuck on one tool fails with.
pub open spec fn stuck_error(tool: Seq<char>) -> Seq<char> {
    "stuck in loop: tool '"@ + tool + "' called identically 5 times"@
}

/// The advice every call of a repeated batch is answered with.
pub open spec fn advice(calls: Seq<ToolUseView>, now: u64) -> Seq<AgentDomainEventView> {
    calls.map_values(
        |call: ToolUseView|
            AgentDomainEventView::InputMessage {
                message: MessageView::tool_result(
                    call.id,
                    REPEATED_CALL_ADVICE@,
                    false,
                    seq![],
                    now,
                ),
            },
    )
}

/// One more than this, or the largest there is.
pub open spec fn one_more(n: u32) -> u32 {
    if n == u32::MAX {
        n
    } else {
        (n + 1) as u32
    }
}

/// A provider call that answered: journal it, then read what it asks for.
pub open spec fn responding(
    flight: Option<TurnFlightView>,
    run: StepRunView,
    state: AgentStateView,
    params: AgentParamsView,
    response: StepResponseView,
    now: u64,
) -> TurnStep {
    let had = started(flight, run);
    let run = taken(flight, run);
    let flight = TurnFlightView { iteration: one_more(had.iteration), attempt: 0, ..had };
    let calls = tool_calls(response.message.parts);
    let done = seq![
        AgentDomainEventView::MessageComplete {
            message: response.message,
            usage: response.usage,
        },
    ];
    if calls.len() == 0 {
        if response.stop_reason == StopReason::MaxTokens {
            failing(run, done, "response truncated at the max_tokens limit"@, false, now)
        } else {
            let (tail, after) = completing(state, run, params, now);
            TurnStep {
                flight: None,
                run: after,
                effect: CommandEffectView {
                    events: done + seq![
                        AgentDomainEventView::RunComplete {
                            iterations: flight.iteration,
                            at_ms: now,
                        },
                    ] + tail.events,
                    snapshot: tail.snapshot,
                },
                call: None,
            }
        }
    } else {
        let seen = window(flight.fingerprints, response.fingerprint);
        let repeated = all_are(seen, response.fingerprint);
        let flight = TurnFlightView { fingerprints: seen, ..flight };
        if seen.len() >= STUCK_THRESHOLD && repeated {
            failing(run, done, stuck_error(calls[0].name), false, now)
        } else {
            TurnStep {
                flight: Some(flight),
                run,
                effect: CommandEffectView::persist(
                    if seen.len() >= NUDGE_THRESHOLD && repeated {
                        done + advice(calls, now)
                    } else {
                        done
                    },
                ),
                call: None,
            }
        }
    }
}

/// Two times itself, this often.
pub open spec fn doubled(times: nat) -> nat
    decreases times,
{
    if times == 0 {
        1
    } else {
        2 * doubled((times - 1) as nat)
    }
}

/// How long to wait before the `attempt`th retry, in milliseconds.
pub open spec fn backoff_ms(attempt: u32) -> nat {
    50 * doubled(
        if attempt > 6 {
            6
        } else {
            attempt as nat
        },
    )
}

/// A provider call that failed: try it again, or fail the turn.
pub open spec fn retrying(
    flight: Option<TurnFlightView>,
    run: StepRunView,
    state: AgentStateView,
    params: AgentParamsView,
    failure: LlmFailureView,
    now: u64,
) -> TurnStep {
    let had = started(flight, run);
    let run = taken(flight, run);
    if failure.transient && had.attempt < params.max_retries {
        let attempt = (had.attempt + 1) as u32;
        let delay = match failure.retry_after_ms {
            Some(ms) => ms,
            None => backoff_ms(attempt) as u64,
        };
        calling(Some(TurnFlightView { attempt, ..had }), run, state, Some(delay))
    } else {
        failing(run, seq![], failure.error, failure.transient, now)
    }
}

/// Whether something that is not in the queue will wake this agent again.
pub open spec fn will_wake(state: AgentStateView) -> bool {
    state.timers().len() > 0 || carried_state::running(state.log).len() > 0
}

/// A turn that parks.
pub open spec fn parking(now: u64) -> CommandEffectView {
    CommandEffectView::persist_and_snapshot(
        seq![
            AgentDomainEventView::Parked { at_ms: now },
            AgentDomainEventView::RunEnded { reason: RunEndView::Parked, at_ms: now },
        ],
    )
}

/// A turn that ended with plain text.
pub open spec fn completing(
    state: AgentStateView,
    run: StepRunView,
    params: AgentParamsView,
    now: u64,
) -> (CommandEffectView, StepRunView) {
    if params.requires_result {
        lacking_result(state, run, now)
    } else if params.park_on_outstanding_work && state.offer() is None && will_wake(state) {
        (parking(now), run)
    } else {
        (CommandEffectView::none(), run)
    }
}

/// What a step that never handed in its result fails with.
pub open spec fn no_result_error(turns: u64) -> Seq<char> {
    "the step ended "@ + text::decimal(turns as nat)
        + " turns without calling `submit_result`, and nothing would wake it"@
}

/// A step's turn that ended with text in place of a result. Legitimate when
/// something will wake the agent again; otherwise the model is nudged, then
/// nudged with the tool forced, and then the step is failed.
pub open spec fn lacking_result(state: AgentStateView, run: StepRunView, now: u64) -> (
    CommandEffectView,
    StepRunView,
) {
    let nudges = state.nudges() as u64;
    if state.offer() is Some {
        (CommandEffectView::none(), run)
    } else if will_wake(state) {
        (parking(now), run)
    } else if nudges >= MAX_RESULT_NUDGES {
        (
            CommandEffectView::persist(
                seq![
                    AgentDomainEventView::RunEnded {
                        reason: RunEndView::Failed {
                            error: no_result_error(timers::capped_sum(nudges, 1)),
                            recoverable: false,
                            terminal: false,
                        },
                        at_ms: now,
                    },
                ],
            ),
            run,
        )
    } else {
        (
            CommandEffectView::persist(
                seq![
                    AgentDomainEventView::Received {
                        item: IncomingView::User {
                            id: "nudge-result:"@ + text::decimal(nudges as nat),
                            text: RESULT_NUDGE@,
                            artifacts: seq![],
                        },
                        at_ms: now,
                    },
                    AgentDomainEventView::Nudged { at_ms: now },
                ],
            ),
            if nudges + 1 >= MAX_RESULT_NUDGES {
                StepRunView {
                    pending_tool_choice: Some(ToolChoiceView::Required(SUBMIT_RESULT_TOOL@)),
                    ..run
                }
            } else {
                run
            },
        )
    }
}

/// The question a call asks.
pub open spec fn asked(call: StoppedCallView) -> AskedQuestionView {
    AskedQuestionView {
        tool_call_id: Some(call.tool_call_id),
        question: call.input.str_or_empty("question"@),
        choices: json::strings_in(call.input, "choices"@),
        multiple: call.input.bool_at("multiple"@) == Some(true),
    }
}

/// Whether every one of these calls asks a person.
pub open spec fn all_ask(calls: Seq<StoppedCallView>) -> bool {
    forall|i: int| 0 <= i < calls.len() ==> (#[trigger] calls[i]).tool == ASK_USER_TOOL@
}

/// What the tools that ended a run meant.
pub open spec fn interpreted(calls: Seq<StoppedCallView>) -> ConclusionView {
    if calls.len() == 0 {
        ConclusionView::Output(JsonView::Null, None)
    } else if all_ask(calls) {
        ConclusionView::Ask(calls.map_values(|c: StoppedCallView| asked(c)))
    } else if calls.len() == 1 && calls[0].tool == SUBMIT_RESULT_TOOL@ {
        ConclusionView::Output(calls[0].input, Some(calls[0].tool_call_id))
    } else {
        ConclusionView::Contradiction(calls)
    }
}

/// The tools these calls name.
pub open spec fn tools_of(calls: Seq<StoppedCallView>) -> Seq<Seq<char>> {
    calls.map_values(|c: StoppedCallView| c.tool)
}

/// What a model that ended its turn twice over is told.
pub open spec fn contradiction(calls: Seq<StoppedCallView>) -> Seq<char> {
    "You ended your turn with more than one finishing tool ("@ + text::joined(tools_of(calls), ", "@)
        + "). Do one thing: either ask the user, or submit this step's result."@
}

/// The error result every contradictory call is given.
pub open spec fn refusals(calls: Seq<StoppedCallView>, now: u64) -> Seq<AgentDomainEventView> {
    let reason = contradiction(calls);
    calls.map_values(
        |c: StoppedCallView|
            AgentDomainEventView::ToolComplete {
                tool_call_id: c.tool_call_id,
                output: reason,
                is_error: true,
                artifacts: seq![],
                at_ms: now,
            },
    )
}

/// Telling a model that ended its turn twice over, and running the turn again
/// while it has corrections left.
pub open spec fn correcting(calls: Seq<StoppedCallView>, nudges: u64, now: u64) -> Seq<
    AgentDomainEventView,
> {
    let count = timers::capped_sum(nudges, 1);
    let told = refusals(calls, now).push(AgentDomainEventView::Nudged { at_ms: now });
    if count > MAX_RESULT_NUDGES {
        told
    } else {
        told.push(
            AgentDomainEventView::Received {
                item: IncomingView::Continue {
                    id: "contradiction:"@ + text::decimal(count as nat),
                    reason: contradiction(calls),
                },
                at_ms: now,
            },
        )
    }
}

/// What a submitted result writes: the submitting call's own result, and the
/// timers dropped that nothing is left to wake for.
pub open spec fn submitting(state: AgentStateView, submitted: Option<Seq<char>>, now: u64) -> Seq<
    AgentDomainEventView,
> {
    let answered = match submitted {
        Some(tool_call_id) => seq![
            AgentDomainEventView::ToolComplete {
                tool_call_id,
                output: "result submitted"@,
                is_error: false,
                artifacts: seq![],
                at_ms: now,
            },
        ],
        None => seq![],
    };
    let dropped = if state.timers().len() > 0 {
        seq![AgentDomainEventView::TimerCancelled { ids: timers::ids_of(state.timers()), at_ms: now }]
    } else {
        seq![]
    };
    answered + dropped
}

/// What a run stopped by its tools writes.
pub open spec fn stopping(state: AgentStateView, calls: Seq<StoppedCallView>, now: u64) ->
    CommandEffectView {
    match interpreted(calls) {
        ConclusionView::Output(_, submitted) => CommandEffectView::persist(
            submitting(state, submitted, now),
        ),
        ConclusionView::Ask(asks) => CommandEffectView::persist_and_snapshot(
            seq![
                AgentDomainEventView::AskRecorded { asks, at_ms: now },
                AgentDomainEventView::RunEnded {
                    reason: RunEndView::AwaitingInput { asks },
                    at_ms: now,
                },
            ],
        ),
        ConclusionView::Contradiction(calls) => CommandEffectView::persist(
            correcting(calls, state.nudges() as u64, now),
        ),
    }
}

/// What a batch that settled on a stopper writes: what its other calls came
/// back with, the end of the run, and what that end means once both are folded.
pub open spec fn batch_ended(
    flight: Option<TurnFlightView>,
    events: Seq<AgentDomainEventView>,
    calls: Seq<StoppedCallView>,
    state: AgentStateView,
    now: u64,
) -> CommandEffectView {
    let complete = AgentDomainEventView::RunComplete {
        iterations: match flight {
            Some(flight) => flight.iteration,
            None => 0,
        },
        at_ms: now,
    };
    let written = events + seq![complete];
    let tail = stopping(components::applied_all(state, written), calls, now);
    CommandEffectView { events: written + tail.events, snapshot: tail.snapshot }
}

/// The message a cancelled run was part-way through writing, when it had
/// written anything worth keeping.
pub open spec fn salvaged(deltas: Seq<Seq<char>>, message_id: Seq<char>, now: u64) -> Option<
    MessageView,
> {
    let text = text::joined(deltas, ""@);
    if text::trimmed(text).len() == 0 {
        None
    } else {
        Some(MessageView::assistant_text(message_id, text, now))
    }
}

/// What a cancelled run writes: a result for every call it left dangling, what
/// the model had already written, and the end.
pub open spec fn cancelling(
    run: StepRunView,
    repairs: Seq<MessageView>,
    message_id: Seq<char>,
    now: u64,
) -> CommandEffectView {
    let kept = match salvaged(run.deltas, message_id, now) {
        Some(message) => seq![AgentDomainEventView::MessageAborted { message }],
        None => seq![],
    };
    CommandEffectView::persist_and_snapshot(
        seed::as_inputs(repairs) + kept + seq![
            AgentDomainEventView::RunCancelled { at_ms: now },
            AgentDomainEventView::RunEnded { reason: RunEndView::Cancelled, at_ms: now },
        ],
    )
}

/// What an ending means.
pub open spec fn concluding(
    outcome: RunOutcomeView,
    state: AgentStateView,
    run: StepRunView,
    params: AgentParamsView,
    repairs: Seq<MessageView>,
    message_id: Seq<char>,
    now: u64,
) -> (CommandEffectView, StepRunView) {
    match outcome {
        RunOutcomeView::Completed => completing(state, run, params, now),
        RunOutcomeView::Stopped { calls } => (stopping(state, calls, now), run),
        RunOutcomeView::Cancelled => (cancelling(run, repairs, message_id, now), run),
        RunOutcomeView::Failed { error, recoverable } => (
            CommandEffectView::persist(failure_events(error, recoverable, now)),
            run,
        ),
    }
}

/// What a run's own events do to an agent: what it wrote, and what it cost.
pub open spec fn turn_fold(state: AgentStateView, event: AgentDomainEventView) -> AgentStateView {
    match event {
        AgentDomainEventView::MessageComplete { message, usage } => {
            let told = state.pushed(message.created_at_ms, AgentLogBodyView::Llm(message));
            AgentStateView { usage: told.usage.stepped(usage), ..told }
        },
        AgentDomainEventView::MessageAborted { message } => state.pushed(
            message.created_at_ms,
            AgentLogBodyView::Llm(message),
        ),
        AgentDomainEventView::ToolComplete {
            tool_call_id,
            output,
            is_error,
            artifacts,
            at_ms,
        } => state.pushed(
            at_ms,
            AgentLogBodyView::Llm(
                MessageView::tool_result(tool_call_id, output, is_error, artifacts, at_ms),
            ),
        ),
        _ => state,
    }
}

/// The tool calls a message makes, in order.
fn extract_tool_calls(message: &Message) -> (r: Vec<ToolUse>)
    ensures
        r.deep_view() == tool_calls(message.deep_view().parts),
{
    let ghost all = message.deep_view().parts;
    let ghost pick = |p: ContentPartView| as_call(p);
    let mut out: Vec<ToolUse> = Vec::new();
    for i in 0..message.parts.len()
        invariant
            all == message.deep_view().parts,
            pick == (|p: ContentPartView| as_call(p)),
            out.deep_view() == lists::filter_map(all.take(i as int), pick),
    {
        let ghost had = out.deep_view();
        proof {
            assert(all[i as int] == message.parts@[i as int].deep_view());
            lists::lemma_filter_map_step(all, pick, i as int);
        }
        if let ContentPart::ToolUse(call) = &message.parts[i] {
            out.push(call.dup());
            proof {
                assert(out.deep_view() =~= had.push(call.deep_view()));
            }
        }
    }
    proof {
        assert(all.take(message.parts.len() as int) =~= all);
    }
    out
}

/// Whether every fingerprint is this one.
fn all_same(fingerprints: &[String], fingerprint: &str) -> (r: bool)
    ensures
        r == all_are(fingerprints.deep_view(), fingerprint@),
{
    for i in 0..fingerprints.len()
        invariant
            forall|j: int|
                0 <= j < i ==> #[trigger] fingerprints.deep_view()[j] == fingerprint@,
    {
        if !same(fingerprints[i].as_str(), fingerprint) {
            proof {
                assert(fingerprints.deep_view()[i as int] != fingerprint@);
            }
            return false;
        }
        proof {
            assert(fingerprints.deep_view()[i as int] == fingerprint@);
        }
    }
    true
}

/// The advice every call of a repeated batch is answered with.
fn advise(calls: &[ToolUse], now: u64) -> (r: Vec<AgentDomainEvent>)
    ensures
        r.deep_view() == advice(calls.deep_view(), now),
{
    let ghost want = advice(calls.deep_view(), now);
    let mut out: Vec<AgentDomainEvent> = Vec::new();
    for i in 0..calls.len()
        invariant
            want == advice(calls.deep_view(), now),
            want.len() == calls.len(),
            out.deep_view() == want.take(i as int),
    {
        let ghost had = out.deep_view();
        let artifacts: Vec<ArtifactRef> = Vec::new();
        proof {
            assert(artifacts.deep_view() =~= seq![]);
            assert(calls.deep_view()[i as int] == calls@[i as int].deep_view());
        }
        let event = AgentDomainEvent::InputMessage {
            message: Message::tool_result(
                calls[i].id.as_str(),
                REPEATED_CALL_ADVICE.to_owned(),
                false,
                artifacts,
                now,
            ),
        };
        proof {
            assert(event.deep_view() == want[i as int]);
        }
        out.push(event);
        proof {
            assert(out.deep_view() =~= had.push(want[i as int]));
            assert(want.take(i + 1) =~= want.take(i as int).push(want[i as int]));
        }
    }
    proof {
        assert(want.take(calls.len() as int) =~= want);
    }
    out
}

/// How long to wait before the `attempt`th retry, in milliseconds.
fn backoff(attempt: u32) -> (r: u64)
    ensures
        r == backoff_ms(attempt),
{
    let times: u32 = if attempt > 6 {
        6
    } else {
        attempt
    };
    let mut factor: u64 = 1;
    for i in 0..times
        invariant
            times <= 6,
            factor == doubled(i as nat),
            i == 0 ==> factor == 1,
            i == 1 ==> factor == 2,
            i == 2 ==> factor == 4,
            i == 3 ==> factor == 8,
            i == 4 ==> factor == 16,
            i == 5 ==> factor == 32,
            i == 6 ==> factor == 64,
    {
        factor = factor * 2;
        proof {
            assert(doubled((i + 1) as nat) == 2 * doubled(i as nat));
        }
    }
    50 * factor
}

/// What a failed turn writes behind what it had already written.
fn failure(error: String, recoverable: bool, now: u64) -> (r: Vec<AgentDomainEvent>)
    ensures
        r.deep_view() == failure_events(error@, recoverable, now),
{
    let failed = AgentDomainEvent::StepFailed { reason: StepFailure::Provider(error.clone()) };
    let ended = AgentDomainEvent::RunEnded {
        reason: RunEnd::Failed { error, recoverable, terminal: false },
        at_ms: now,
    };
    let mut events: Vec<AgentDomainEvent> = Vec::new();
    events.push(failed);
    events.push(ended);
    proof {
        assert(events.deep_view() =~= seq![failed.deep_view(), ended.deep_view()]);
    }
    events
}

/// A turn that parks.
fn park(now: u64) -> (r: CommandEffect)
    ensures
        r.deep_view() == parking(now),
{
    let parked = AgentDomainEvent::Parked { at_ms: now };
    let ended = AgentDomainEvent::RunEnded { reason: RunEnd::Parked, at_ms: now };
    let mut events: Vec<AgentDomainEvent> = Vec::new();
    events.push(parked);
    events.push(ended);
    proof {
        assert(events.deep_view() =~= seq![parked.deep_view(), ended.deep_view()]);
    }
    CommandEffect::persist(events).and_snapshot()
}

/// Whether something that is not in the queue will wake this agent again.
fn wakes(state: &AgentState) -> (r: bool)
    ensures
        r == will_wake(state.deep_view()),
{
    state.has_timers() || has_outstanding_children(state)
}

/// Whether every one of these calls asks a person.
fn only_asks(calls: &[StoppedCall]) -> (r: bool)
    ensures
        r == all_ask(calls.deep_view()),
{
    for i in 0..calls.len()
        invariant
            forall|j: int|
                0 <= j < i ==> (#[trigger] calls.deep_view()[j]).tool == ASK_USER_TOOL@,
    {
        proof {
            assert(calls.deep_view()[i as int] == calls@[i as int].deep_view());
        }
        if !same(calls[i].tool.as_str(), ASK_USER_TOOL) {
            return false;
        }
    }
    true
}

/// What a model that ended its turn twice over is told.
fn contradicted(calls: &[StoppedCall]) -> (r: String)
    ensures
        r@ == contradiction(calls.deep_view()),
{
    let ghost want = tools_of(calls.deep_view());
    let mut tools: Vec<String> = Vec::new();
    for i in 0..calls.len()
        invariant
            want == tools_of(calls.deep_view()),
            want.len() == calls.len(),
            tools.deep_view() == want.take(i as int),
    {
        let ghost had = tools.deep_view();
        proof {
            assert(calls.deep_view()[i as int] == calls@[i as int].deep_view());
        }
        tools.push(calls[i].tool.clone());
        proof {
            assert(tools.deep_view() =~= had.push(want[i as int]));
            assert(want.take(i + 1) =~= want.take(i as int).push(want[i as int]));
        }
    }
    proof {
        assert(want.take(calls.len() as int) =~= want);
    }
    let mut reason = "You ended your turn with more than one finishing tool (".to_owned();
    reason.append(join(&tools, ", ").as_str());
    reason.append("). Do one thing: either ask the user, or submit this step's result.");
    reason
}

impl Turn {
    /// No turn in flight.
    pub fn new() -> (r: Self)
        ensures
            r.flight is None,
    {
        Turn { flight: None }
    }

    /// Start the turn's bookkeeping if this is its first call. The durable
    /// state is what says a turn is owed a call, so a turn that began in a
    /// process that has since died counts from zero.
    fn flight(&mut self, step_run: &mut StepRun) -> (r: TurnFlight)
        ensures
            r.deep_view() == started(
                old(self).flight.deep_view(),
                old(step_run).deep_view(),
            ),
            final(self).flight is None,
            final(step_run).deep_view() == taken(
                old(self).flight.deep_view(),
                old(step_run).deep_view(),
            ),
    {
        let mut flight: Option<TurnFlight> = None;
        std::mem::swap(&mut flight, &mut self.flight);
        match flight {
            Some(flight) => flight,
            None => {
                let mut pending: Option<ToolChoice> = None;
                std::mem::swap(&mut pending, &mut step_run.pending_tool_choice);
                let tool_choice = match pending {
                    Some(choice) => choice,
                    None => ToolChoice::Auto,
                };
                let fingerprints: Vec<String> = Vec::new();
                proof {
                    assert(fingerprints.deep_view() =~= seq![]);
                }
                TurnFlight { tool_choice, iteration: 0, attempt: 0, fingerprints }
            },
        }
    }

    /// Make this turn's next provider call, or fail the turn when its budget
    /// is spent.
    pub fn run_step(
        &mut self,
        state: &AgentState,
        step_run: &mut StepRun,
        params: &AgentParams,
        now: u64,
    ) -> (r: TurnEffect)
        ensures
            ({
                let want = stepping(
                    old(self).flight.deep_view(),
                    old(step_run).deep_view(),
                    state.deep_view(),
                    params.deep_view(),
                    now,
                );
                &&& final(self).flight.deep_view() == want.flight
                &&& final(step_run).deep_view() == want.run
                &&& r.deep_view() == (TurnEffectView { effect: want.effect, call: want.call })
            }),
    {
        let limit: u32 = match params.max_iterations {
            Some(n) => n,
            None => MAX_ITERATIONS,
        };
        let flight = self.flight(step_run);
        if flight.iteration >= limit {
            let mut error = "max iterations exceeded (max=".to_owned();
            error.append(number(limit as u64).as_str());
            error.append(")");
            return Turn::fail_turn(Vec::new(), error, false, now);
        }
        self.flight = Some(flight);
        let call = self.spawn_call(state, step_run, None);
        TurnEffect { effect: CommandEffect::none(), call }
    }

    /// One provider call over the state's prompt, for the open agent step.
    fn spawn_call(
        &mut self,
        state: &AgentState,
        step_run: &mut StepRun,
        delay_ms: Option<u64>,
    ) -> (r: Option<ProviderCall>)
        requires
            old(self).flight is Some,
        ensures
            ({
                let want = calling(
                    old(self).flight.deep_view(),
                    old(step_run).deep_view(),
                    state.deep_view(),
                    delay_ms,
                );
                &&& final(self).flight.deep_view() == want.flight
                &&& final(step_run).deep_view() == want.run
                &&& r.deep_view() == want.call
            }),
    {
        let (conversation_id, system_prompt, specs, thinking_effort) = match &step_run.ctx {
            Some(ctx) => (
                ctx.conversation_id.clone(),
                ctx.system_prompt.clone(),
                ctx.specs.dup(),
                ctx.thinking_effort,
            ),
            None => {
                return None;
            },
        };
        let tool_choice = match &self.flight {
            Some(flight) => flight.tool_choice.dup(),
            None => ToolChoice::Auto,
        };
        let marker_seq: u64 = match state.open_step() {
            Some((marker_seq, StepKind::Agent)) => marker_seq,
            _ => {
                return None;
            },
        };
        let generation: u64 = step_run.begin(StepPhase::CallingProvider, marker_seq);
        Some(
            ProviderCall {
                marker_seq,
                generation,
                delay_ms,
                tool_choice,
                conversation_id,
                system_prompt,
                specs,
                thinking_effort,
            },
        )
    }

    /// End the turn as a failure, behind what it had already written.
    fn fail_turn(
        events: Vec<AgentDomainEvent>,
        error: String,
        recoverable: bool,
        now: u64,
    ) -> (r: TurnEffect)
        ensures
            r.effect.deep_view() == CommandEffectView::persist(
                events.deep_view() + seq![AgentDomainEventView::RunAborted { at_ms: now }]
                    + failure_events(error@, recoverable, now),
            ),
            r.call is None,
    {
        let mut events = events;
        let ghost had = events.deep_view();
        let aborted = AgentDomainEvent::RunAborted { at_ms: now };
        events.push(aborted);
        proof {
            assert(events.deep_view() =~= had + seq![aborted.deep_view()]);
        }
        let ghost had = events.deep_view();
        let mut tail = failure(error, recoverable, now);
        let ghost more = tail.deep_view();
        events.append(&mut tail);
        proof {
            assert(events.deep_view() =~= had + more);
        }
        TurnEffect { effect: CommandEffect::persist(events), call: None }
    }

    /// One provider call answered: journal it, then read what it asks for.
    ///
    /// A truncated turn is not a finished turn, unless it carries tool calls:
    /// those can still be run. Tool calls are not run here; the message
    /// persists and whoever holds the toolbox finds them open.
    #[verifier::rlimit(40)]
    pub fn handle_responded(
        &mut self,
        state: &AgentState,
        step_run: &mut StepRun,
        params: &AgentParams,
        response: StepResponse,
        now: u64,
    ) -> (r: TurnEffect)
        ensures
            ({
                let want = responding(
                    old(self).flight.deep_view(),
                    old(step_run).deep_view(),
                    state.deep_view(),
                    params.deep_view(),
                    response.deep_view(),
                    now,
                );
                &&& final(self).flight.deep_view() == want.flight
                &&& final(step_run).deep_view() == want.run
                &&& r.deep_view() == (TurnEffectView { effect: want.effect, call: want.call })
            }),
    {
        let mut flight = self.flight(step_run);
        flight.iteration = if flight.iteration == u32::MAX {
            u32::MAX
        } else {
            flight.iteration + 1
        };
        flight.attempt = 0;
        let calls = extract_tool_calls(&response.message);
        let complete = AgentDomainEvent::MessageComplete {
            message: response.message,
            usage: response.usage,
        };
        let ghost done = seq![complete.deep_view()];
        let mut events: Vec<AgentDomainEvent> = Vec::new();
        events.push(complete);
        proof {
            assert(events.deep_view() =~= done);
        }
        if calls.len() == 0 {
            if response.stop_reason == StopReason::MaxTokens {
                return Turn::fail_turn(
                    events,
                    "response truncated at the max_tokens limit".to_owned(),
                    false,
                    now,
                );
            }
            let complete = AgentDomainEvent::RunComplete {
                iterations: flight.iteration,
                at_ms: now,
            };
            let ghost ended = seq![complete.deep_view()];
            events.push(complete);
            proof {
                assert(events.deep_view() =~= done + ended);
            }
            let tail = Turn::complete(state, step_run, params, now);
            let effect = merged(events, tail);
            return TurnEffect { effect, call: None };
        }
        let ghost had = flight.fingerprints.deep_view();
        flight.fingerprints.push(response.fingerprint.clone());
        proof {
            assert(flight.fingerprints.deep_view() =~= had.push(response.fingerprint@));
        }
        if flight.fingerprints.len() > STUCK_THRESHOLD {
            let ghost all = flight.fingerprints.deep_view();
            flight.fingerprints.remove(0);
            proof {
                assert(flight.fingerprints.deep_view() =~= all.drop_first());
            }
        }
        let repeated = all_same(&flight.fingerprints, response.fingerprint.as_str());
        let width: usize = flight.fingerprints.len();
        if width >= STUCK_THRESHOLD && repeated {
            proof {
                assert(calls.deep_view()[0] == calls@[0].deep_view());
            }
            let mut error = "stuck in loop: tool '".to_owned();
            error.append(calls[0].name.as_str());
            error.append("' called identically 5 times");
            return Turn::fail_turn(events, error, false, now);
        }
        if width >= NUDGE_THRESHOLD && repeated {
            let mut told = advise(&calls, now);
            let ghost more = told.deep_view();
            events.append(&mut told);
            proof {
                assert(events.deep_view() =~= done + more);
            }
        }
        self.flight = Some(flight);
        TurnEffect { effect: CommandEffect::persist(events), call: None }
    }

    /// One provider call failed: try it again, or fail the turn.
    ///
    /// A retry issues one request over the same history again: nothing was
    /// journaled by the failed attempt.
    pub fn handle_llm_failed(
        &mut self,
        state: &AgentState,
        step_run: &mut StepRun,
        params: &AgentParams,
        failure: LlmFailure,
        now: u64,
    ) -> (r: TurnEffect)
        ensures
            ({
                let want = retrying(
                    old(self).flight.deep_view(),
                    old(step_run).deep_view(),
                    state.deep_view(),
                    params.deep_view(),
                    failure.deep_view(),
                    now,
                );
                &&& final(self).flight.deep_view() == want.flight
                &&& final(step_run).deep_view() == want.run
                &&& r.deep_view() == (TurnEffectView { effect: want.effect, call: want.call })
            }),
    {
        let mut flight = self.flight(step_run);
        if failure.transient && flight.attempt < params.max_retries {
            flight.attempt = flight.attempt + 1;
            let delay: u64 = match failure.retry_after_ms {
                Some(ms) => ms,
                None => backoff(flight.attempt),
            };
            self.flight = Some(flight);
            let call = self.spawn_call(state, step_run, Some(delay));
            return TurnEffect { effect: CommandEffect::none(), call };
        }
        let none: Vec<AgentDomainEvent> = Vec::new();
        proof {
            assert(none.deep_view() =~= seq![]);
        }
        Turn::fail_turn(none, failure.error, failure.transient, now)
    }

    /// The turn ended with plain text.
    fn complete(
        state: &AgentState,
        step_run: &mut StepRun,
        params: &AgentParams,
        now: u64,
    ) -> (r: CommandEffect)
        ensures
            (r.deep_view(), final(step_run).deep_view()) == completing(
                state.deep_view(),
                old(step_run).deep_view(),
                params.deep_view(),
                now,
            ),
    {
        if params.requires_result {
            return Turn::ended_without_result(state, step_run, now);
        }
        if params.park_on_outstanding_work {
            if state.queued_offer().is_some() {
                return CommandEffect::none();
            }
            if wakes(state) {
                return park(now);
            }
        }
        CommandEffect::none()
    }

    /// A step's turn ended with text in place of its result.
    pub fn ended_without_result(state: &AgentState, step_run: &mut StepRun, now: u64) -> (r:
        CommandEffect)
        ensures
            (r.deep_view(), final(step_run).deep_view()) == lacking_result(
                state.deep_view(),
                old(step_run).deep_view(),
                now,
            ),
    {
        if state.queued_offer().is_some() {
            return CommandEffect::none();
        }
        if wakes(state) {
            return park(now);
        }
        let nudges: u64 = state.nudges();
        let mut events: Vec<AgentDomainEvent> = Vec::new();
        if nudges >= MAX_RESULT_NUDGES {
            let mut error = "the step ended ".to_owned();
            error.append(number(nudges.saturating_add(1)).as_str());
            error.append(" turns without calling `submit_result`, and nothing would wake it");
            let ended = AgentDomainEvent::RunEnded {
                reason: RunEnd::Failed { error, recoverable: false, terminal: false },
                at_ms: now,
            };
            events.push(ended);
            proof {
                assert(events.deep_view() =~= seq![ended.deep_view()]);
            }
            return CommandEffect::persist(events);
        }
        if nudges + 1 >= MAX_RESULT_NUDGES {
            step_run.pending_tool_choice = Some(
                ToolChoice::Required(SUBMIT_RESULT_TOOL.to_owned()),
            );
        }
        let mut id = "nudge-result:".to_owned();
        id.append(number(nudges).as_str());
        let artifacts: Vec<ArtifactRef> = Vec::new();
        proof {
            assert(artifacts.deep_view() =~= seq![]);
        }
        let nudge = AgentDomainEvent::Received {
            item: Incoming::User { id, text: RESULT_NUDGE.to_owned(), artifacts },
            at_ms: now,
        };
        let nudged = AgentDomainEvent::Nudged { at_ms: now };
        events.push(nudge);
        events.push(nudged);
        proof {
            assert(events.deep_view() =~= seq![nudge.deep_view(), nudged.deep_view()]);
        }
        CommandEffect::persist(events)
    }

    /// What the tools that ended a run meant: a match on names, and nothing
    /// else.
    pub fn interpret(calls: Vec<StoppedCall>) -> (r: Conclusion)
        ensures
            r.deep_view() == interpreted(calls.deep_view()),
    {
        let ghost all = calls.deep_view();
        if calls.len() == 0 {
            return Conclusion::Output(Json::Null, None);
        }
        if only_asks(&calls) {
            let ghost want = all.map_values(|c: StoppedCallView| asked(c));
            let mut asks: Vec<AskedQuestion> = Vec::new();
            for i in 0..calls.len()
                invariant
                    all == calls.deep_view(),
                    want == all.map_values(|c: StoppedCallView| asked(c)),
                    want.len() == calls.len(),
                    asks.deep_view() == want.take(i as int),
            {
                let ghost had = asks.deep_view();
                let call = &calls[i];
                proof {
                    assert(all[i as int] == calls@[i as int].deep_view());
                }
                let ask = AskedQuestion {
                    tool_call_id: Some(call.tool_call_id.clone()),
                    question: call.input.str_or_empty("question"),
                    choices: call.input.strings_at("choices"),
                    multiple: match call.input.bool_at("multiple") {
                        Some(multiple) => multiple,
                        None => false,
                    },
                };
                proof {
                    assert(ask.deep_view() == want[i as int]);
                }
                asks.push(ask);
                proof {
                    assert(asks.deep_view() =~= had.push(want[i as int]));
                    assert(want.take(i + 1) =~= want.take(i as int).push(want[i as int]));
                }
            }
            proof {
                assert(want.take(calls.len() as int) =~= want);
            }
            return Conclusion::Ask(asks);
        }
        proof {
            assert(all[0] == calls@[0].deep_view());
        }
        if calls.len() == 1 && same(calls[0].tool.as_str(), SUBMIT_RESULT_TOOL) {
            return Conclusion::Output(
                calls[0].input.dup(),
                Some(calls[0].tool_call_id.clone()),
            );
        }
        Conclusion::Contradiction(calls)
    }

    /// The model called two turn-enders at once. Tell each call why, and run
    /// the turn again.
    pub fn correct_contradiction(calls: Vec<StoppedCall>, state: &AgentState, now: u64) -> (r:
        CommandEffect)
        ensures
            r.deep_view() == CommandEffectView::persist(
                correcting(calls.deep_view(), state.deep_view().nudges() as u64, now),
            ),
    {
        let reason = contradicted(&calls);
        let ghost want = refusals(calls.deep_view(), now);
        let mut events: Vec<AgentDomainEvent> = Vec::new();
        for i in 0..calls.len()
            invariant
                want == refusals(calls.deep_view(), now),
                want.len() == calls.len(),
                reason@ == contradiction(calls.deep_view()),
                events.deep_view() == want.take(i as int),
        {
            let ghost had = events.deep_view();
            let artifacts: Vec<ArtifactRef> = Vec::new();
            proof {
                assert(artifacts.deep_view() =~= seq![]);
                assert(calls.deep_view()[i as int] == calls@[i as int].deep_view());
            }
            let event = AgentDomainEvent::ToolComplete {
                tool_call_id: calls[i].tool_call_id.clone(),
                output: reason.clone(),
                is_error: true,
                artifacts,
                at_ms: now,
            };
            proof {
                assert(event.deep_view() == want[i as int]);
            }
            events.push(event);
            proof {
                assert(events.deep_view() =~= had.push(want[i as int]));
                assert(want.take(i + 1) =~= want.take(i as int).push(want[i as int]));
            }
        }
        proof {
            assert(want.take(calls.len() as int) =~= want);
        }
        let nudged = AgentDomainEvent::Nudged { at_ms: now };
        events.push(nudged);
        let ghost told = want.push(nudged.deep_view());
        proof {
            assert(events.deep_view() =~= told);
        }
        let count: u64 = state.nudges().saturating_add(1);
        if count > MAX_RESULT_NUDGES {
            return CommandEffect::persist(events);
        }
        let mut id = "contradiction:".to_owned();
        id.append(number(count).as_str());
        let resume = AgentDomainEvent::Received {
            item: Incoming::Continue { id, reason },
            at_ms: now,
        };
        events.push(resume);
        proof {
            assert(events.deep_view() =~= told.push(resume.deep_view()));
        }
        CommandEffect::persist(events)
    }

    /// A tool ended the run, and what that means is decided here.
    fn stopped(state: &AgentState, calls: Vec<StoppedCall>, now: u64) -> (r: CommandEffect)
        ensures
            r.deep_view() == stopping(state.deep_view(), calls.deep_view(), now),
    {
        match Turn::interpret(calls) {
            Conclusion::Output(_, submitted) => {
                let ghost view = state.deep_view();
                let ghost want = submitting(view, submitted.deep_view(), now);
                let mut events: Vec<AgentDomainEvent> = Vec::new();
                let ghost mut answered: Seq<AgentDomainEventView> = seq![];
                if let Some(tool_call_id) = submitted {
                    let artifacts: Vec<ArtifactRef> = Vec::new();
                    proof {
                        assert(artifacts.deep_view() =~= seq![]);
                    }
                    let event = AgentDomainEvent::ToolComplete {
                        tool_call_id,
                        output: "result submitted".to_owned(),
                        is_error: false,
                        artifacts,
                        at_ms: now,
                    };
                    proof {
                        answered = seq![event.deep_view()];
                    }
                    events.push(event);
                }
                proof {
                    assert(events.deep_view() =~= answered);
                }
                if let Some(timers) = state.timers() {
                    if timers.records().len() > 0 {
                        let event = AgentDomainEvent::TimerCancelled {
                            ids: timers.all_ids(),
                            at_ms: now,
                        };
                        let ghost dropped = event.deep_view();
                        events.push(event);
                        proof {
                            assert(events.deep_view() =~= answered + seq![dropped]);
                        }
                    }
                }
                proof {
                    assert(events.deep_view() =~= want);
                }
                CommandEffect::persist(events)
            },
            Conclusion::Ask(asks) => {
                let recorded = AgentDomainEvent::AskRecorded { asks: asks.dup(), at_ms: now };
                let ended = AgentDomainEvent::RunEnded {
                    reason: RunEnd::AwaitingInput { asks },
                    at_ms: now,
                };
                let mut events: Vec<AgentDomainEvent> = Vec::new();
                events.push(recorded);
                events.push(ended);
                proof {
                    assert(events.deep_view() =~= seq![recorded.deep_view(), ended.deep_view()]);
                }
                CommandEffect::persist(events).and_snapshot()
            },
            Conclusion::Contradiction(calls) => Turn::correct_contradiction(calls, state, now),
        }
    }

    /// The message a cancelled run was part-way through writing, when it had
    /// written anything worth keeping. The chunks are the only copy.
    pub fn aborted_message(step_run: &StepRun, message_id: String, now: u64) -> (r: Option<Message>)
        ensures
            r.deep_view() == salvaged(step_run.deep_view().deltas, message_id@, now),
    {
        let text = join(&step_run.deltas, "");
        if trim(text.as_str()).is_empty() {
            return None;
        }
        Some(Message::assistant_text(message_id, text, now))
    }

    /// A cancelled run: a result for every call it left dangling, what the
    /// model had already written, and the end, in that order.
    fn cancel(step_run: &StepRun, repairs: Vec<Message>, message_id: String, now: u64) -> (r:
        CommandEffect)
        ensures
            r.deep_view() == cancelling(
                step_run.deep_view(),
                repairs.deep_view(),
                message_id@,
                now,
            ),
    {
        let mut events = input_events(repairs);
        let ghost fixes = events.deep_view();
        let ghost mut kept: Seq<AgentDomainEventView> = seq![];
        if let Some(message) = Turn::aborted_message(step_run, message_id, now) {
            let event = AgentDomainEvent::MessageAborted { message };
            proof {
                kept = seq![event.deep_view()];
            }
            events.push(event);
        }
        proof {
            assert(events.deep_view() =~= fixes + kept);
        }
        let cancelled = AgentDomainEvent::RunCancelled { at_ms: now };
        let ended = AgentDomainEvent::RunEnded { reason: RunEnd::Cancelled, at_ms: now };
        events.push(cancelled);
        events.push(ended);
        proof {
            assert(events.deep_view() =~= fixes + kept + seq![
                cancelled.deep_view(),
                ended.deep_view(),
            ]);
        }
        CommandEffect::persist(events).and_snapshot()
    }

    /// Interpret what ended the run. `repairs` are the results the run's
    /// dangling calls are given; `message_id` names the message salvaged from
    /// what had been streamed.
    pub fn conclude(
        &mut self,
        report: RunReport,
        state: &AgentState,
        step_run: &mut StepRun,
        params: &AgentParams,
        repairs: Vec<Message>,
        message_id: String,
        now: u64,
    ) -> (r: CommandEffect)
        ensures
            final(self).flight is None,
            (r.deep_view(), final(step_run).deep_view()) == concluding(
                report.outcome.deep_view(),
                state.deep_view(),
                old(step_run).deep_view(),
                params.deep_view(),
                repairs.deep_view(),
                message_id@,
                now,
            ),
    {
        self.flight = None;
        match report.outcome {
            RunOutcome::Completed => Turn::complete(state, step_run, params, now),
            RunOutcome::Stopped { calls } => Turn::stopped(state, calls, now),
            RunOutcome::Cancelled => Turn::cancel(step_run, repairs, message_id, now),
            RunOutcome::Failed { error, recoverable } => CommandEffect::persist(
                failure(error, recoverable, now),
            ),
        }
    }

    /// The batch settled on a stopper. What the calls that did not stop the
    /// run came back with is journaled first, and what the ending means is
    /// read off the state those records leave.
    pub fn ended_by_tools(
        &mut self,
        events: Vec<AgentDomainEvent>,
        calls: Vec<StoppedCall>,
        state: &AgentState,
        now: u64,
    ) -> (r: CommandEffect)
        ensures
            final(self).flight is None,
            r.deep_view() == batch_ended(
                old(self).flight.deep_view(),
                events.deep_view(),
                calls.deep_view(),
                state.deep_view(),
                now,
            ),
    {
        let iterations: u32 = match &self.flight {
            Some(flight) => flight.iteration,
            None => 0,
        };
        self.flight = None;
        let mut events = events;
        let ghost had = events.deep_view();
        let complete = AgentDomainEvent::RunComplete { iterations, at_ms: now };
        let ghost ended = seq![complete.deep_view()];
        events.push(complete);
        proof {
            assert(events.deep_view() =~= had + ended);
        }
        let folded = AgentLoop::apply_all(state.dup(), events.dup());
        merged(events, Turn::stopped(&folded, calls, now))
    }

    /// The turn was cancelled: repair what it left dangling, and report it.
    pub fn cancelled(
        &mut self,
        step_run: &StepRun,
        repairs: Vec<Message>,
        message_id: String,
        now: u64,
    ) -> (r: CommandEffect)
        ensures
            final(self).flight is None,
            r.deep_view() == CommandEffectView::persist_and_snapshot(
                seq![AgentDomainEventView::RunAborted { at_ms: now }] + cancelling(
                    step_run.deep_view(),
                    repairs.deep_view(),
                    message_id@,
                    now,
                ).events,
            ),
    {
        self.flight = None;
        let aborted = AgentDomainEvent::RunAborted { at_ms: now };
        let mut events: Vec<AgentDomainEvent> = Vec::new();
        events.push(aborted);
        proof {
            assert(events.deep_view() =~= seq![aborted.deep_view()]);
        }
        merged(events, Turn::cancel(step_run, repairs, message_id, now))
    }

    /// Decide what a run's own command means. Whether readers have something
    /// new to see comes beside what is written and the call to make.
    pub fn handle(
        &mut self,
        cmd: RunCommand,
        state: &AgentState,
        step_run: &mut StepRun,
        params: &AgentParams,
        now: u64,
    ) -> (r: (TurnEffect, bool))
        ensures
            ({
                let want = commanded(
                    old(self).flight.deep_view(),
                    old(step_run).deep_view(),
                    state.deep_view(),
                    params.deep_view(),
                    cmd,
                    now,
                );
                &&& final(self).flight.deep_view() == want.flight
                &&& final(step_run).deep_view() == want.run
                &&& r.0.deep_view() == (TurnEffectView { effect: want.effect, call: want.call })
                &&& r.1 == (cmd matches RunCommand::StreamDelta { marker_seq, .. }
                    && state.deep_view().agent_step_is(marker_seq) && old(
                    step_run,
                ).deep_view().live(marker_seq))
            }),
    {
        match cmd {
            RunCommand::StepDone { marker_seq, response } => (
                self.step_done(state, step_run, params, marker_seq, *response, now),
                false,
            ),
            RunCommand::StepFailed { marker_seq, error } => (
                self.step_failed(state, step_run, params, marker_seq, error, now),
                false,
            ),
            RunCommand::StreamDelta { marker_seq, text } => {
                let shown = Turn::stream_delta(state, step_run, marker_seq, text);
                (TurnEffect { effect: CommandEffect::none(), call: None }, shown)
            },
            RunCommand::PersistProgress { events } => (
                TurnEffect { effect: CommandEffect::persist(events), call: None },
                false,
            ),
            RunCommand::StopHookDone { .. } => (
                TurnEffect { effect: CommandEffect::none(), call: None },
                false,
            ),
        }
    }

    /// A provider call finished. A report for a step that is not the open one,
    /// or that was stopped, is dropped.
    pub fn step_done(
        &mut self,
        state: &AgentState,
        step_run: &mut StepRun,
        params: &AgentParams,
        marker_seq: u64,
        response: StepResponse,
        now: u64,
    ) -> (r: TurnEffect)
        ensures
            ({
                let want = reported(
                    old(self).flight.deep_view(),
                    old(step_run).deep_view(),
                    state.deep_view(),
                    marker_seq,
                    responding(
                        old(self).flight.deep_view(),
                        old(step_run).deep_view().settled(marker_seq),
                        state.deep_view(),
                        params.deep_view(),
                        response.deep_view(),
                        now,
                    ),
                );
                &&& final(self).flight.deep_view() == want.flight
                &&& final(step_run).deep_view() == want.run
                &&& r.deep_view() == (TurnEffectView { effect: want.effect, call: want.call })
            }),
    {
        if !state.agent_step_is(marker_seq) || !step_run.finished(marker_seq) {
            return TurnEffect { effect: CommandEffect::none(), call: None };
        }
        self.handle_responded(state, step_run, params, response, now)
    }

    /// A provider call failed. A report for a step that is not the open one,
    /// or that was stopped, is dropped.
    pub fn step_failed(
        &mut self,
        state: &AgentState,
        step_run: &mut StepRun,
        params: &AgentParams,
        marker_seq: u64,
        failure: LlmFailure,
        now: u64,
    ) -> (r: TurnEffect)
        ensures
            ({
                let want = reported(
                    old(self).flight.deep_view(),
                    old(step_run).deep_view(),
                    state.deep_view(),
                    marker_seq,
                    retrying(
                        old(self).flight.deep_view(),
                        old(step_run).deep_view().settled(marker_seq),
                        state.deep_view(),
                        params.deep_view(),
                        failure.deep_view(),
                        now,
                    ),
                );
                &&& final(self).flight.deep_view() == want.flight
                &&& final(step_run).deep_view() == want.run
                &&& r.deep_view() == (TurnEffectView { effect: want.effect, call: want.call })
            }),
    {
        if !state.agent_step_is(marker_seq) || !step_run.finished(marker_seq) {
            return TurnEffect { effect: CommandEffect::none(), call: None };
        }
        self.handle_llm_failed(state, step_run, params, failure, now)
    }

    /// One chunk of the message being written. Whether readers have something
    /// new to see; a straggler's chunk is dropped.
    pub fn stream_delta(state: &AgentState, step_run: &mut StepRun, marker_seq: u64, text: String)
        -> (r: bool)
        ensures
            r == (state.deep_view().agent_step_is(marker_seq) && old(step_run).deep_view().live(
                marker_seq,
            )),
            final(step_run).deep_view() == (if r {
                StepRunView {
                    deltas: old(step_run).deep_view().deltas.push(text@),
                    ..old(step_run).deep_view()
                }
            } else {
                old(step_run).deep_view()
            }),
    {
        state.agent_step_is(marker_seq) && step_run.push_delta(marker_seq, text)
    }

    /// Fold one of a run's events into state.
    pub fn apply(state: &mut AgentState, event: &AgentDomainEvent)
        ensures
            final(state).deep_view() == turn_fold(old(state).deep_view(), event.deep_view()),
    {
        let ghost after = turn_fold(state.deep_view(), event.deep_view());
        match event {
            AgentDomainEvent::MessageComplete { message, usage } => {
                state.push(message.created_at_ms, AgentLogBody::Llm(message.dup()));
                state.usage.step_completed(usage.dup());
                proof {
                    assert(state.deep_view() =~= after);
                }
            },
            AgentDomainEvent::MessageAborted { message } => {
                state.push(message.created_at_ms, AgentLogBody::Llm(message.dup()));
            },
            AgentDomainEvent::ToolComplete {
                tool_call_id,
                output,
                is_error,
                artifacts,
                at_ms,
            } => {
                let message = Message::tool_result(
                    tool_call_id.as_str(),
                    output.clone(),
                    *is_error,
                    artifacts.dup(),
                    *at_ms,
                );
                state.push(*at_ms, AgentLogBody::Llm(message));
            },
            _ => {},
        }
    }
}

impl Default for Turn {
    fn default() -> (r: Self)
        ensures
            r.flight is None,
    {
        Turn::new()
    }
}

/// A report that means something only while its marker is the open step and
/// nothing has stopped it.
pub open spec fn reported(
    flight: Option<TurnFlightView>,
    run: StepRunView,
    state: AgentStateView,
    marker_seq: u64,
    handled: TurnStep,
) -> TurnStep {
    if state.agent_step_is(marker_seq) && run.live(marker_seq) {
        handled
    } else {
        TurnStep { flight, run, effect: CommandEffectView::none(), call: None }
    }
}

/// What a run's own command comes to. The stop hook's report is nothing to the
/// turn: it is the agent's own to decide.
pub open spec fn commanded(
    flight: Option<TurnFlightView>,
    run: StepRunView,
    state: AgentStateView,
    params: AgentParamsView,
    cmd: RunCommand,
    now: u64,
) -> TurnStep {
    let idle = TurnStep { flight, run, effect: CommandEffectView::none(), call: None };
    match cmd {
        RunCommand::StepDone { marker_seq, response } => reported(
            flight,
            run,
            state,
            marker_seq,
            responding(
                flight,
                run.settled(marker_seq),
                state,
                params,
                (*response).deep_view(),
                now,
            ),
        ),
        RunCommand::StepFailed { marker_seq, error } => reported(
            flight,
            run,
            state,
            marker_seq,
            retrying(flight, run.settled(marker_seq), state, params, error.deep_view(), now),
        ),
        RunCommand::StreamDelta { marker_seq, text } => reported(
            flight,
            run,
            state,
            marker_seq,
            TurnStep { run: StepRunView { deltas: run.deltas.push(text@), ..run }, ..idle },
        ),
        RunCommand::PersistProgress { events } => TurnStep {
            effect: CommandEffectView::persist(events.deep_view()),
            ..idle
        },
        RunCommand::StopHookDone { .. } => idle,
    }
}

/// Events, and what concluding the turn adds, in one effect.
fn merged(events: Vec<AgentDomainEvent>, tail: CommandEffect) -> (r: CommandEffect)
    ensures
        r.deep_view() == (CommandEffectView {
            events: events.deep_view() + tail.deep_view().events,
            snapshot: tail.snapshot,
        }),
{
    let mut events = events;
    let mut tail = tail;
    let ghost had = events.deep_view();
    let ghost more = tail.events.deep_view();
    events.append(&mut tail.events);
    proof {
        assert(events.deep_view() =~= had + more);
    }
    CommandEffect { events, snapshot: tail.snapshot }
}

} // verus!
