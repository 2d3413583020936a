//! What has happened to an agent: the events, and nothing else.
//!
//! Every change to an [`AgentState`] is one of these, journaled before it is
//! believed and folded by exactly one component.

use crate::components::queue::inbox::{Incoming, IncomingView};
use crate::context::{AskedQuestion, AskedQuestionView};
use crate::ids::SessionId;
use crate::json::{Json, JsonView};
use crate::model::{
    ArtifactRef, ArtifactRefView, CompactionTrigger, HookRecord, HookRecordView, LifecycleEvent,
    LifecycleEventView, Message, MessageView, Usage, UsageView,
};
use crate::state::{AgentState, AgentStateView, copied_state};
use crate::task_list::{TaskListState, TaskView};
use crate::text::Dup;
use crate::timers::{TimerId, TimerRecord, TimerRecordView};
use vstd::prelude::*;

verus! {

/// Where a system prompt came from.
#[derive(Debug, Clone, Copy, PartialEq, Eq, Structural)]
pub enum SystemPromptSource {
    Configured,
    InitialContext,
}

impl DeepView for SystemPromptSource {
    type V = SystemPromptSource;

    open spec fn deep_view(&self) -> SystemPromptSource {
        *self
    }
}

impl Dup for SystemPromptSource {
    fn dup(&self) -> (out: Self) {
        *self
    }
}

/// What a step is for.
#[derive(Debug, PartialEq, Eq)]
pub enum StepKind {
    Initialize,
    Connect,
    Agent,
    StopHook,
    Compaction,
    SeedSummary { request_id: String },
}

/// What a [`StepKind`] stands for.
#[verifier::ext_equal]
pub enum StepKindView {
    Initialize,
    Connect,
    Agent,
    StopHook,
    Compaction,
    SeedSummary { request_id: Seq<char> },
}

impl DeepView for StepKind {
    type V = StepKindView;

    open spec fn deep_view(&self) -> StepKindView {
        match self {
            StepKind::Initialize => StepKindView::Initialize,
            StepKind::Connect => StepKindView::Connect,
            StepKind::Agent => StepKindView::Agent,
            StepKind::StopHook => StepKindView::StopHook,
            StepKind::Compaction => StepKindView::Compaction,
            StepKind::SeedSummary { request_id } => StepKindView::SeedSummary {
                request_id: request_id.deep_view(),
            },
        }
    }
}

impl Dup for StepKind {
    fn dup(&self) -> (out: Self) {
        match self {
            StepKind::Initialize => StepKind::Initialize,
            StepKind::Connect => StepKind::Connect,
            StepKind::Agent => StepKind::Agent,
            StepKind::StopHook => StepKind::StopHook,
            StepKind::Compaction => StepKind::Compaction,
            StepKind::SeedSummary { request_id } => StepKind::SeedSummary {
                request_id: request_id.dup(),
            },
        }
    }
}

impl Clone for StepKind {
    fn clone(&self) -> (out: Self)
        ensures
            out.deep_view() == self.deep_view(),
    {
        self.dup()
    }
}

/// Why a step came to nothing.
#[derive(Debug, PartialEq, Eq)]
pub enum StepFailure {
    Interrupted,
    Provider(String),
    TimedOut,
}

/// What a [`StepFailure`] stands for.
#[verifier::ext_equal]
pub enum StepFailureView {
    Interrupted,
    Provider(Seq<char>),
    TimedOut,
}

impl DeepView for StepFailure {
    type V = StepFailureView;

    open spec fn deep_view(&self) -> StepFailureView {
        match self {
            StepFailure::Interrupted => StepFailureView::Interrupted,
            StepFailure::Provider(a) => StepFailureView::Provider(a.deep_view()),
            StepFailure::TimedOut => StepFailureView::TimedOut,
        }
    }
}

impl Dup for StepFailure {
    fn dup(&self) -> (out: Self) {
        match self {
            StepFailure::Interrupted => StepFailure::Interrupted,
            StepFailure::Provider(a) => StepFailure::Provider(a.dup()),
            StepFailure::TimedOut => StepFailure::TimedOut,
        }
    }
}

impl Clone for StepFailure {
    fn clone(&self) -> (out: Self)
        ensures
            out.deep_view() == self.deep_view(),
    {
        self.dup()
    }
}

/// What a stop hook said.
#[derive(Debug, PartialEq, Eq)]
pub enum StopHookOutcome {
    Allow,
    Continue { message: String },
    Failed { reason: String },
    Interrupted,
    TimedOut,
}

/// What a [`StopHookOutcome`] stands for.
#[verifier::ext_equal]
pub enum StopHookOutcomeView {
    Allow,
    Continue { message: Seq<char> },
    Failed { reason: Seq<char> },
    Interrupted,
    TimedOut,
}

impl DeepView for StopHookOutcome {
    type V = StopHookOutcomeView;

    open spec fn deep_view(&self) -> StopHookOutcomeView {
        match self {
            StopHookOutcome::Allow => StopHookOutcomeView::Allow,
            StopHookOutcome::Continue { message } => StopHookOutcomeView::Continue {
                message: message.deep_view(),
            },
            StopHookOutcome::Failed { reason } => StopHookOutcomeView::Failed {
                reason: reason.deep_view(),
            },
            StopHookOutcome::Interrupted => StopHookOutcomeView::Interrupted,
            StopHookOutcome::TimedOut => StopHookOutcomeView::TimedOut,
        }
    }
}

impl Dup for StopHookOutcome {
    fn dup(&self) -> (out: Self) {
        match self {
            StopHookOutcome::Allow => StopHookOutcome::Allow,
            StopHookOutcome::Continue { message } => StopHookOutcome::Continue {
                message: message.dup(),
            },
            StopHookOutcome::Failed { reason } => StopHookOutcome::Failed {
                reason: reason.dup(),
            },
            StopHookOutcome::Interrupted => StopHookOutcome::Interrupted,
            StopHookOutcome::TimedOut => StopHookOutcome::TimedOut,
        }
    }
}

impl Clone for StopHookOutcome {
    fn clone(&self) -> (out: Self)
        ensures
            out.deep_view() == self.deep_view(),
    {
        self.dup()
    }
}

/// How a run ended.
#[derive(Debug, PartialEq, Eq)]
pub enum RunEnd {
    Complete { output: Json },
    AwaitingInput { asks: Vec<AskedQuestion> },
    Parked,
    Cancelled,
    Interrupted,
    Failed { error: String, recoverable: bool, terminal: bool },
}

/// What a [`RunEnd`] stands for.
#[verifier::ext_equal]
pub enum RunEndView {
    Complete { output: JsonView },
    AwaitingInput { asks: Seq<AskedQuestionView> },
    Parked,
    Cancelled,
    Interrupted,
    Failed { error: Seq<char>, recoverable: bool, terminal: bool },
}

impl DeepView for RunEnd {
    type V = RunEndView;

    open spec fn deep_view(&self) -> RunEndView {
        match self {
            RunEnd::Complete { output } => RunEndView::Complete {
                output: output.deep_view(),
            },
            RunEnd::AwaitingInput { asks } => RunEndView::AwaitingInput {
                asks: asks.deep_view(),
            },
            RunEnd::Parked => RunEndView::Parked,
            RunEnd::Cancelled => RunEndView::Cancelled,
            RunEnd::Interrupted => RunEndView::Interrupted,
            RunEnd::Failed { error, recoverable, terminal } => RunEndView::Failed {
                error: error.deep_view(),
                recoverable: recoverable.deep_view(),
                terminal: terminal.deep_view(),
            },
        }
    }
}

impl Dup for RunEnd {
    fn dup(&self) -> (out: Self) {
        match self {
            RunEnd::Complete { output } => RunEnd::Complete {
                output: output.dup(),
            },
            RunEnd::AwaitingInput { asks } => RunEnd::AwaitingInput {
                asks: asks.dup(),
            },
            RunEnd::Parked => RunEnd::Parked,
            RunEnd::Cancelled => RunEnd::Cancelled,
            RunEnd::Interrupted => RunEnd::Interrupted,
            RunEnd::Failed { error, recoverable, terminal } => RunEnd::Failed {
                error: error.dup(),
                recoverable: recoverable.dup(),
                terminal: terminal.dup(),
            },
        }
    }
}

impl Clone for RunEnd {
    fn clone(&self) -> (out: Self)
        ensures
            out.deep_view() == self.deep_view(),
    {
        self.dup()
    }
}

/// One event, at its place in an agent's history.
#[derive(Debug, PartialEq, Eq)]
pub struct AgentHistoryEntry {
    pub seq: u64,
    pub record: AgentDomainEvent,
}

/// What an [`AgentHistoryEntry`] stands for.
#[verifier::ext_equal]
pub struct AgentHistoryEntryView {
    pub seq: u64,
    pub record: AgentDomainEventView,
}

impl AgentHistoryEntry {
    /// What this stands for.
    pub open spec fn model(self) -> AgentHistoryEntryView
        decreases self,
    {
        AgentHistoryEntryView { seq: self.seq, record: self.record.model() }
    }
}

impl DeepView for AgentHistoryEntry {
    type V = AgentHistoryEntryView;

    open spec fn deep_view(&self) -> AgentHistoryEntryView {
        self.model()
    }
}

/// Coarse events that alter persisted agent state. Streaming observation
/// events are shown to readers and never journaled.
#[derive(Debug, PartialEq, Eq)]
#[allow(inconsistent_fields)]
pub enum AgentDomainEvent {
    SystemPromptRecorded { source: SystemPromptSource, content: String },
    AgentInitialized,
    ConnectionCompleted,
    /// Its place in the history is both step identity and callback fence.
    StepStarted { kind: StepKind },
    StepFailed { reason: StepFailure },
    StopHookCompleted { outcome: StopHookOutcome },
    RunEnded { reason: RunEnd, at_ms: u64 },
    /// This agent was seeded from another session: `state` is the history it
    /// adopts, `seed` a synthetic message appended after it. Only ever the
    /// first event an agent has.
    Seeded { state: Box<AgentState>, seed: Option<Message> },
    InputMessage { message: Message },
    /// Queue items taken by work that is not a turn. Journaled when the work
    /// lands, not when it starts.
    Consumed { ids: Vec<String>, at_ms: u64 },
    /// One provider step completed. Usage is part of the same durable fact as
    /// the assistant message, so no later failure can lose what it spent.
    MessageComplete { message: Message, usage: Usage },
    /// An assistant message the run never got to finish, rebuilt from the text
    /// it had already streamed when the turn was cancelled.
    MessageAborted { message: Message },
    ToolComplete {
        tool_call_id: String,
        output: String,
        is_error: bool,
        artifacts: Vec<ArtifactRef>,
        at_ms: u64,
    },
    /// A plugin hook ran against a tool call this agent made.
    HookRan { record: HookRecord, seq: u64, at_ms: u64 },
    /// A run loop reached its normal boundary.
    RunComplete { iterations: u32, at_ms: u64 },
    /// A run loop ended badly.
    RunAborted { at_ms: u64 },
    RunCancelled { at_ms: u64 },
    TimerArmed { record: TimerRecord, at_ms: u64 },
    TimerCancelled { ids: Vec<TimerId>, at_ms: u64 },
    /// A timer fired. `next_fire_at_unix_ms` carries the re-armed fire time of
    /// a recurring timer, so the fold reads no clock; `None` removes a
    /// one-shot.
    TimerFired { id: TimerId, next_fire_at_unix_ms: Option<u64>, at_ms: u64 },
    /// The agent parked, awaiting a timer or a subagent still working.
    Parked { at_ms: u64 },
    /// A turn ended without the result this agent owed, and nothing would have
    /// woken it.
    Nudged { at_ms: u64 },
    /// The task list changed. Carries the whole resulting list, so a replay
    /// never re-derives a past mutation.
    TaskListChanged { snapshot: TaskListState, at_ms: u64 },
    /// Something that happened to the session, recorded here so there is one
    /// ordered record for a client to read.
    LifecycleRecorded { event: LifecycleEvent, at_ms: u64 },
    /// Older history stopped being shown to the model.
    Compacted {
        summary: String,
        carried_state: String,
        retained_from_message_id: Option<String>,
        trigger: CompactionTrigger,
        instructions: Option<String>,
        tokens_before: u32,
        tokens_after: u32,
        usage: Option<Usage>,
        at_ms: u64,
    },
    /// Something was accepted into this agent's queue.
    Received { item: Incoming, at_ms: u64 },
    /// A turn began, consuming these queue items and, if the agent was parked,
    /// answering these questions.
    TurnBegan { consumed: Vec<String>, answered: Vec<String>, at_ms: u64 },
    /// The agent parked on these questions, all of them together.
    AskRecorded { asks: Vec<AskedQuestion>, at_ms: u64 },
    /// A summary was taken for sub sessions branching off this agent.
    SeedSummaryTaken {
        request_id: String,
        sub_sessions: Vec<SessionId>,
        result: Result<String, String>,
        usage: Option<Usage>,
        at_ms: u64,
    },
}

/// What a [`AgentDomainEvent`] stands for.
#[verifier::ext_equal]
#[allow(inconsistent_fields)]
pub enum AgentDomainEventView {
    SystemPromptRecorded { source: SystemPromptSource, content: Seq<char> },
    AgentInitialized,
    ConnectionCompleted,
    StepStarted { kind: StepKindView },
    StepFailed { reason: StepFailureView },
    StopHookCompleted { outcome: StopHookOutcomeView },
    RunEnded { reason: RunEndView, at_ms: u64 },
    Seeded { state: AgentStateView, seed: Option<MessageView> },
    InputMessage { message: MessageView },
    Consumed { ids: Seq<Seq<char>>, at_ms: u64 },
    MessageComplete { message: MessageView, usage: UsageView },
    MessageAborted { message: MessageView },
    ToolComplete { tool_call_id: Seq<char>, output: Seq<char>, is_error: bool, artifacts: Seq<ArtifactRefView>, at_ms: u64 },
    HookRan { record: HookRecordView, seq: u64, at_ms: u64 },
    RunComplete { iterations: u32, at_ms: u64 },
    RunAborted { at_ms: u64 },
    RunCancelled { at_ms: u64 },
    TimerArmed { record: TimerRecordView, at_ms: u64 },
    TimerCancelled { ids: Seq<Seq<char>>, at_ms: u64 },
    TimerFired { id: Seq<char>, next_fire_at_unix_ms: Option<u64>, at_ms: u64 },
    Parked { at_ms: u64 },
    Nudged { at_ms: u64 },
    TaskListChanged { snapshot: Seq<TaskView>, at_ms: u64 },
    LifecycleRecorded { event: LifecycleEventView, at_ms: u64 },
    Compacted { summary: Seq<char>, carried_state: Seq<char>, retained_from_message_id: Option<Seq<char>>, trigger: CompactionTrigger, instructions: Option<Seq<char>>, tokens_before: u32, tokens_after: u32, usage: Option<UsageView>, at_ms: u64 },
    Received { item: IncomingView, at_ms: u64 },
    TurnBegan { consumed: Seq<Seq<char>>, answered: Seq<Seq<char>>, at_ms: u64 },
    AskRecorded { asks: Seq<AskedQuestionView>, at_ms: u64 },
    SeedSummaryTaken { request_id: Seq<char>, sub_sessions: Seq<SessionId>, result: Result<Seq<char>, Seq<char>>, usage: Option<UsageView>, at_ms: u64 },
}

impl DeepView for AgentDomainEvent {
    type V = AgentDomainEventView;

    open spec fn deep_view(&self) -> AgentDomainEventView {
        self.model()
    }
}

impl AgentDomainEvent {
    /// What this stands for.
    pub open spec fn model(self) -> AgentDomainEventView
        decreases self,
    {
        match self {
            AgentDomainEvent::SystemPromptRecorded { source, content } => AgentDomainEventView::SystemPromptRecorded {
                source: source.deep_view(),
                content: content.deep_view(),
            },
            AgentDomainEvent::AgentInitialized => AgentDomainEventView::AgentInitialized,
            AgentDomainEvent::ConnectionCompleted => AgentDomainEventView::ConnectionCompleted,
            AgentDomainEvent::StepStarted { kind } => AgentDomainEventView::StepStarted {
                kind: kind.deep_view(),
            },
            AgentDomainEvent::StepFailed { reason } => AgentDomainEventView::StepFailed {
                reason: reason.deep_view(),
            },
            AgentDomainEvent::StopHookCompleted { outcome } => AgentDomainEventView::StopHookCompleted {
                outcome: outcome.deep_view(),
            },
            AgentDomainEvent::RunEnded { reason, at_ms } => AgentDomainEventView::RunEnded {
                reason: reason.deep_view(),
                at_ms: at_ms.deep_view(),
            },
            AgentDomainEvent::Seeded { state, seed } => AgentDomainEventView::Seeded {
                state: (*state).model(),
                seed: seed.deep_view(),
            },
            AgentDomainEvent::InputMessage { message } => AgentDomainEventView::InputMessage {
                message: message.deep_view(),
            },
            AgentDomainEvent::Consumed { ids, at_ms } => AgentDomainEventView::Consumed {
                ids: ids.deep_view(),
                at_ms: at_ms.deep_view(),
            },
            AgentDomainEvent::MessageComplete { message, usage } => AgentDomainEventView::MessageComplete {
                message: message.deep_view(),
                usage: usage.deep_view(),
            },
            AgentDomainEvent::MessageAborted { message } => AgentDomainEventView::MessageAborted {
                message: message.deep_view(),
            },
            AgentDomainEvent::ToolComplete { tool_call_id, output, is_error, artifacts, at_ms } => AgentDomainEventView::ToolComplete {
                tool_call_id: tool_call_id.deep_view(),
                output: output.deep_view(),
                is_error: is_error.deep_view(),
                artifacts: artifacts.deep_view(),
                at_ms: at_ms.deep_view(),
            },
            AgentDomainEvent::HookRan { record, seq, at_ms } => AgentDomainEventView::HookRan {
                record: record.deep_view(),
                seq: seq.deep_view(),
                at_ms: at_ms.deep_view(),
            },
            AgentDomainEvent::RunComplete { iterations, at_ms } => AgentDomainEventView::RunComplete {
                iterations: iterations.deep_view(),
                at_ms: at_ms.deep_view(),
            },
            AgentDomainEvent::RunAborted { at_ms } => AgentDomainEventView::RunAborted {
                at_ms: at_ms.deep_view(),
            },
            AgentDomainEvent::RunCancelled { at_ms } => AgentDomainEventView::RunCancelled {
                at_ms: at_ms.deep_view(),
            },
            AgentDomainEvent::TimerArmed { record, at_ms } => AgentDomainEventView::TimerArmed {
                record: record.deep_view(),
                at_ms: at_ms.deep_view(),
            },
            AgentDomainEvent::TimerCancelled { ids, at_ms } => AgentDomainEventView::TimerCancelled {
                ids: ids.deep_view(),
                at_ms: at_ms.deep_view(),
            },
            AgentDomainEvent::TimerFired { id, next_fire_at_unix_ms, at_ms } => AgentDomainEventView::TimerFired {
                id: id.deep_view(),
                next_fire_at_unix_ms: next_fire_at_unix_ms.deep_view(),
                at_ms: at_ms.deep_view(),
            },
            AgentDomainEvent::Parked { at_ms } => AgentDomainEventView::Parked {
                at_ms: at_ms.deep_view(),
            },
            AgentDomainEvent::Nudged { at_ms } => AgentDomainEventView::Nudged {
                at_ms: at_ms.deep_view(),
            },
            AgentDomainEvent::TaskListChanged { snapshot, at_ms } => AgentDomainEventView::TaskListChanged {
                snapshot: snapshot.deep_view(),
                at_ms: at_ms.deep_view(),
            },
            AgentDomainEvent::LifecycleRecorded { event, at_ms } => AgentDomainEventView::LifecycleRecorded {
                event: event.deep_view(),
                at_ms: at_ms.deep_view(),
            },
            AgentDomainEvent::Compacted { summary, carried_state, retained_from_message_id, trigger, instructions, tokens_before, tokens_after, usage, at_ms } => AgentDomainEventView::Compacted {
                summary: summary.deep_view(),
                carried_state: carried_state.deep_view(),
                retained_from_message_id: retained_from_message_id.deep_view(),
                trigger: trigger.deep_view(),
                instructions: instructions.deep_view(),
                tokens_before: tokens_before.deep_view(),
                tokens_after: tokens_after.deep_view(),
                usage: usage.deep_view(),
                at_ms: at_ms.deep_view(),
            },
            AgentDomainEvent::Received { item, at_ms } => AgentDomainEventView::Received {
                item: item.deep_view(),
                at_ms: at_ms.deep_view(),
            },
            AgentDomainEvent::TurnBegan { consumed, answered, at_ms } => AgentDomainEventView::TurnBegan {
                consumed: consumed.deep_view(),
                answered: answered.deep_view(),
                at_ms: at_ms.deep_view(),
            },
            AgentDomainEvent::AskRecorded { asks, at_ms } => AgentDomainEventView::AskRecorded {
                asks: asks.deep_view(),
                at_ms: at_ms.deep_view(),
            },
            AgentDomainEvent::SeedSummaryTaken { request_id, sub_sessions, result, usage, at_ms } => AgentDomainEventView::SeedSummaryTaken {
                request_id: request_id.deep_view(),
                sub_sessions: sub_sessions.deep_view(),
                result: match result {
                    Ok(x) => Ok(x.deep_view()),
                    Err(x) => Err(x.deep_view()),
                },
                usage: usage.deep_view(),
                at_ms: at_ms.deep_view(),
            },
        }
    }
}

/// A copy of an event, field by field.
pub fn copied_event(event: &AgentDomainEvent) -> (out: AgentDomainEvent)
    ensures
        out.model() == event.model(),
    decreases event,
{
    match event {
        AgentDomainEvent::SystemPromptRecorded { source, content } => AgentDomainEvent::SystemPromptRecorded {
            source: source.dup(),
            content: content.dup(),
        },
        AgentDomainEvent::AgentInitialized => AgentDomainEvent::AgentInitialized,
        AgentDomainEvent::ConnectionCompleted => AgentDomainEvent::ConnectionCompleted,
        AgentDomainEvent::StepStarted { kind } => AgentDomainEvent::StepStarted {
            kind: kind.dup(),
        },
        AgentDomainEvent::StepFailed { reason } => AgentDomainEvent::StepFailed {
            reason: reason.dup(),
        },
        AgentDomainEvent::StopHookCompleted { outcome } => AgentDomainEvent::StopHookCompleted {
            outcome: outcome.dup(),
        },
        AgentDomainEvent::RunEnded { reason, at_ms } => AgentDomainEvent::RunEnded {
            reason: reason.dup(),
            at_ms: at_ms.dup(),
        },
        AgentDomainEvent::Seeded { state, seed } => AgentDomainEvent::Seeded {
            state: Box::new(copied_state(state)),
            seed: seed.dup(),
        },
        AgentDomainEvent::InputMessage { message } => AgentDomainEvent::InputMessage {
            message: message.dup(),
        },
        AgentDomainEvent::Consumed { ids, at_ms } => AgentDomainEvent::Consumed {
            ids: ids.dup(),
            at_ms: at_ms.dup(),
        },
        AgentDomainEvent::MessageComplete { message, usage } => AgentDomainEvent::MessageComplete {
            message: message.dup(),
            usage: usage.dup(),
        },
        AgentDomainEvent::MessageAborted { message } => AgentDomainEvent::MessageAborted {
            message: message.dup(),
        },
        AgentDomainEvent::ToolComplete { tool_call_id, output, is_error, artifacts, at_ms } => AgentDomainEvent::ToolComplete {
            tool_call_id: tool_call_id.dup(),
            output: output.dup(),
            is_error: is_error.dup(),
            artifacts: artifacts.dup(),
            at_ms: at_ms.dup(),
        },
        AgentDomainEvent::HookRan { record, seq, at_ms } => AgentDomainEvent::HookRan {
            record: record.dup(),
            seq: seq.dup(),
            at_ms: at_ms.dup(),
        },
        AgentDomainEvent::RunComplete { iterations, at_ms } => AgentDomainEvent::RunComplete {
            iterations: iterations.dup(),
            at_ms: at_ms.dup(),
        },
        AgentDomainEvent::RunAborted { at_ms } => AgentDomainEvent::RunAborted {
            at_ms: at_ms.dup(),
        },
        AgentDomainEvent::RunCancelled { at_ms } => AgentDomainEvent::RunCancelled {
            at_ms: at_ms.dup(),
        },
        AgentDomainEvent::TimerArmed { record, at_ms } => AgentDomainEvent::TimerArmed {
            record: record.dup(),
            at_ms: at_ms.dup(),
        },
        AgentDomainEvent::TimerCancelled { ids, at_ms } => AgentDomainEvent::TimerCancelled {
            ids: ids.dup(),
            at_ms: at_ms.dup(),
        },
        AgentDomainEvent::TimerFired { id, next_fire_at_unix_ms, at_ms } => AgentDomainEvent::TimerFired {
            id: id.dup(),
            next_fire_at_unix_ms: next_fire_at_unix_ms.dup(),
            at_ms: at_ms.dup(),
        },
        AgentDomainEvent::Parked { at_ms } => AgentDomainEvent::Parked {
            at_ms: at_ms.dup(),
        },
        AgentDomainEvent::Nudged { at_ms } => AgentDomainEvent::Nudged {
            at_ms: at_ms.dup(),
        },
        AgentDomainEvent::TaskListChanged { snapshot, at_ms } => AgentDomainEvent::TaskListChanged {
            snapshot: snapshot.dup(),
            at_ms: at_ms.dup(),
        },
        AgentDomainEvent::LifecycleRecorded { event, at_ms } => AgentDomainEvent::LifecycleRecorded {
            event: event.dup(),
            at_ms: at_ms.dup(),
        },
        AgentDomainEvent::Compacted { summary, carried_state, retained_from_message_id, trigger, instructions, tokens_before, tokens_after, usage, at_ms } => AgentDomainEvent::Compacted {
            summary: summary.dup(),
            carried_state: carried_state.dup(),
            retained_from_message_id: retained_from_message_id.dup(),
            trigger: trigger.dup(),
            instructions: instructions.dup(),
            tokens_before: tokens_before.dup(),
            tokens_after: tokens_after.dup(),
            usage: usage.dup(),
            at_ms: at_ms.dup(),
        },
        AgentDomainEvent::Received { item, at_ms } => AgentDomainEvent::Received {
            item: item.dup(),
            at_ms: at_ms.dup(),
        },
        AgentDomainEvent::TurnBegan { consumed, answered, at_ms } => AgentDomainEvent::TurnBegan {
            consumed: consumed.dup(),
            answered: answered.dup(),
            at_ms: at_ms.dup(),
        },
        AgentDomainEvent::AskRecorded { asks, at_ms } => AgentDomainEvent::AskRecorded {
            asks: asks.dup(),
            at_ms: at_ms.dup(),
        },
        AgentDomainEvent::SeedSummaryTaken { request_id, sub_sessions, result, usage, at_ms } => AgentDomainEvent::SeedSummaryTaken {
            request_id: request_id.dup(),
            sub_sessions: sub_sessions.dup(),
            result: match result {
                Ok(x) => Ok(x.dup()),
                Err(x) => Err(x.dup()),
            },
            usage: usage.dup(),
            at_ms: at_ms.dup(),
        },
    }
}

impl Dup for AgentDomainEvent {
    fn dup(&self) -> (out: Self) {
        copied_event(self)
    }
}

impl Clone for AgentDomainEvent {
    fn clone(&self) -> (out: Self)
        ensures
            out.deep_view() == self.deep_view(),
    {
        self.dup()
    }
}

impl Dup for AgentHistoryEntry {
    fn dup(&self) -> (out: Self) {
        AgentHistoryEntry { seq: self.seq, record: copied_event(&self.record) }
    }
}

impl Clone for AgentHistoryEntry {
    fn clone(&self) -> (out: Self)
        ensures
            out.deep_view() == self.deep_view(),
    {
        self.dup()
    }
}

} // verus!
