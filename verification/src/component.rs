//! What every component of an agent shares, and everything they are allowed to
//! share.
//!
//! A component acts by returning events in a [`CommandEffect`]; the durable
//! state is moved only by the fold. [`StepRun`] is the transient half: the few
//! in-memory facts more than one component reads, deliberately unjournaled.

use crate::events::{AgentDomainEvent, AgentDomainEventView, StepKind, StepKindView};
use crate::json::{Json, JsonView};
use crate::model::{
    ArtifactRef, ArtifactRefView, CompactionBudget, CompactionBudgetView, StoppedCall,
    StoppedCallView, ThinkingEffort, ToolCallError, ToolCallErrorView, ToolChoice, ToolChoiceView,
    ToolSpec, ToolSpecView,
};
use crate::state::{AgentState, AgentStateView};
use crate::text::Dup;
use vstd::prelude::*;

verus! {

/// What an agent can be doing off its own mailbox, one thing at a time.
#[derive(Debug, Clone, Copy, PartialEq, Eq, Structural)]
pub enum StepPhase {
    /// Rehydrating the runtime, reconnecting MCP, composing the toolbox.
    Initialize,
    Connect,
    /// A turn's pre-start hooks.
    StartHooks,
    /// One provider call for the current agent marker.
    CallingProvider,
    /// The current agent marker's tool batch.
    RunningTools,
    /// The stop hook at a settled boundary.
    StopHook,
    /// A tool-less compaction provider call.
    Compaction,
    /// A tool-less seed-summary provider call.
    SeedSummary,
}

impl DeepView for StepPhase {
    type V = StepPhase;

    open spec fn deep_view(&self) -> StepPhase {
        *self
    }
}

/// What one turn's steps share besides the provider and the toolbox that run
/// them.
#[derive(Debug, PartialEq, Eq)]
pub struct TurnCtx {
    /// What the model is shown, already filtered.
    pub specs: Vec<ToolSpec>,
    pub system_prompt: String,
    pub budget: Option<CompactionBudget>,
    pub conversation_id: String,
    pub thinking_effort: Option<ThinkingEffort>,
}

/// What a [`TurnCtx`] stands for.
#[verifier::ext_equal]
pub struct TurnCtxView {
    pub specs: Seq<ToolSpecView>,
    pub system_prompt: Seq<char>,
    pub budget: Option<CompactionBudgetView>,
    pub conversation_id: Seq<char>,
    pub thinking_effort: Option<ThinkingEffort>,
}

impl DeepView for TurnCtx {
    type V = TurnCtxView;

    open spec fn deep_view(&self) -> TurnCtxView {
        TurnCtxView {
            specs: self.specs.deep_view(),
            system_prompt: self.system_prompt.deep_view(),
            budget: self.budget.deep_view(),
            conversation_id: self.conversation_id.deep_view(),
            thinking_effort: self.thinking_effort.deep_view(),
        }
    }
}

impl Dup for TurnCtx {
    fn dup(&self) -> (out: Self) {
        TurnCtx {
            specs: self.specs.dup(),
            system_prompt: self.system_prompt.dup(),
            budget: self.budget.dup(),
            conversation_id: self.conversation_id.dup(),
            thinking_effort: self.thinking_effort.dup(),
        }
    }
}

impl Clone for TurnCtx {
    fn clone(&self) -> (out: Self)
        ensures
            out.deep_view() == self.deep_view(),
    {
        self.dup()
    }
}

/// One tool call on its way to the component that owns the tool.
#[derive(Debug, PartialEq, Eq)]
pub struct RoutedToolCall {
    pub tool_call_id: String,
    pub name: String,
    pub input: Json,
}

/// What a [`RoutedToolCall`] stands for.
#[verifier::ext_equal]
pub struct RoutedToolCallView {
    pub tool_call_id: Seq<char>,
    pub name: Seq<char>,
    pub input: JsonView,
}

impl DeepView for RoutedToolCall {
    type V = RoutedToolCallView;

    open spec fn deep_view(&self) -> RoutedToolCallView {
        RoutedToolCallView {
            tool_call_id: self.tool_call_id.deep_view(),
            name: self.name.deep_view(),
            input: self.input.deep_view(),
        }
    }
}

impl Dup for RoutedToolCall {
    fn dup(&self) -> (out: Self) {
        RoutedToolCall {
            tool_call_id: self.tool_call_id.dup(),
            name: self.name.dup(),
            input: self.input.dup(),
        }
    }
}

impl Clone for RoutedToolCall {
    fn clone(&self) -> (out: Self)
        ensures
            out.deep_view() == self.deep_view(),
    {
        self.dup()
    }
}

/// One tool call that was dispatched, kept until it answers.
#[derive(Debug, PartialEq, Eq)]
pub struct DispatchedCall {
    pub id: String,
    pub name: String,
    pub input: Json,
}

/// What a [`DispatchedCall`] stands for.
#[verifier::ext_equal]
pub struct DispatchedCallView {
    pub id: Seq<char>,
    pub name: Seq<char>,
    pub input: JsonView,
}

impl DeepView for DispatchedCall {
    type V = DispatchedCallView;

    open spec fn deep_view(&self) -> DispatchedCallView {
        DispatchedCallView {
            id: self.id.deep_view(),
            name: self.name.deep_view(),
            input: self.input.deep_view(),
        }
    }
}

impl Dup for DispatchedCall {
    fn dup(&self) -> (out: Self) {
        DispatchedCall {
            id: self.id.dup(),
            name: self.name.dup(),
            input: self.input.dup(),
        }
    }
}

impl Clone for DispatchedCall {
    fn clone(&self) -> (out: Self)
        ensures
            out.deep_view() == self.deep_view(),
    {
        self.dup()
    }
}

/// The transient half of an agent's state. Everything here is rebuilt or
/// decided again on recovery, which is why none of it is journaled.
#[derive(Debug, PartialEq, Eq)]
pub struct StepRun {
    /// Whether this agent's session has a runtime to run on.
    pub ready: bool,
    /// The open history marker every callback must name.
    pub marker_seq: Option<u64>,
    /// The job running off the mailbox, if any. This is the busy gate.
    pub running: Option<StepPhase>,
    /// Which stretch of work this is: everything running for an earlier one
    /// has been cancelled.
    pub generation: u64,
    /// What every kind of work runs against.
    pub ctx: Option<TurnCtx>,
    /// Whether it must be rebuilt before the next work runs.
    pub ctx_stale: bool,
    /// The tool calls dispatched and not yet heard back from.
    pub calls: Vec<DispatchedCall>,
    /// Calls that ended the run, collected as the batch settles.
    pub stopped: Vec<StoppedCall>,
    /// What the next turn should say about tool use. Taken when a turn starts,
    /// so it applies to exactly one.
    pub pending_tool_choice: Option<ToolChoice>,
    /// Chunks of the message being written, since the newest log entry.
    pub deltas: Vec<String>,
}

/// What a [`StepRun`] stands for.
#[verifier::ext_equal]
pub struct StepRunView {
    pub ready: bool,
    pub marker_seq: Option<u64>,
    pub running: Option<StepPhase>,
    pub generation: u64,
    pub ctx: Option<TurnCtxView>,
    pub ctx_stale: bool,
    pub calls: Seq<DispatchedCallView>,
    pub stopped: Seq<StoppedCallView>,
    pub pending_tool_choice: Option<ToolChoiceView>,
    pub deltas: Seq<Seq<char>>,
}

impl DeepView for StepRun {
    type V = StepRunView;

    open spec fn deep_view(&self) -> StepRunView {
        StepRunView {
            ready: self.ready.deep_view(),
            marker_seq: self.marker_seq.deep_view(),
            running: self.running.deep_view(),
            generation: self.generation.deep_view(),
            ctx: self.ctx.deep_view(),
            ctx_stale: self.ctx_stale.deep_view(),
            calls: self.calls.deep_view(),
            stopped: self.stopped.deep_view(),
            pending_tool_choice: self.pending_tool_choice.deep_view(),
            deltas: self.deltas.deep_view(),
        }
    }
}

/// The number after this one, from the start again after the last.
pub open spec fn next_generation(n: u64) -> u64 {
    if n == u64::MAX {
        0
    } else {
        (n + 1) as u64
    }
}

impl StepRunView {
    /// Nothing running, nothing prepared.
    pub open spec fn fresh(ready: bool) -> StepRunView {
        StepRunView {
            ready,
            marker_seq: None,
            running: None,
            generation: 0,
            ctx: None,
            ctx_stale: true,
            calls: seq![],
            stopped: seq![],
            pending_tool_choice: None,
            deltas: seq![],
        }
    }

    /// With the foreground slot claimed for an open marker.
    pub open spec fn begun(self, kind: StepPhase, marker_seq: u64) -> StepRunView {
        StepRunView { running: Some(kind), marker_seq: Some(marker_seq), ..self }
    }

    /// Whether a callback for this marker still means anything.
    pub open spec fn live(self, marker_seq: u64) -> bool {
        self.marker_seq == Some(marker_seq)
    }

    /// After the job for this marker reported back; nothing moves when the
    /// report is stale.
    pub open spec fn settled(self, marker_seq: u64) -> StepRunView {
        if self.live(marker_seq) {
            StepRunView { running: None, ..self }
        } else {
            self
        }
    }

    /// With everything stopped.
    pub open spec fn stopped_all(self) -> StepRunView {
        StepRunView {
            generation: next_generation(self.generation),
            marker_seq: None,
            running: None,
            calls: seq![],
            stopped: seq![],
            ctx_stale: true,
            ..self
        }
    }
}

impl StepRun {
    /// Nothing running, nothing prepared.
    pub fn new(ready: bool) -> (r: Self)
        ensures
            r.deep_view() == StepRunView::fresh(ready),
    {
        let r = StepRun {
            ready,
            marker_seq: None,
            running: None,
            generation: 0,
            ctx: None,
            ctx_stale: true,
            calls: Vec::new(),
            stopped: Vec::new(),
            pending_tool_choice: None,
            deltas: Vec::new(),
        };
        proof {
            assert(r.calls.deep_view() =~= seq![]);
            assert(r.stopped.deep_view() =~= seq![]);
            assert(r.deltas.deep_view() =~= seq![]);
        }
        r
    }

    /// Claim the foreground slot for the open history marker. The generation
    /// handed back is what the work is cancelled by.
    pub fn begin(&mut self, kind: StepPhase, marker_seq: u64) -> (r: u64)
        ensures
            final(self).deep_view() == old(self).deep_view().begun(kind, marker_seq),
            r == old(self).generation,
    {
        self.running = Some(kind);
        self.marker_seq = Some(marker_seq);
        self.generation
    }

    /// Whether a callback for this marker still means anything.
    pub fn live(&self, marker_seq: u64) -> (r: bool)
        ensures
            r == self.deep_view().live(marker_seq),
    {
        match self.marker_seq {
            Some(seq) => seq == marker_seq,
            None => false,
        }
    }

    /// The job for this marker reported back. `false`, and nothing moved, when
    /// the report is stale.
    pub fn finished(&mut self, marker_seq: u64) -> (r: bool)
        ensures
            r == old(self).deep_view().live(marker_seq),
            final(self).deep_view() == old(self).deep_view().settled(marker_seq),
    {
        if !self.live(marker_seq) {
            return false;
        }
        self.running = None;
        true
    }

    /// Stop everything and make every callback for the old marker stale.
    pub fn stop(&mut self)
        ensures
            final(self).deep_view() == old(self).deep_view().stopped_all(),
    {
        self.generation = if self.generation == u64::MAX {
            0
        } else {
            self.generation + 1
        };
        self.marker_seq = None;
        self.running = None;
        self.calls = Vec::new();
        self.stopped = Vec::new();
        self.ctx_stale = true;
        proof {
            assert(self.calls.deep_view() =~= seq![]);
            assert(self.stopped.deep_view() =~= seq![]);
        }
    }

    /// One more chunk of the message being written. `false`, and nothing kept,
    /// when the chunk is a straggler.
    pub fn push_delta(&mut self, marker_seq: u64, text: String) -> (r: bool)
        ensures
            r == old(self).deep_view().live(marker_seq),
            final(self).deep_view() == (if r {
                StepRunView {
                    deltas: old(self).deep_view().deltas.push(text@),
                    ..old(self).deep_view()
                }
            } else {
                old(self).deep_view()
            }),
    {
        if !self.live(marker_seq) {
            return false;
        }
        let ghost had = self.deltas.deep_view();
        self.deltas.push(text);
        proof {
            assert(self.deltas.deep_view() =~= had.push(text@));
        }
        true
    }
}

/// Once everything is stopped no callback means anything, whatever marker it
/// names, and what was running belongs to an earlier generation.
pub proof fn law_a_stop_makes_every_callback_stale(run: StepRunView, marker_seq: u64)
    ensures
        !run.stopped_all().live(marker_seq),
        run.stopped_all().generation != run.generation,
        run.stopped_all().running is None,
        run.stopped_all().settled(marker_seq) == run.stopped_all(),
{
}

/// A job that begins is the one its callbacks find, and its report frees the
/// slot.
pub proof fn law_a_report_frees_the_slot(run: StepRunView, kind: StepPhase, marker_seq: u64)
    ensures
        run.begun(kind, marker_seq).live(marker_seq),
        run.begun(kind, marker_seq).settled(marker_seq).running is None,
        forall|other: u64|
            other != marker_seq ==> !(#[trigger] run.begun(kind, marker_seq).live(other)),
{
}

/// What handling one command comes to: the events to journal, and whether to
/// write a snapshot behind them.
#[derive(Debug, PartialEq, Eq)]
pub struct CommandEffect {
    pub events: Vec<AgentDomainEvent>,
    pub snapshot: bool,
}

/// What a [`CommandEffect`] stands for.
#[verifier::ext_equal]
pub struct CommandEffectView {
    pub events: Seq<AgentDomainEventView>,
    pub snapshot: bool,
}

impl DeepView for CommandEffect {
    type V = CommandEffectView;

    open spec fn deep_view(&self) -> CommandEffectView {
        CommandEffectView {
            events: self.events.deep_view(),
            snapshot: self.snapshot.deep_view(),
        }
    }
}

impl CommandEffectView {
    /// Nothing to journal.
    pub open spec fn none() -> CommandEffectView {
        CommandEffectView { events: seq![], snapshot: false }
    }

    /// These events.
    pub open spec fn persist(events: Seq<AgentDomainEventView>) -> CommandEffectView {
        CommandEffectView { events, snapshot: false }
    }

    /// These events, and a snapshot behind them.
    pub open spec fn persist_and_snapshot(events: Seq<AgentDomainEventView>) -> CommandEffectView {
        CommandEffectView { events, snapshot: true }
    }
}

impl CommandEffect {
    /// Nothing to journal.
    pub fn none() -> (r: Self)
        ensures
            r.deep_view() == CommandEffectView::none(),
    {
        let r = CommandEffect { events: Vec::new(), snapshot: false };
        proof {
            assert(r.events.deep_view() =~= seq![]);
        }
        r
    }

    /// Journal these events.
    pub fn persist(events: Vec<AgentDomainEvent>) -> (r: Self)
        ensures
            r.deep_view() == CommandEffectView::persist(events.deep_view()),
    {
        CommandEffect { events, snapshot: false }
    }

    /// And write a snapshot behind them.
    pub fn and_snapshot(self) -> (r: Self)
        ensures
            r.deep_view() == CommandEffectView::persist_and_snapshot(self.deep_view().events),
    {
        CommandEffect { events: self.events, snapshot: true }
    }
}

/// What a routed tool call comes to: the reply its toolbox waits for, and what
/// to journal. No reply is a refusal.
#[derive(Debug, PartialEq, Eq)]
pub struct ToolAnswer {
    pub reply: Option<Result<Json, ToolCallError>>,
    pub effect: CommandEffect,
}

/// What a [`ToolAnswer`] stands for.
#[verifier::ext_equal]
pub struct ToolAnswerView {
    pub reply: Option<Result<JsonView, ToolCallErrorView>>,
    pub effect: CommandEffectView,
}

impl DeepView for ToolAnswer {
    type V = ToolAnswerView;

    open spec fn deep_view(&self) -> ToolAnswerView {
        ToolAnswerView {
            reply: match self.reply {
                Some(Ok(value)) => Some(Ok(value.deep_view())),
                Some(Err(e)) => Some(Err(e.deep_view())),
                None => None,
            },
            effect: self.effect.deep_view(),
        }
    }
}

/// What an executor gives for a call: the value it answers with and the events
/// that record it.
pub type Executed = Result<(Json, Vec<AgentDomainEvent>), ToolCallError>;

/// What an [`Executed`] stands for.
pub type ExecutedView = Result<(JsonView, Seq<AgentDomainEventView>), ToolCallErrorView>;

/// What an [`Executed`] stands for.
pub open spec fn executed_view(executed: Executed) -> ExecutedView {
    match executed {
        Ok((value, events)) => Ok((value.deep_view(), events.deep_view())),
        Err(e) => Err(e.deep_view()),
    }
}

/// Whether a routed call is still owed an answer: it was made and not
/// answered, and the step it was made in is open.
pub open spec fn owed(state: AgentStateView, tool_call_id: Seq<char>) -> bool {
    &&& state.call_is_open(tool_call_id)
    &&& state.open_step() matches Some((_, StepKindView::Agent))
}

/// What a routed call comes to.
pub open spec fn answered(owed: bool, executed: ExecutedView) -> ToolAnswerView {
    if !owed {
        ToolAnswerView { reply: None, effect: CommandEffectView::none() }
    } else {
        match executed {
            Ok((value, events)) => ToolAnswerView {
                reply: Some(Ok(value)),
                effect: CommandEffectView::persist(events),
            },
            Err(e) => ToolAnswerView { reply: Some(Err(e)), effect: CommandEffectView::none() },
        }
    }
}

/// Whether a routed call is still owed an answer.
pub fn is_owed(state: &AgentState, tool_call_id: &str) -> (r: bool)
    ensures
        r == owed(state.deep_view(), tool_call_id@),
{
    if !state.call_is_open(tool_call_id) {
        return false;
    }
    match state.open_step() {
        Some((_, StepKind::Agent)) => true,
        _ => false,
    }
}

/// Answer a routed tool call: the shared shape of every component-owned tool.
///
/// A call from a cancelled marker is refused: the cancel already repaired its
/// dangling `tool_use`, and acting now would leak a side effect. Giving no
/// reply is the refusal.
pub fn answer_tool_call(state: &AgentState, tool_call_id: &str, executed: Executed) -> (r:
    ToolAnswer)
    ensures
        r.deep_view() == answered(
            owed(state.deep_view(), tool_call_id@),
            executed_view(executed),
        ),
{
    if !is_owed(state, tool_call_id) {
        return ToolAnswer { reply: None, effect: CommandEffect::none() };
    }
    match executed {
        Ok((value, events)) => ToolAnswer {
            reply: Some(Ok(value)),
            effect: CommandEffect::persist(events),
        },
        Err(e) => ToolAnswer { reply: Some(Err(e)), effect: CommandEffect::none() },
    }
}

/// What a tool call produced.
#[derive(Debug, PartialEq, Eq)]
pub struct ToolValue {
    pub value: Json,
    pub artifacts: Vec<ArtifactRef>,
}

/// What a [`ToolValue`] stands for.
#[verifier::ext_equal]
pub struct ToolValueView {
    pub value: JsonView,
    pub artifacts: Seq<ArtifactRefView>,
}

impl DeepView for ToolValue {
    type V = ToolValueView;

    open spec fn deep_view(&self) -> ToolValueView {
        ToolValueView {
            value: self.value.deep_view(),
            artifacts: self.artifacts.deep_view(),
        }
    }
}

impl Dup for ToolValue {
    fn dup(&self) -> (out: Self) {
        ToolValue {
            value: self.value.dup(),
            artifacts: self.artifacts.dup(),
        }
    }
}

impl Clone for ToolValue {
    fn clone(&self) -> (out: Self)
        ensures
            out.deep_view() == self.deep_view(),
    {
        self.dup()
    }
}

/// What is said to a tool call whose turn is over.
pub const TURN_OVER: &'static str = "the agent is no longer running this turn";

/// What a routed call gives the run that made it. No reply reads as "this turn
/// is over": the agent is gone, or refused the marker.
pub fn routed_outcome(reply: Option<Result<Json, ToolCallError>>) -> (r: Result<
    ToolValue,
    ToolCallError,
>)
    ensures
        match reply {
            Some(Ok(value)) => r matches Ok(out) && out.deep_view() == (ToolValueView {
                value: value.deep_view(),
                artifacts: seq![],
            }),
            Some(Err(e)) => r matches Err(out) && out == e,
            None => r matches Err(out) && out.deep_view() == ToolCallErrorView::ExecutionFailed(
                TURN_OVER@,
            ),
        },
{
    match reply {
        Some(Ok(value)) => {
            let artifacts: Vec<ArtifactRef> = Vec::new();
            proof {
                assert(artifacts.deep_view() =~= seq![]);
            }
            Ok(ToolValue { value, artifacts })
        },
        Some(Err(e)) => Err(e),
        None => Err(ToolCallError::ExecutionFailed(TURN_OVER.to_owned())),
    }
}

/// A call that is no longer owed an answer journals nothing and is not replied
/// to.
pub proof fn law_a_stale_call_is_refused(
    state: AgentStateView,
    tool_call_id: Seq<char>,
    executed: ExecutedView,
)
    requires
        !owed(state, tool_call_id),
    ensures
        answered(owed(state, tool_call_id), executed).reply is None,
        answered(owed(state, tool_call_id), executed).effect.events.len() == 0,
{
}

/// An owed call that ran replies with its value and writes its events; one
/// that failed replies with its failure and writes nothing.
pub proof fn law_an_owed_call_is_answered(
    value: JsonView,
    events: Seq<AgentDomainEventView>,
    e: ToolCallErrorView,
)
    ensures
        answered(true, Ok((value, events))).reply == Some(Ok::<JsonView, ToolCallErrorView>(value)),
        answered(true, Ok((value, events))).effect.events == events,
        !answered(true, Ok((value, events))).effect.snapshot,
        answered(true, Err(e)).reply == Some(Err::<JsonView, ToolCallErrorView>(e)),
        answered(true, Err(e)).effect.events.len() == 0,
{
}

/// A call is owed an answer exactly while it is unanswered and the agent's own
/// step is open.
pub proof fn law_a_call_is_owed_while_its_step_runs(
    state: AgentStateView,
    id: Seq<char>,
    marker_seq: u64,
)
    ensures
        state.open_step() == Some((marker_seq, StepKindView::Agent)) ==> (owed(state, id)
            <==> state.call_is_open(id)),
        state.open_step() is None ==> !owed(state, id),
        state.open_step() matches Some((_, kind)) && !(kind is Agent) ==> !owed(state, id),
{
}

/// Starting a step takes the slot for its marker and changes nothing else; a
/// report of that step frees the slot and keeps the rest, and a report of any
/// other is no news. Stopping forgets the calls and what was prepared, and
/// keeps only what waits to be chosen and said.
pub proof fn law_a_step_holds_its_slot(
    run: StepRunView,
    kind: StepPhase,
    marker_seq: u64,
    other: u64,
)
    requires
        other != marker_seq,
    ensures
        run.begun(kind, marker_seq) == (StepRunView {
            running: Some(kind),
            marker_seq: Some(marker_seq),
            ..run
        }),
        run.begun(kind, marker_seq).settled(marker_seq) == (StepRunView {
            running: None,
            marker_seq: Some(marker_seq),
            ..run
        }),
        run.begun(kind, marker_seq).settled(other) == run.begun(kind, marker_seq),
        run.stopped_all().calls.len() == 0,
        run.stopped_all().stopped.len() == 0,
        run.stopped_all().ctx_stale,
        run.stopped_all().ready == run.ready,
        run.stopped_all().ctx == run.ctx,
        run.stopped_all().pending_tool_choice == run.pending_tool_choice,
        run.generation < u64::MAX ==> run.stopped_all().generation == run.generation + 1,
{
}

/// A fresh runner runs nothing, has nothing prepared and waits on nothing.
pub proof fn law_a_fresh_runner_holds_nothing(ready: bool)
    ensures
        ({
            let run = StepRunView::fresh(ready);
            &&& run.ready == ready
            &&& run.running is None && run.marker_seq is None
            &&& run.ctx is None && run.ctx_stale
            &&& run.calls.len() == 0 && run.stopped.len() == 0
            &&& run.pending_tool_choice is None
            &&& run.deltas.len() == 0
        }),
{
}

} // verus!
