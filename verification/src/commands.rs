//! What an agent can be told.
//!
//! One group for each component, so that routing is one line for each. Commands
//! are never journaled; only the events they decide are. Where a command is
//! answered, the answer goes back on a channel that whoever delivers the
//! command holds beside it.

use crate::components::queue::inbox;
use crate::component::{RoutedToolCall, TurnCtx};
use crate::components::queue::inbox::Incoming;
use crate::components::turn::{LlmFailure, StepResponse};
use crate::context::ContextError;
use crate::events::{AgentDomainEvent, StopHookOutcome};
use crate::ids::SessionId;
use crate::inbox::AskAnswer;
use crate::model::{ArtifactRef, CompactionTrigger, HookRecord, LifecycleEvent, Message, Usage};
use crate::state::AgentState;
use crate::timers::TimerId;
use vstd::prelude::*;

verus! {

/// Something an agent is told.
#[derive(Debug, PartialEq, Eq)]
pub enum AgentCommand {
    /// What this agent has been asked to answer.
    Queue(QueueCommand),
    /// The turn in flight: what it writes and reports.
    Run(RunCommand),
    /// Timers this agent has armed against itself.
    Timer(TimerCommand),
    /// The agent's own task list.
    TaskList(TaskListCommand),
    /// The setup before work.
    Provision(ProvisionCommand),
    /// Folding old history behind a summary boundary.
    Compaction(CompactionCommand),
    /// Questions answered from state, which wake nothing.
    Read(ReadCommand),
    /// Things written into this agent's log by somebody else.
    Log(LogCommand),
    /// Being read as a starting point, and being started from one.
    Seed(SeedCommand),
    /// The agent's own lifetime.
    Core(CoreCommand),
}

/// What this agent has been asked to answer.
#[derive(Debug, PartialEq, Eq)]
pub enum QueueCommand {
    /// Something addressed to this agent, durable before anything is done with
    /// it.
    Enqueue { item: Incoming },
    /// Answer every question this agent is parked on, at once.
    Answer { answers: Vec<AskAnswer> },
    /// A turn's pre-start hooks finished.
    StartPrepared(Box<PreparedStart>),
}

/// What the turn's own spawned work reports back.
#[derive(Debug, PartialEq, Eq)]
pub enum RunCommand {
    /// One provider call finished.
    StepDone { marker_seq: u64, response: Box<StepResponse> },
    /// One provider call failed.
    StepFailed { marker_seq: u64, error: LlmFailure },
    /// One chunk of the message a step is streaming.
    StreamDelta { marker_seq: u64, text: String },
    /// The stop hook of one step completed or timed out.
    StopHookDone { marker_seq: u64, result: StopHookOutcome },
    /// Events to journal outside a step's own handler.
    PersistProgress { events: Vec<AgentDomainEvent> },
}

/// What a dispatched tool call came back with.
#[derive(Debug, PartialEq, Eq)]
pub enum ToolReturn {
    /// An ordinary result, an error among them.
    Result { output: String, is_error: bool, artifacts: Vec<ArtifactRef> },
    /// The call ended the run; the dangling call is the shape of a parked agent.
    Stopped,
}

/// Timers this agent has armed against itself.
#[derive(Debug, PartialEq, Eq)]
pub enum TimerCommand {
    /// One of the timer tools was routed here.
    ToolCall(RoutedToolCall),
    /// A timer's sleep elapsed.
    TimerFired { id: TimerId },
}

/// The agent's own task list.
#[derive(Debug, PartialEq, Eq)]
pub enum TaskListCommand {
    /// The `task_list` tool was routed here.
    ToolCall(RoutedToolCall),
}

/// The setup before work.
#[derive(Debug, PartialEq, Eq)]
pub enum ProvisionCommand {
    /// The spawned setup finished.
    Provided(Box<ProvidedOutcome>),
}

/// What the spawned setup produced.
#[derive(Debug, PartialEq, Eq)]
pub struct ProvidedOutcome {
    pub marker_seq: u64,
    pub initializing: bool,
    pub outcome: Result<Box<TurnCtx>, ContextError>,
}

/// Folding old history behind a summary boundary.
#[derive(Debug, PartialEq, Eq)]
pub enum CompactionCommand {
    /// The spawned compaction run finished.
    Landed(Box<CompactLanding>),
}

/// What a compaction run needs and only its requester knows.
#[derive(Debug, PartialEq, Eq)]
pub struct CompactJob {
    /// Queue items this compaction answers; none when nobody asked for it.
    pub consumed: Vec<String>,
    pub manual: bool,
    pub instructions: Option<String>,
    /// The last provider call's prompt size.
    pub tokens_before: u32,
}

/// What the spawned compaction run produced.
#[derive(Debug, PartialEq, Eq)]
pub struct CompactLanding {
    pub marker_seq: u64,
    /// The queue items to cross off, journaled with the result.
    pub consumed: Vec<String>,
    /// What the summarising call spent, when one was made.
    pub usage: Option<Usage>,
    pub outcome: CompactOutcome,
}

/// What a compaction came to.
#[derive(Debug, PartialEq, Eq)]
pub enum CompactOutcome {
    /// A boundary to journal.
    Compacted(Box<CompactedData>),
    /// Nothing was folded. `notice` says whether to tell the user.
    Skipped { notice: bool, context_tokens: u32, retain_tokens: Option<u32> },
}

/// A compaction boundary, ready to journal.
#[derive(Debug, PartialEq, Eq)]
pub struct CompactedData {
    pub summary: String,
    pub carried_state: String,
    pub retained_from_message_id: Option<String>,
    pub trigger: CompactionTrigger,
    pub instructions: Option<String>,
    pub tokens_before: u32,
    pub tokens_after: u32,
}

/// Questions answered from state, which wake nothing. Where in the log a
/// question starts, and what it leaves out, travels with whoever asks it.
#[derive(Debug, PartialEq, Eq)]
pub enum ReadCommand {
    /// Read forward from a position.
    ReadLog,
    /// Read a bounded window at an anchor.
    PageLog { max: usize },
    /// Find where in this log something was said.
    SearchLog { needle: String, max: usize },
    /// Where the entry carrying this id stands.
    SeqOfId { id: String },
    /// Where this agent's log stands.
    LogHead,
    /// What this agent has used.
    GetUsage,
    /// This agent's current values.
    GetState,
}

/// Things written into this agent's log by somebody else.
#[derive(Debug, PartialEq, Eq)]
pub enum LogCommand {
    /// Record something that happened to the session.
    RecordLifecycle { event: LifecycleEvent, at_ms: u64 },
    /// Plugin hooks ran against one of this agent's tool calls.
    HooksRan { records: Vec<HookRecord> },
}

/// Being read as a starting point, and being started from one.
#[derive(Debug, PartialEq, Eq)]
pub enum SeedCommand {
    /// This agent's state as a starting point, cut at `at_seq`.
    Snapshot { at_seq: u64 },
    /// Adopt `state` as this agent's whole history, append `seed` after it, and
    /// queue `message`, in one write.
    SeedFrom { state: Box<AgentState>, seed: Option<Box<Message>>, message: Incoming },
    /// The spawned summary run finished.
    SummaryTaken {
        marker_seq: u64,
        consumed: Vec<String>,
        sub_sessions: Vec<SessionId>,
        result: Result<String, String>,
        usage: Option<Usage>,
    },
}

/// The agent's own lifetime.
#[derive(Debug, PartialEq, Eq)]
pub enum CoreCommand {
    /// One dispatched tool call answered.
    ToolReturned { marker_seq: u64, tool_call_id: String, outcome: ToolReturn },
    /// Reconsider what this agent should be doing.
    Advance,
    /// Stop whatever is in flight.
    Cancel,
    /// Stop the agent.
    Shutdown,
}

/// A turn whose pre-start hooks have run.
#[derive(Debug, PartialEq, Eq)]
pub struct PreparedStart {
    /// The open marker the hooks prepare.
    pub marker_seq: u64,
    pub turn: inbox::Turn,
    /// Records to journal before the turn reads its history.
    pub records: Vec<HookRecord>,
    /// `Some` abandons the turn.
    pub abandon: Option<AbandonedStart>,
}

/// Why a prepared turn never ran.
#[derive(Debug, PartialEq, Eq)]
pub enum AbandonedStart {
    /// A hook refused the prompt, and would refuse it again.
    Blocked(String),
    /// Preparation could not complete.
    Failed(ContextError),
}

/// Who decides what a command means.
#[derive(Debug, Clone, Copy, PartialEq, Eq, Structural)]
pub enum Handler {
    Queue,
    Turn,
    Timers,
    Reads,
    Log,
    Seeding,
    TaskLists,
    Provision,
    Compaction,
    /// The agent itself: decisions that are no component's.
    Agent,
    /// Nobody: the agent stops.
    Stop,
}

impl AgentCommand {
    /// Who decides what this command means. The stop hook's report and the
    /// agent's own lifetime are the agent's; every other group is its
    /// component's.
    pub open spec fn handled_by(self) -> Handler {
        match self {
            AgentCommand::Queue(_) => Handler::Queue,
            AgentCommand::Run(RunCommand::StopHookDone { .. }) => Handler::Agent,
            AgentCommand::Run(_) => Handler::Turn,
            AgentCommand::Timer(_) => Handler::Timers,
            AgentCommand::Read(_) => Handler::Reads,
            AgentCommand::Log(_) => Handler::Log,
            AgentCommand::Seed(_) => Handler::Seeding,
            AgentCommand::TaskList(_) => Handler::TaskLists,
            AgentCommand::Provision(_) => Handler::Provision,
            AgentCommand::Compaction(_) => Handler::Compaction,
            AgentCommand::Core(CoreCommand::Shutdown) => Handler::Stop,
            AgentCommand::Core(_) => Handler::Agent,
        }
    }

    /// Who decides what this command means.
    pub fn handler(&self) -> (r: Handler)
        ensures
            r == self.handled_by(),
    {
        match self {
            AgentCommand::Queue(_) => Handler::Queue,
            AgentCommand::Run(RunCommand::StopHookDone { .. }) => Handler::Agent,
            AgentCommand::Run(_) => Handler::Turn,
            AgentCommand::Timer(_) => Handler::Timers,
            AgentCommand::Read(_) => Handler::Reads,
            AgentCommand::Log(_) => Handler::Log,
            AgentCommand::Seed(_) => Handler::Seeding,
            AgentCommand::TaskList(_) => Handler::TaskLists,
            AgentCommand::Provision(_) => Handler::Provision,
            AgentCommand::Compaction(_) => Handler::Compaction,
            AgentCommand::Core(CoreCommand::Shutdown) => Handler::Stop,
            AgentCommand::Core(_) => Handler::Agent,
        }
    }
}

/// Every command has one handler: the component it is of; what concerns the
/// agent as a whole is the agent's own, and a shutdown stops it.
pub proof fn law_a_command_goes_to_its_component(cmd: AgentCommand)
    ensures
        cmd is Queue <==> cmd.handled_by() == Handler::Queue,
        cmd is Timer <==> cmd.handled_by() == Handler::Timers,
        cmd is Read <==> cmd.handled_by() == Handler::Reads,
        cmd is Log <==> cmd.handled_by() == Handler::Log,
        cmd is Seed <==> cmd.handled_by() == Handler::Seeding,
        cmd is TaskList <==> cmd.handled_by() == Handler::TaskLists,
        cmd is Provision <==> cmd.handled_by() == Handler::Provision,
        cmd is Compaction <==> cmd.handled_by() == Handler::Compaction,
        cmd matches AgentCommand::Run(run) && !(run is StopHookDone) ==> cmd.handled_by()
            == Handler::Turn,
        cmd matches AgentCommand::Run(run) && run is StopHookDone ==> cmd.handled_by()
            == Handler::Agent,
        cmd matches AgentCommand::Core(core) && core is Shutdown <==> cmd.handled_by()
            == Handler::Stop,
        cmd matches AgentCommand::Core(core) && !(core is Shutdown) ==> cmd.handled_by()
            == Handler::Agent,
{
}

} // verus!
