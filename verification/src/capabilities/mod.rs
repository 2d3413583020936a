//! What an agent can do, held by the agent that does it.
//!
//! A capability is one thing an agent can do: ask the person, spawn a worker,
//! name the session, keep a task list. What it may do is decided when the agent
//! is equipped and is held in [`Capabilities`]; what it has done is folded from
//! the agent's own events and is held in [`state::CapabilityState`].
//!
//! What is left for the session is asked for with a [`SessionRequest`] and
//! answered with a [`SessionReply`]: one request and one answer.

use crate::capabilities::ask_user::AskUserCapability;
use crate::capabilities::budget::TokenBudgetCapability;
use crate::capabilities::claims::{
    Answering, AnsweringView, CapCommand, CapCommandView, ClaimView, ClaimedTool, ClaimedToolView,
    claimed, claiming,
};
use crate::capabilities::control_plane::ControlPlaneCapability;
use crate::capabilities::decision::{Decision, DecisionView, Msg, MsgView};
use crate::capabilities::fork::{ForkCapability, ForkCapabilityView};
use crate::capabilities::mcp::{McpCapability, McpCapabilityView};
use crate::capabilities::memory::{MemoryCapability, MemoryCapabilityView};
use crate::capabilities::runtime::{RuntimeCapability, RuntimeCapabilityView};
use crate::capabilities::state::{CapabilityState, CapabilityStateView};
use crate::capabilities::step_result::{StepResultCapability, StepResultCapabilityView};
use crate::capabilities::sub_agent::{SubAgentCapability, SubAgentCapabilityView};
use crate::capabilities::task_list::TaskListCapability;
use crate::capabilities::timers::TimersCapability;
use crate::capabilities::title::TitleCapability;
use crate::capabilities::workflow::WorkflowCapability;
use crate::ids::{AgentId, RunnerId, RunnerKind};
use crate::json::{Json, JsonView};
use crate::lists;
use crate::model::{ToolSpec, ToolSpecView};
use crate::runners::{AgentFacts, AgentFactsView, RunnerArgs, RunnerArgsView};
use crate::text::{Dup, same};
use vstd::prelude::*;

pub mod ask_user;
pub mod budget;
pub mod claims;
pub mod control_plane;
pub mod decision;
pub mod fork;
pub mod loading;
pub mod mcp;
pub mod memory;
pub mod reports;
pub mod runtime;
pub mod state;
pub mod step_declaration;
pub mod step_result;
pub mod sub_agent;
pub mod task_list;
pub mod timers;
pub mod title;
pub mod workflow;

verus! {

/// What a capability can ask the session for.
#[derive(Debug, PartialEq, Eq)]
pub enum SessionRequest {
    /// Create a child runner. `call` is what asked for it and also what a
    /// repeated request is recognised by.
    StartRunner { call: String, id: RunnerId, kind: RunnerKind, args: Box<RunnerArgs> },
    /// Stop an agent's run.
    Cancel { call: String, agent: AgentId },
    /// Name the session this agent belongs to.
    SetTitle { call: String, title: String },
}

/// What a [`SessionRequest`] stands for.
#[verifier::ext_equal]
pub enum SessionRequestView {
    StartRunner { call: Seq<char>, id: RunnerId, kind: RunnerKind, args: RunnerArgsView },
    Cancel { call: Seq<char>, agent: AgentId },
    SetTitle { call: Seq<char>, title: Seq<char> },
}

impl DeepView for SessionRequest {
    type V = SessionRequestView;

    open spec fn deep_view(&self) -> SessionRequestView {
        match self {
            SessionRequest::StartRunner { call, id, kind, args } => SessionRequestView::StartRunner {
                call: call.deep_view(),
                id: id.deep_view(),
                kind: kind.deep_view(),
                args: args.deep_view(),
            },
            SessionRequest::Cancel { call, agent } => SessionRequestView::Cancel {
                call: call.deep_view(),
                agent: agent.deep_view(),
            },
            SessionRequest::SetTitle { call, title } => SessionRequestView::SetTitle {
                call: call.deep_view(),
                title: title.deep_view(),
            },
        }
    }
}

impl Dup for SessionRequest {
    fn dup(&self) -> (out: Self) {
        match self {
            SessionRequest::StartRunner { call, id, kind, args } => SessionRequest::StartRunner {
                call: call.dup(),
                id: id.dup(),
                kind: kind.dup(),
                args: args.dup(),
            },
            SessionRequest::Cancel { call, agent } => SessionRequest::Cancel {
                call: call.dup(),
                agent: agent.dup(),
            },
            SessionRequest::SetTitle { call, title } => SessionRequest::SetTitle {
                call: call.dup(),
                title: title.dup(),
            },
        }
    }
}

impl Clone for SessionRequest {
    fn clone(&self) -> (out: Self)
        ensures
            out.deep_view() == self.deep_view(),
    {
        self.dup()
    }
}

impl SessionRequestView {
    /// The call this request answers to.
    pub open spec fn call(self) -> Seq<char> {
        match self {
            SessionRequestView::StartRunner { call, .. } => call,
            SessionRequestView::Cancel { call, .. } => call,
            SessionRequestView::SetTitle { call, .. } => call,
        }
    }
}

impl SessionRequest {
    /// The call this request answers to.
    pub fn call(&self) -> (r: &str)
        ensures
            r@ == self.deep_view().call(),
    {
        match self {
            SessionRequest::StartRunner { call, .. } => call.as_str(),
            SessionRequest::Cancel { call, .. } => call.as_str(),
            SessionRequest::SetTitle { call, .. } => call.as_str(),
        }
    }
}

/// What the session said. A refusal is one of its answers rather than an
/// error: whoever asked for a child and was told no has to answer the model.
#[derive(Debug, PartialEq, Eq)]
pub enum SessionReply {
    Done { call: String },
    Refused { call: String, reason: String },
}

/// What a [`SessionReply`] stands for.
#[verifier::ext_equal]
pub enum SessionReplyView {
    Done { call: Seq<char> },
    Refused { call: Seq<char>, reason: Seq<char> },
}

impl DeepView for SessionReply {
    type V = SessionReplyView;

    open spec fn deep_view(&self) -> SessionReplyView {
        match self {
            SessionReply::Done { call } => SessionReplyView::Done {
                call: call.deep_view(),
            },
            SessionReply::Refused { call, reason } => SessionReplyView::Refused {
                call: call.deep_view(),
                reason: reason.deep_view(),
            },
        }
    }
}

impl Dup for SessionReply {
    fn dup(&self) -> (out: Self) {
        match self {
            SessionReply::Done { call } => SessionReply::Done {
                call: call.dup(),
            },
            SessionReply::Refused { call, reason } => SessionReply::Refused {
                call: call.dup(),
                reason: reason.dup(),
            },
        }
    }
}

impl Clone for SessionReply {
    fn clone(&self) -> (out: Self)
        ensures
            out.deep_view() == self.deep_view(),
    {
        self.dup()
    }
}

impl SessionReplyView {
    /// The call this reply answers.
    pub open spec fn call(self) -> Seq<char> {
        match self {
            SessionReplyView::Done { call } => call,
            SessionReplyView::Refused { call, .. } => call,
        }
    }
}

impl SessionReply {
    /// The call this reply answers.
    pub fn call(&self) -> (r: &str)
        ensures
            r@ == self.deep_view().call(),
    {
        match self {
            SessionReply::Done { call } => call.as_str(),
            SessionReply::Refused { call, .. } => call.as_str(),
        }
    }
}

/// A paragraph of an agent's system prompt, and the key it is held under.
#[derive(Debug, PartialEq, Eq)]
pub struct PromptSection {
    pub key: &'static str,
    pub body: String,
}

/// What a [`PromptSection`] stands for.
#[verifier::ext_equal]
pub struct PromptSectionView {
    pub key: Seq<char>,
    pub body: Seq<char>,
}

impl DeepView for PromptSection {
    type V = PromptSectionView;

    open spec fn deep_view(&self) -> PromptSectionView {
        PromptSectionView {
            key: self.key@,
            body: self.body.deep_view(),
        }
    }
}

impl Dup for PromptSection {
    fn dup(&self) -> (out: Self) {
        PromptSection {
            key: self.key,
            body: self.body.dup(),
        }
    }
}

impl Clone for PromptSection {
    fn clone(&self) -> (out: Self)
        ensures
            out.deep_view() == self.deep_view(),
    {
        self.dup()
    }
}

/// Why a capability could not equip the agent. Whether that stops the turn is
/// the capability's own call.
#[derive(Debug, PartialEq, Eq)]
pub struct SetupError {
    pub capability: &'static str,
    pub reason: String,
    pub fatal: bool,
}

/// What a [`SetupError`] stands for.
#[verifier::ext_equal]
pub struct SetupErrorView {
    pub capability: Seq<char>,
    pub reason: Seq<char>,
    pub fatal: bool,
}

impl DeepView for SetupError {
    type V = SetupErrorView;

    open spec fn deep_view(&self) -> SetupErrorView {
        SetupErrorView {
            capability: self.capability@,
            reason: self.reason.deep_view(),
            fatal: self.fatal.deep_view(),
        }
    }
}

impl Dup for SetupError {
    fn dup(&self) -> (out: Self) {
        SetupError {
            capability: self.capability,
            reason: self.reason.dup(),
            fatal: self.fatal.dup(),
        }
    }
}

impl Clone for SetupError {
    fn clone(&self) -> (out: Self)
        ensures
            out.deep_view() == self.deep_view(),
    {
        self.dup()
    }
}

impl SetupError {
    /// The failure in words.
    pub fn text(&self) -> (r: String)
        ensures
            r@ == self.capability@ + " could not equip the agent: "@ + self.reason@,
    {
        let mut out = self.capability.to_owned();
        out.append(" could not equip the agent: ");
        out.append(self.reason.as_str());
        out
    }
}

/// One thing an agent can do.
#[derive(Debug, PartialEq, Eq)]
pub enum Capability {
    AskUser(AskUserCapability),
    Title(TitleCapability),
    Fork(ForkCapability),
    SubAgent(SubAgentCapability),
    Workflow(WorkflowCapability),
    StepResult(StepResultCapability),
    TaskList(TaskListCapability),
    Timers(TimersCapability),
    TokenBudget(TokenBudgetCapability),
    ControlPlane(ControlPlaneCapability),
    Memory(MemoryCapability),
    Mcp(McpCapability),
    Runtime(RuntimeCapability),
}

/// What a [`Capability`] stands for.
#[verifier::ext_equal]
pub enum CapabilityView {
    AskUser(AskUserCapability),
    Title(TitleCapability),
    Fork(ForkCapabilityView),
    SubAgent(SubAgentCapabilityView),
    Workflow(WorkflowCapability),
    StepResult(StepResultCapabilityView),
    TaskList(TaskListCapability),
    Timers(TimersCapability),
    TokenBudget(TokenBudgetCapability),
    ControlPlane(ControlPlaneCapability),
    Memory(MemoryCapabilityView),
    Mcp(McpCapabilityView),
    Runtime(RuntimeCapabilityView),
}

impl DeepView for Capability {
    type V = CapabilityView;

    open spec fn deep_view(&self) -> CapabilityView {
        match self {
            Capability::AskUser(a) => CapabilityView::AskUser(a.deep_view()),
            Capability::Title(a) => CapabilityView::Title(a.deep_view()),
            Capability::Fork(a) => CapabilityView::Fork(a.deep_view()),
            Capability::SubAgent(a) => CapabilityView::SubAgent(a.deep_view()),
            Capability::Workflow(a) => CapabilityView::Workflow(a.deep_view()),
            Capability::StepResult(a) => CapabilityView::StepResult(a.deep_view()),
            Capability::TaskList(a) => CapabilityView::TaskList(a.deep_view()),
            Capability::Timers(a) => CapabilityView::Timers(a.deep_view()),
            Capability::TokenBudget(a) => CapabilityView::TokenBudget(a.deep_view()),
            Capability::ControlPlane(a) => CapabilityView::ControlPlane(a.deep_view()),
            Capability::Memory(a) => CapabilityView::Memory(a.deep_view()),
            Capability::Mcp(a) => CapabilityView::Mcp(a.deep_view()),
            Capability::Runtime(a) => CapabilityView::Runtime(a.deep_view()),
        }
    }
}

impl Dup for Capability {
    fn dup(&self) -> (out: Self) {
        match self {
            Capability::AskUser(a) => Capability::AskUser(a.dup()),
            Capability::Title(a) => Capability::Title(a.dup()),
            Capability::Fork(a) => Capability::Fork(a.dup()),
            Capability::SubAgent(a) => Capability::SubAgent(a.dup()),
            Capability::Workflow(a) => Capability::Workflow(a.dup()),
            Capability::StepResult(a) => Capability::StepResult(a.dup()),
            Capability::TaskList(a) => Capability::TaskList(a.dup()),
            Capability::Timers(a) => Capability::Timers(a.dup()),
            Capability::TokenBudget(a) => Capability::TokenBudget(a.dup()),
            Capability::ControlPlane(a) => Capability::ControlPlane(a.dup()),
            Capability::Memory(a) => Capability::Memory(a.dup()),
            Capability::Mcp(a) => Capability::Mcp(a.dup()),
            Capability::Runtime(a) => Capability::Runtime(a.dup()),
        }
    }
}

impl Clone for Capability {
    fn clone(&self) -> (out: Self)
        ensures
            out.deep_view() == self.deep_view(),
    {
        self.dup()
    }
}

/// Which thing a capability is, without its settings.
#[derive(Debug, Clone, Copy, PartialEq, Eq, Structural)]
pub enum CapabilityKind {
    AskUser,
    Title,
    Fork,
    SubAgent,
    Workflow,
    StepResult,
    TaskList,
    Timers,
    TokenBudget,
    ControlPlane,
    Memory,
    Mcp,
    Runtime,
}

impl CapabilityView {
    /// Which thing this is.
    pub open spec fn kind(self) -> CapabilityKind {
        match self {
            CapabilityView::AskUser(_) => CapabilityKind::AskUser,
            CapabilityView::Title(_) => CapabilityKind::Title,
            CapabilityView::Fork(_) => CapabilityKind::Fork,
            CapabilityView::SubAgent(_) => CapabilityKind::SubAgent,
            CapabilityView::Workflow(_) => CapabilityKind::Workflow,
            CapabilityView::StepResult(_) => CapabilityKind::StepResult,
            CapabilityView::TaskList(_) => CapabilityKind::TaskList,
            CapabilityView::Timers(_) => CapabilityKind::Timers,
            CapabilityView::TokenBudget(_) => CapabilityKind::TokenBudget,
            CapabilityView::ControlPlane(_) => CapabilityKind::ControlPlane,
            CapabilityView::Memory(_) => CapabilityKind::Memory,
            CapabilityView::Mcp(_) => CapabilityKind::Mcp,
            CapabilityView::Runtime(_) => CapabilityKind::Runtime,
        }
    }

    /// What a diagnostic names this capability by.
    pub open spec fn name(self) -> Seq<char> {
        match self {
            CapabilityView::AskUser(_) => "ask_user"@,
            CapabilityView::Title(_) => "title"@,
            CapabilityView::Fork(_) => "fork"@,
            CapabilityView::SubAgent(_) => "sub_agent"@,
            CapabilityView::Workflow(_) => "workflow"@,
            CapabilityView::StepResult(_) => "step_result"@,
            CapabilityView::TaskList(_) => "task_list"@,
            CapabilityView::Timers(_) => "timers"@,
            CapabilityView::TokenBudget(_) => "token_budget"@,
            CapabilityView::ControlPlane(_) => "control_plane"@,
            CapabilityView::Memory(_) => "memory"@,
            CapabilityView::Mcp(_) => "mcp"@,
            CapabilityView::Runtime(_) => "runtime"@,
        }
    }

    /// The tools this capability claims. One whose tools answer on the agent's
    /// own task, and one with no tool at all, claims none.
    pub open spec fn claims(self, facts: AgentFactsView) -> Seq<ClaimedToolView> {
        match self {
            CapabilityView::AskUser(c) => crate::capabilities::ask_user::ask_claims(c.mute),
            CapabilityView::Title(_) => crate::capabilities::title::title_claims(),
            CapabilityView::SubAgent(c) => crate::capabilities::sub_agent::spawn_claims(c, facts),
            CapabilityView::Workflow(_) => crate::capabilities::workflow::workflow_claims(),
            CapabilityView::StepResult(c) => crate::capabilities::step_result::step_claims(c),
            CapabilityView::TaskList(_) => crate::capabilities::task_list::task_list_claims(),
            CapabilityView::Timers(_) => crate::capabilities::timers::timer_claims(),
            _ => seq![],
        }
    }

    /// What a compaction would lose of this capability unless it is carried.
    pub open spec fn carried_state(self, state: CapabilityStateView) -> Option<Seq<char>> {
        match self {
            CapabilityView::TaskList(_) => crate::capabilities::task_list::list_carried(state.task_list),
            CapabilityView::Timers(_) => if state.timers.len() == 0 {
                None
            } else {
                Some(crate::timers::carried_block(state.timers))
            },
            _ => None,
        }
    }

    /// What this capability answers a command with, if it is its own.
    pub open spec fn command(self, cmd: CapCommandView) -> Option<DecisionView> {
        match self {
            CapabilityView::AskUser(c) => match cmd {
                CapCommandView::AskUser(ask_user::CommandView::Ask { input }, to) => Some(
                    crate::capabilities::ask_user::asking(c.mute, to.call, input),
                ),
                _ => None,
            },
            CapabilityView::StepResult(c) => match cmd {
                CapCommandView::StepResult(step_result::CommandView::Submit { input }, to) => Some(
                    crate::capabilities::step_result::submission(c, to.call, input),
                ),
                _ => None,
            },
            _ => None,
        }
    }

    /// What this capability makes of a message, if it concerns it.
    pub open spec fn handle(self, state: CapabilityStateView, msg: MsgView) -> Option<DecisionView> {
        match self {
            CapabilityView::AskUser(_) => crate::capabilities::ask_user::ask_user_handles(state.ask_user, msg),
            _ => None,
        }
    }
}

impl Capability {
    /// Which thing this is.
    fn kind(&self) -> (r: CapabilityKind)
        ensures
            r == self.deep_view().kind(),
    {
        match self {
            Capability::AskUser(_) => CapabilityKind::AskUser,
            Capability::Title(_) => CapabilityKind::Title,
            Capability::Fork(_) => CapabilityKind::Fork,
            Capability::SubAgent(_) => CapabilityKind::SubAgent,
            Capability::Workflow(_) => CapabilityKind::Workflow,
            Capability::StepResult(_) => CapabilityKind::StepResult,
            Capability::TaskList(_) => CapabilityKind::TaskList,
            Capability::Timers(_) => CapabilityKind::Timers,
            Capability::TokenBudget(_) => CapabilityKind::TokenBudget,
            Capability::ControlPlane(_) => CapabilityKind::ControlPlane,
            Capability::Memory(_) => CapabilityKind::Memory,
            Capability::Mcp(_) => CapabilityKind::Mcp,
            Capability::Runtime(_) => CapabilityKind::Runtime,
        }
    }

    /// What a diagnostic names this capability by.
    pub fn name(&self) -> (r: &'static str)
        ensures
            r@ == self.deep_view().name(),
    {
        match self {
            Capability::AskUser(c) => c.name(),
            Capability::Title(c) => c.name(),
            Capability::Fork(c) => c.name(),
            Capability::SubAgent(c) => c.name(),
            Capability::Workflow(c) => c.name(),
            Capability::StepResult(c) => c.name(),
            Capability::TaskList(c) => c.name(),
            Capability::Timers(c) => c.name(),
            Capability::TokenBudget(c) => c.name(),
            Capability::ControlPlane(c) => c.name(),
            Capability::Memory(c) => c.name(),
            Capability::Mcp(c) => c.name(),
            Capability::Runtime(c) => c.name(),
        }
    }

    /// The tools this capability claims, given what loading the agent found.
    pub fn claims(&self, facts: &AgentFacts) -> (r: Vec<ClaimedTool>)
        ensures
            r.deep_view() == self.deep_view().claims(facts.deep_view()),
    {
        match self {
            Capability::AskUser(c) => c.claims(),
            Capability::Title(c) => c.claims(),
            Capability::SubAgent(c) => c.claims(facts),
            Capability::Workflow(c) => c.claims(),
            Capability::StepResult(c) => c.claims(),
            Capability::TaskList(c) => c.claims(),
            Capability::Timers(c) => c.claims(),
            _ => {
                let none: Vec<ClaimedTool> = Vec::new();
                proof {
                    assert(none.deep_view() =~= seq![]);
                }
                none
            },
        }
    }

    /// The agent's toolbox with this capability's own layer in front of it.
    pub fn layer(&self, inner: Vec<ToolSpec>, facts: &AgentFacts) -> (r: Vec<ToolSpec>)
        ensures
            r.deep_view() == crate::capabilities::claims::layered(
                inner.deep_view(),
                self.deep_view().claims(facts.deep_view()),
            ),
    {
        claiming(inner, &self.claims(facts))
    }

    /// A fact this capability would lose to a compaction unless it is carried
    /// across as it is.
    pub fn carried_state(&self, state: &CapabilityState) -> (r: Option<String>)
        ensures
            r.deep_view() == self.deep_view().carried_state(state.deep_view()),
    {
        match self {
            Capability::TaskList(_) => TaskListCapability::carried_state(&state.task_list),
            Capability::Timers(_) => state.timers.carried_state(),
            _ => None,
        }
    }

    /// What this capability answers a command with, if it is its own.
    pub fn command(&self, state: &CapabilityState, cmd: &CapCommand) -> (r: Option<Decision>)
        ensures
            r.deep_view() == self.deep_view().command(cmd.deep_view()),
    {
        match self {
            Capability::AskUser(c) => c.command(&state.ask_user, cmd),
            Capability::StepResult(c) => c.command(cmd),
            _ => None,
        }
    }

    /// What this capability makes of a message, if it concerns it.
    pub fn handle(&self, state: &CapabilityState, msg: &Msg) -> (r: Option<Decision>)
        ensures
            r.deep_view() == self.deep_view().handle(state.deep_view(), msg.deep_view()),
    {
        match self {
            Capability::AskUser(c) => c.handle(&state.ask_user, msg),
            Capability::StepResult(c) => c.handle(msg),
            Capability::ControlPlane(c) => c.handle(msg),
            Capability::Memory(c) => c.handle(msg),
            Capability::Mcp(c) => c.handle(msg),
            _ => None,
        }
    }
}

/// What an agent is equipped with, in the order its layers wrap: configuration
/// and nothing else.
#[derive(Debug, PartialEq, Eq)]
pub struct Capabilities(Vec<Capability>);

impl DeepView for Capabilities {
    type V = Seq<CapabilityView>;

    closed spec fn deep_view(&self) -> Seq<CapabilityView> {
        self.0.deep_view()
    }
}

impl Dup for Capabilities {
    fn dup(&self) -> (out: Self) {
        Capabilities(self.0.dup())
    }
}

impl Clone for Capabilities {
    fn clone(&self) -> (out: Self)
        ensures
            out.deep_view() == self.deep_view(),
    {
        self.dup()
    }
}

/// A toolbox with every capability's layer around it. The first capability ends
/// up outermost.
pub open spec fn all_layered(
    caps: Seq<CapabilityView>,
    inner: Seq<ToolSpecView>,
    facts: AgentFactsView,
) -> Seq<ToolSpecView>
    decreases caps.len(),
{
    if caps.len() == 0 {
        inner
    } else {
        crate::capabilities::claims::layered(all_layered(caps.drop_first(), inner, facts), caps[0].claims(facts))
    }
}

/// What a call to this name becomes: the command of the first capability that
/// claims it.
pub open spec fn claimed_first(
    caps: Seq<CapabilityView>,
    facts: AgentFactsView,
    name: Seq<char>,
) -> Option<ClaimView> {
    lists::find_map(caps, |c: CapabilityView| crate::capabilities::claims::claim_of(c.claims(facts), name))
}

/// What a compaction would lose unless it is carried, in the order of the
/// equipment.
pub open spec fn all_carried(caps: Seq<CapabilityView>, state: CapabilityStateView) -> Seq<
    Seq<char>,
> {
    lists::filter_map(caps, |c: CapabilityView| c.carried_state(state))
}

impl Capabilities {
    pub fn new(caps: Vec<Capability>) -> (r: Self)
        ensures
            r.deep_view() == caps.deep_view(),
    {
        Capabilities(caps)
    }

    /// Add a capability at the open-namespace end, behind everything here.
    pub fn push(&mut self, cap: Capability)
        ensures
            final(self).deep_view() == old(self).deep_view().push(cap.deep_view()),
    {
        let ghost had = self.deep_view();
        let ghost added = cap.deep_view();
        self.0.push(cap);
        proof {
            assert(self.deep_view() =~= had.push(added));
        }
    }

    /// Equip a capability ahead of everything already here, which is how it wins
    /// a name.
    pub fn push_front(&mut self, cap: Capability)
        ensures
            final(self).deep_view() == seq![cap.deep_view()] + old(self).deep_view(),
    {
        let ghost had = self.deep_view();
        let ghost added = cap.deep_view();
        self.0.insert(0, cap);
        proof {
            assert(self.deep_view() =~= seq![added] + had);
        }
    }

    /// The capabilities, in order.
    pub fn iter(&self) -> (r: &Vec<Capability>)
        ensures
            r.deep_view() == self.deep_view(),
    {
        &self.0
    }

    /// Whether nothing is equipped.
    pub fn is_empty(&self) -> (r: bool)
        ensures
            r == (self.deep_view().len() == 0),
    {
        self.0.len() == 0
    }

    /// Whether a capability of this name is equipped.
    pub fn has(&self, name: &str) -> (r: bool)
        ensures
            r == exists|i: int|
                0 <= i < self.deep_view().len() && (#[trigger] self.deep_view()[i]).name()
                    == name@,
    {
        for i in 0..self.0.len()
            invariant
                forall|j: int| 0 <= j < i ==> (#[trigger] self.deep_view()[j]).name() != name@,
        {
            proof {
                assert(self.deep_view()[i as int] == self.0@[i as int].deep_view());
            }
            if same(self.0[i].name(), name) {
                return true;
            }
        }
        false
    }

    /// Where the first capability of a kind stands, if there is one.
    fn first_of(&self, kind: CapabilityKind) -> (r: Option<usize>)
        ensures
            match r {
                Some(i) => {
                    &&& i < self.deep_view().len()
                    &&& self.0@.len() == self.deep_view().len()
                    &&& self.0@[i as int].deep_view() == self.deep_view()[i as int]
                    &&& self.deep_view()[i as int].kind() == kind
                    &&& forall|j: int|
                        0 <= j < i ==> (#[trigger] self.deep_view()[j]).kind() != kind
                },
                None => forall|j: int|
                    0 <= j < self.deep_view().len() ==> (#[trigger] self.deep_view()[j]).kind()
                        != kind,
            },
    {
        for i in 0..self.0.len()
            invariant
                forall|j: int| 0 <= j < i ==> (#[trigger] self.deep_view()[j]).kind() != kind,
        {
            proof {
                assert(self.deep_view()[i as int] == self.0@[i as int].deep_view());
            }
            if self.0[i].kind() == kind {
                return Some(i);
            }
        }
        None
    }

    /// The first `AskUser` capability equipped, if there is one.
    pub fn ask_user(&self) -> (r: Option<&AskUserCapability>)
        ensures
            match r {
                Some(c) => lists::find_map(
                    self.deep_view(),
                    |c: CapabilityView|
                        match c {
                            CapabilityView::AskUser(c) => Some(c),
                            _ => None,
                        },
                ) == Some(c.deep_view()),
                None => forall|i: int|
                    0 <= i < self.deep_view().len() ==> !((#[trigger] self.deep_view()[i]) is AskUser),
            },
    {
        match self.first_of(CapabilityKind::AskUser) {
            Some(i) => {
                proof {
                    let pick = |c: CapabilityView|
                        match c {
                            CapabilityView::AskUser(c) => Some(c),
                            _ => None,
                        };
                    lists::lemma_found_first(self.deep_view(), pick, i as int);
                }
                match &self.0[i] {
                    Capability::AskUser(c) => Some(c),
                    _ => None,
                }
            },
            None => None,
        }
    }

    /// The first `Title` capability equipped, if there is one.
    pub fn title(&self) -> (r: Option<&TitleCapability>)
        ensures
            match r {
                Some(c) => lists::find_map(
                    self.deep_view(),
                    |c: CapabilityView|
                        match c {
                            CapabilityView::Title(c) => Some(c),
                            _ => None,
                        },
                ) == Some(c.deep_view()),
                None => forall|i: int|
                    0 <= i < self.deep_view().len() ==> !((#[trigger] self.deep_view()[i]) is Title),
            },
    {
        match self.first_of(CapabilityKind::Title) {
            Some(i) => {
                proof {
                    let pick = |c: CapabilityView|
                        match c {
                            CapabilityView::Title(c) => Some(c),
                            _ => None,
                        };
                    lists::lemma_found_first(self.deep_view(), pick, i as int);
                }
                match &self.0[i] {
                    Capability::Title(c) => Some(c),
                    _ => None,
                }
            },
            None => None,
        }
    }

    /// The first `Fork` capability equipped, if there is one.
    pub fn fork(&self) -> (r: Option<&ForkCapability>)
        ensures
            match r {
                Some(c) => lists::find_map(
                    self.deep_view(),
                    |c: CapabilityView|
                        match c {
                            CapabilityView::Fork(c) => Some(c),
                            _ => None,
                        },
                ) == Some(c.deep_view()),
                None => forall|i: int|
                    0 <= i < self.deep_view().len() ==> !((#[trigger] self.deep_view()[i]) is Fork),
            },
    {
        match self.first_of(CapabilityKind::Fork) {
            Some(i) => {
                proof {
                    let pick = |c: CapabilityView|
                        match c {
                            CapabilityView::Fork(c) => Some(c),
                            _ => None,
                        };
                    lists::lemma_found_first(self.deep_view(), pick, i as int);
                }
                match &self.0[i] {
                    Capability::Fork(c) => Some(c),
                    _ => None,
                }
            },
            None => None,
        }
    }

    /// The first `SubAgent` capability equipped, if there is one.
    pub fn sub_agent(&self) -> (r: Option<&SubAgentCapability>)
        ensures
            match r {
                Some(c) => lists::find_map(
                    self.deep_view(),
                    |c: CapabilityView|
                        match c {
                            CapabilityView::SubAgent(c) => Some(c),
                            _ => None,
                        },
                ) == Some(c.deep_view()),
                None => forall|i: int|
                    0 <= i < self.deep_view().len() ==> !((#[trigger] self.deep_view()[i]) is SubAgent),
            },
    {
        match self.first_of(CapabilityKind::SubAgent) {
            Some(i) => {
                proof {
                    let pick = |c: CapabilityView|
                        match c {
                            CapabilityView::SubAgent(c) => Some(c),
                            _ => None,
                        };
                    lists::lemma_found_first(self.deep_view(), pick, i as int);
                }
                match &self.0[i] {
                    Capability::SubAgent(c) => Some(c),
                    _ => None,
                }
            },
            None => None,
        }
    }

    /// The first `Workflow` capability equipped, if there is one.
    pub fn workflow(&self) -> (r: Option<&WorkflowCapability>)
        ensures
            match r {
                Some(c) => lists::find_map(
                    self.deep_view(),
                    |c: CapabilityView|
                        match c {
                            CapabilityView::Workflow(c) => Some(c),
                            _ => None,
                        },
                ) == Some(c.deep_view()),
                None => forall|i: int|
                    0 <= i < self.deep_view().len() ==> !((#[trigger] self.deep_view()[i]) is Workflow),
            },
    {
        match self.first_of(CapabilityKind::Workflow) {
            Some(i) => {
                proof {
                    let pick = |c: CapabilityView|
                        match c {
                            CapabilityView::Workflow(c) => Some(c),
                            _ => None,
                        };
                    lists::lemma_found_first(self.deep_view(), pick, i as int);
                }
                match &self.0[i] {
                    Capability::Workflow(c) => Some(c),
                    _ => None,
                }
            },
            None => None,
        }
    }

    /// The first `StepResult` capability equipped, if there is one.
    pub fn step_result(&self) -> (r: Option<&StepResultCapability>)
        ensures
            match r {
                Some(c) => lists::find_map(
                    self.deep_view(),
                    |c: CapabilityView|
                        match c {
                            CapabilityView::StepResult(c) => Some(c),
                            _ => None,
                        },
                ) == Some(c.deep_view()),
                None => forall|i: int|
                    0 <= i < self.deep_view().len() ==> !((#[trigger] self.deep_view()[i]) is StepResult),
            },
    {
        match self.first_of(CapabilityKind::StepResult) {
            Some(i) => {
                proof {
                    let pick = |c: CapabilityView|
                        match c {
                            CapabilityView::StepResult(c) => Some(c),
                            _ => None,
                        };
                    lists::lemma_found_first(self.deep_view(), pick, i as int);
                }
                match &self.0[i] {
                    Capability::StepResult(c) => Some(c),
                    _ => None,
                }
            },
            None => None,
        }
    }

    /// The first `TaskList` capability equipped, if there is one.
    pub fn task_list(&self) -> (r: Option<&TaskListCapability>)
        ensures
            match r {
                Some(c) => lists::find_map(
                    self.deep_view(),
                    |c: CapabilityView|
                        match c {
                            CapabilityView::TaskList(c) => Some(c),
                            _ => None,
                        },
                ) == Some(c.deep_view()),
                None => forall|i: int|
                    0 <= i < self.deep_view().len() ==> !((#[trigger] self.deep_view()[i]) is TaskList),
            },
    {
        match self.first_of(CapabilityKind::TaskList) {
            Some(i) => {
                proof {
                    let pick = |c: CapabilityView|
                        match c {
                            CapabilityView::TaskList(c) => Some(c),
                            _ => None,
                        };
                    lists::lemma_found_first(self.deep_view(), pick, i as int);
                }
                match &self.0[i] {
                    Capability::TaskList(c) => Some(c),
                    _ => None,
                }
            },
            None => None,
        }
    }

    /// The first `Timers` capability equipped, if there is one.
    pub fn timers(&self) -> (r: Option<&TimersCapability>)
        ensures
            match r {
                Some(c) => lists::find_map(
                    self.deep_view(),
                    |c: CapabilityView|
                        match c {
                            CapabilityView::Timers(c) => Some(c),
                            _ => None,
                        },
                ) == Some(c.deep_view()),
                None => forall|i: int|
                    0 <= i < self.deep_view().len() ==> !((#[trigger] self.deep_view()[i]) is Timers),
            },
    {
        match self.first_of(CapabilityKind::Timers) {
            Some(i) => {
                proof {
                    let pick = |c: CapabilityView|
                        match c {
                            CapabilityView::Timers(c) => Some(c),
                            _ => None,
                        };
                    lists::lemma_found_first(self.deep_view(), pick, i as int);
                }
                match &self.0[i] {
                    Capability::Timers(c) => Some(c),
                    _ => None,
                }
            },
            None => None,
        }
    }

    /// The first `TokenBudget` capability equipped, if there is one.
    pub fn token_budget(&self) -> (r: Option<&TokenBudgetCapability>)
        ensures
            match r {
                Some(c) => lists::find_map(
                    self.deep_view(),
                    |c: CapabilityView|
                        match c {
                            CapabilityView::TokenBudget(c) => Some(c),
                            _ => None,
                        },
                ) == Some(c.deep_view()),
                None => forall|i: int|
                    0 <= i < self.deep_view().len() ==> !((#[trigger] self.deep_view()[i]) is TokenBudget),
            },
    {
        match self.first_of(CapabilityKind::TokenBudget) {
            Some(i) => {
                proof {
                    let pick = |c: CapabilityView|
                        match c {
                            CapabilityView::TokenBudget(c) => Some(c),
                            _ => None,
                        };
                    lists::lemma_found_first(self.deep_view(), pick, i as int);
                }
                match &self.0[i] {
                    Capability::TokenBudget(c) => Some(c),
                    _ => None,
                }
            },
            None => None,
        }
    }

    /// The run's toolbox with every capability's layer around it, applied back
    /// to front, so that the first capability ends up outermost.
    pub fn layer(&self, inner: Vec<ToolSpec>, facts: &AgentFacts) -> (r: Vec<ToolSpec>)
        ensures
            r.deep_view() == all_layered(
                self.deep_view(),
                inner.deep_view(),
                facts.deep_view(),
            ),
    {
        let ghost all = self.deep_view();
        let ghost base = inner.deep_view();
        let mut toolbox = inner;
        let mut i: usize = self.0.len();
        proof {
            assert(all.skip(i as int) =~= seq![]);
        }
        while i > 0
            invariant
                i <= self.0.len(),
                all == self.deep_view(),
                toolbox.deep_view() == all_layered(all.skip(i as int), base, facts.deep_view()),
            decreases i,
        {
            i = i - 1;
            proof {
                assert(all[i as int] == self.0@[i as int].deep_view());
                assert(all.skip(i as int)[0] == all[i as int]);
                assert(all.skip(i as int).drop_first() =~= all.skip(i + 1));
            }
            toolbox = self.0[i].layer(toolbox, facts);
        }
        proof {
            assert(all.skip(0) =~= all);
        }
        toolbox
    }

    /// What a call becomes: the command of the capability that claimed the name,
    /// or `None` when nobody did and the call goes to whatever the layers wrap.
    pub fn route(&self, facts: &AgentFacts, name: &str, input: Json, to: Answering) -> (r: Option<
        CapCommand,
    >)
        ensures
            r.deep_view() == (match claimed_first(self.deep_view(), facts.deep_view(), name@) {
                Some(claim) => Some(claim.command(input.deep_view(), to.deep_view())),
                None => None,
            }),
    {
        let ghost all = self.deep_view();
        let ghost known = facts.deep_view();
        let ghost f = |c: CapabilityView| crate::capabilities::claims::claim_of(c.claims(known), name@);
        proof {
            assert(all.skip(0) =~= all);
        }
        for i in 0..self.0.len()
            invariant
                all == self.deep_view(),
                known == facts.deep_view(),
                f == (|c: CapabilityView| crate::capabilities::claims::claim_of(c.claims(known), name@)),
                lists::find_map(all, f) == lists::find_map(all.skip(i as int), f),
        {
            proof {
                assert(all[i as int] == self.0@[i as int].deep_view());
                assert(all.skip(i as int)[0] == all[i as int]);
                assert(all.skip(i as int).drop_first() =~= all.skip(i + 1));
            }
            let claims = self.0[i].claims(facts);
            if let Some(claim) = claimed(&claims, name) {
                return Some(claim.command(input, to));
            }
        }
        proof {
            assert(all.skip(self.0.len() as int) =~= seq![]);
        }
        None
    }

    /// Everything the agent would lose to a compaction, in the order it was
    /// equipped in.
    pub fn carried_state(&self, state: &CapabilityState) -> (r: Vec<String>)
        ensures
            r.deep_view() == all_carried(self.deep_view(), state.deep_view()),
    {
        let ghost all = self.deep_view();
        let ghost held = state.deep_view();
        let ghost f = |c: CapabilityView| c.carried_state(held);
        let mut out: Vec<String> = Vec::new();
        for i in 0..self.0.len()
            invariant
                all == self.deep_view(),
                held == state.deep_view(),
                f == (|c: CapabilityView| c.carried_state(held)),
                out.deep_view() == lists::filter_map(all.take(i as int), f),
        {
            let ghost had = out.deep_view();
            proof {
                lists::lemma_filter_map_step(all, f, i as int);
                assert(all[i as int] == self.0@[i as int].deep_view());
            }
            if let Some(block) = self.0[i].carried_state(state) {
                let ghost text = block@;
                out.push(block);
                proof {
                    assert(out.deep_view() =~= had.push(text));
                }
            }
        }
        proof {
            assert(all.take(self.0.len() as int) =~= all);
        }
        out
    }
}

impl Default for Capabilities {
    fn default() -> (r: Self)
        ensures
            r.deep_view() == Seq::<CapabilityView>::empty(),
    {
        let r = Capabilities(Vec::new());
        proof {
            assert(r.deep_view() =~= seq![]);
        }
        r
    }
}

/// What a command comes to for an equipped agent: the answer of the first
/// capability whose command it is.
pub open spec fn dispatched(state: CapabilityStateView, cmd: CapCommandView) -> Option<
    DecisionView,
> {
    lists::find_map(state.capabilities, |c: CapabilityView| c.command(cmd))
}

/// Put a command to the equipped capabilities; `None` when none of them answers
/// it.
pub fn dispatch(state: &CapabilityState, cmd: &CapCommand) -> (r: Option<Decision>)
    ensures
        r.deep_view() == dispatched(state.deep_view(), cmd.deep_view()),
{
    let caps = state.capabilities.iter();
    let ghost all = caps.deep_view();
    let ghost asked = cmd.deep_view();
    let ghost f = |c: CapabilityView| c.command(asked);
    proof {
        assert(all.skip(0) =~= all);
    }
    for i in 0..caps.len()
        invariant
            all == caps.deep_view(),
            all == state.deep_view().capabilities,
            asked == cmd.deep_view(),
            f == (|c: CapabilityView| c.command(asked)),
            lists::find_map(all, f) == lists::find_map(all.skip(i as int), f),
    {
        proof {
            assert(all[i as int] == caps@[i as int].deep_view());
            assert(all.skip(i as int)[0] == all[i as int]);
            assert(all.skip(i as int).drop_first() =~= all.skip(i + 1));
        }
        if let Some(decision) = caps[i].command(state, cmd) {
            return Some(decision);
        }
    }
    proof {
        assert(all.skip(caps.len() as int) =~= seq![]);
    }
    None
}

/// Where setting capabilities up one after another comes to: the failures the
/// agent starts without, or the first one that stops it.
pub open spec fn setup_outcome(failures: Seq<SetupErrorView>) -> Result<
    Seq<SetupErrorView>,
    SetupErrorView,
>
    decreases failures.len(),
{
    if failures.len() == 0 {
        Ok(seq![])
    } else {
        match setup_outcome(failures.drop_last()) {
            Err(e) => Err(e),
            Ok(degraded) => if failures.last().fatal {
                Err(failures.last())
            } else {
                Ok(degraded.push(failures.last()))
            },
        }
    }
}

/// The failures of setting capabilities up, as they come in: a fatal one stops
/// the agent, and any other is something it starts without.
#[derive(Debug, PartialEq, Eq)]
pub struct Degraded {
    errors: Vec<SetupError>,
}

impl Degraded {
    /// What the agent would start without so far.
    pub closed spec fn errors(&self) -> Seq<SetupErrorView> {
        self.errors.deep_view()
    }

    /// Nothing failed yet.
    pub fn new() -> (r: Self)
        ensures
            r.errors() == Seq::<SetupErrorView>::empty(),
    {
        let r = Degraded { errors: Vec::new() };
        proof {
            assert(r.errors() =~= seq![]);
        }
        r
    }

    /// One capability failed. A fatal failure is handed back: equipping stops
    /// with it.
    pub fn note(self, error: SetupError) -> (r: Result<Self, SetupError>)
        ensures
            match r {
                Ok(after) => !error.fatal && after.errors() == self.errors().push(
                    error.deep_view(),
                ),
                Err(e) => error.fatal && e == error,
            },
    {
        if error.fatal {
            return Err(error);
        }
        let ghost had = self.errors();
        let ghost added = error.deep_view();
        let mut errors = self.errors;
        errors.push(error);
        let after = Degraded { errors };
        proof {
            assert(after.errors() =~= had.push(added));
        }
        Ok(after)
    }

    /// What the agent starts without.
    pub fn into_errors(self) -> (r: Vec<SetupError>)
        ensures
            r.deep_view() == self.errors(),
    {
        self.errors
    }
}

/// What setting capabilities up comes to, given how it failed, in order.
pub fn equip(failures: Vec<SetupError>) -> (r: Result<Vec<SetupError>, SetupError>)
    ensures
        match r {
            Ok(degraded) => setup_outcome(failures.deep_view()) == Ok::<
                Seq<SetupErrorView>,
                SetupErrorView,
            >(degraded.deep_view()),
            Err(e) => setup_outcome(failures.deep_view()) == Err::<
                Seq<SetupErrorView>,
                SetupErrorView,
            >(e.deep_view()),
        },
{
    let ghost all = failures.deep_view();
    let mut degraded = Degraded::new();
    for i in 0..failures.len()
        invariant
            all == failures.deep_view(),
            setup_outcome(all.take(i as int)) == Ok::<Seq<SetupErrorView>, SetupErrorView>(
                degraded.errors(),
            ),
    {
        proof {
            assert(all[i as int] == failures@[i as int].deep_view());
            assert(all.take(i + 1).drop_last() =~= all.take(i as int));
            assert(all.take(i + 1).last() == all[i as int]);
        }
        match degraded.note(failures[i].dup()) {
            Ok(after) => {
                degraded = after;
            },
            Err(e) => {
                proof {
                    lemma_a_fatal_failure_stays(all, i + 1);
                }
                return Err(e);
            },
        }
    }
    proof {
        assert(all.take(failures.len() as int) =~= all);
    }
    Ok(degraded.into_errors())
}

/// Once a failure stops the agent, nothing after it changes that.
proof fn lemma_a_fatal_failure_stays(failures: Seq<SetupErrorView>, i: int)
    requires
        0 <= i <= failures.len(),
        setup_outcome(failures.take(i)) is Err,
    ensures
        setup_outcome(failures) == setup_outcome(failures.take(i)),
    decreases failures.len() - i,
{
    if i < failures.len() {
        assert(failures.take(i + 1).drop_last() =~= failures.take(i));
        lemma_a_fatal_failure_stays(failures, i + 1);
    } else {
        assert(failures.take(i) =~= failures);
    }
}

/// Wrapping order is precedence: a name the first capability claims is
/// advertised by it alone, whatever the ones behind it claim.
pub proof fn law_the_first_capability_wins_a_name(
    caps: Seq<CapabilityView>,
    inner: Seq<ToolSpecView>,
    facts: AgentFactsView,
    name: Seq<char>,
)
    requires
        caps.len() > 0,
        crate::capabilities::claims::claim_of(caps[0].claims(facts), name) is Some,
    ensures
        claimed_first(caps, facts, name) == crate::capabilities::claims::claim_of(caps[0].claims(facts), name),
        ({
            let front = caps[0].claims(facts);
            let all = all_layered(caps, inner, facts);
            &&& front.len() <= all.len()
            &&& all.take(front.len() as int) == crate::capabilities::claims::shown(front)
            &&& forall|i: int| front.len() <= i < all.len() ==> (#[trigger] all[i]).name != name
        }),
{
    let front = caps[0].claims(facts);
    let rest = all_layered(caps.drop_first(), inner, facts);
    let all = all_layered(caps, inner, facts);
    assert(all == crate::capabilities::claims::shown(front) + crate::capabilities::claims::unclaimed(rest, front));
    assert(crate::capabilities::claims::shown(front).len() == front.len());
    assert(all.take(front.len() as int) =~= crate::capabilities::claims::shown(front));
    assert forall|i: int| front.len() <= i < all.len() implies (#[trigger] all[i]).name != name by {
        let j = i - front.len();
        assert(all[i] == crate::capabilities::claims::unclaimed(rest, front)[j]);
        crate::capabilities::claims::law_a_claim_hides_the_tools_behind_it(rest, front, j);
    }
}

/// A tool nobody claims is left as it is by every layer, and a call to it
/// becomes no command.
pub proof fn law_an_unclaimed_tool_passes_through(
    caps: Seq<CapabilityView>,
    inner: Seq<ToolSpecView>,
    facts: AgentFactsView,
    tool: ToolSpecView,
)
    requires
        inner.contains(tool),
        claimed_first(caps, facts, tool.name) is None,
    ensures
        all_layered(caps, inner, facts).contains(tool),
    decreases caps.len(),
{
    if caps.len() > 0 {
        let front = caps[0].claims(facts);
        let rest = all_layered(caps.drop_first(), inner, facts);
        law_an_unclaimed_tool_passes_through(caps.drop_first(), inner, facts, tool);
        assert(crate::capabilities::claims::claim_of(front, tool.name) is None);
        let keep = |s: ToolSpecView|
            if crate::capabilities::claims::claim_of(front, s.name) is Some {
                None
            } else {
                Some(s)
            };
        lists::lemma_filter_map_members(rest, keep);
        let i = choose|i: int| 0 <= i < rest.len() && rest[i] == tool;
        assert(keep(rest[i]) == Some(tool));
        assert(crate::capabilities::claims::unclaimed(rest, front).contains(tool));
        let j = choose|j: int|
            0 <= j < crate::capabilities::claims::unclaimed(rest, front).len() && crate::capabilities::claims::unclaimed(rest, front)[j] == tool;
        assert(all_layered(caps, inner, facts)[crate::capabilities::claims::shown(front).len() + j] == tool);
    }
}

/// Nothing equipped claims nothing: the toolbox is what was put in.
pub proof fn law_an_empty_set_claims_nothing(
    inner: Seq<ToolSpecView>,
    facts: AgentFactsView,
    name: Seq<char>,
)
    ensures
        all_layered(seq![], inner, facts) == inner,
        claimed_first(seq![], facts, name) is None,
{
}

/// Only a failure that is fatal stops an agent, and what it starts without is
/// everything that failed, in order.
pub proof fn law_only_a_fatal_failure_stops_an_agent(failures: Seq<SetupErrorView>)
    ensures
        setup_outcome(failures) is Ok <==> forall|i: int|
            0 <= i < failures.len() ==> !(#[trigger] failures[i]).fatal,
        setup_outcome(failures) is Ok ==> setup_outcome(failures)->Ok_0 == failures,
        setup_outcome(failures) is Err ==> setup_outcome(failures)->Err_0.fatal,
    decreases failures.len(),
{
    if failures.len() > 0 {
        let rest = failures.drop_last();
        law_only_a_fatal_failure_stops_an_agent(rest);
        if forall|i: int| 0 <= i < failures.len() ==> !(#[trigger] failures[i]).fatal {
            assert forall|i: int| 0 <= i < rest.len() implies !(#[trigger] rest[i]).fatal by {
                assert(rest[i] == failures[i]);
            }
            assert(rest.push(failures.last()) =~= failures);
        }
        if setup_outcome(failures) is Ok {
            assert(rest.push(failures.last()) =~= failures);
            assert forall|i: int| 0 <= i < failures.len() implies !(#[trigger] failures[i]).fatal by {
                if i < rest.len() {
                    assert(rest[i] == failures[i]);
                }
            }
        }
    }
}

/// A tool's call is claimed by the first capability that claims its name.
pub proof fn law_the_first_capability_that_claims_takes_the_call(
    caps: Seq<CapabilityView>,
    facts: AgentFactsView,
    name: Seq<char>,
    k: int,
)
    requires
        0 <= k <= caps.len(),
        forall|i: int| 0 <= i < k ==> crate::capabilities::claims::claim_of((#[trigger] caps[i]).claims(facts), name) is None,
        k < caps.len() ==> crate::capabilities::claims::claim_of(caps[k].claims(facts), name) is Some,
    ensures
        k < caps.len() ==> claimed_first(caps, facts, name) == crate::capabilities::claims::claim_of(
            caps[k].claims(facts),
            name,
        ),
        k == caps.len() ==> claimed_first(caps, facts, name) is None,
{
    let pick = |c: CapabilityView| crate::capabilities::claims::claim_of(c.claims(facts), name);
    assert forall|j: int| 0 <= j < k implies pick(#[trigger] caps[j]) is None by {
        assert(crate::capabilities::claims::claim_of(caps[j].claims(facts), name) is None);
    }
    crate::lists::law_a_search_ends_at_the_first_find(caps, pick, k);
}

/// A command is decided by the first capability that has an answer to it, and
/// only a capability of the command's own kind has one.
pub proof fn law_a_command_is_decided_by_its_own_capability(
    state: CapabilityStateView,
    cmd: CapCommandView,
    k: int,
)
    requires
        0 <= k <= state.capabilities.len(),
        forall|i: int|
            0 <= i < k ==> (#[trigger] state.capabilities[i]).command(cmd) is None,
        k < state.capabilities.len() ==> state.capabilities[k].command(cmd) is Some,
    ensures
        k < state.capabilities.len() ==> dispatched(state, cmd) == state.capabilities[k].command(
            cmd,
        ) && state.capabilities[k].name() == cmd.capability(),
        k == state.capabilities.len() ==> dispatched(state, cmd) is None,
{
    let pick = |c: CapabilityView| c.command(cmd);
    assert forall|j: int| 0 <= j < k implies pick(#[trigger] state.capabilities[j]) is None by {
        assert(state.capabilities[j].command(cmd) is None);
    }
    crate::lists::law_a_search_ends_at_the_first_find(state.capabilities, pick, k);
}

/// A question is decided by the asking capability and a result by the one that
/// takes results, from the call they answer and the input they were given; no
/// other capability decides either.
pub proof fn law_questions_and_results_are_decided_apart(
    ask: AskUserCapability,
    step: StepResultCapabilityView,
    other: CapabilityView,
    input: JsonView,
    to: AnsweringView,
    state: CapabilityStateView,
    msg: MsgView,
)
    requires
        !(other is AskUser) && !(other is StepResult),
    ensures
        ({
            let question = CapCommandView::AskUser(ask_user::CommandView::Ask { input }, to);
            let result = CapCommandView::StepResult(step_result::CommandView::Submit { input }, to);
            &&& CapabilityView::AskUser(ask).command(question) == Some(
                crate::capabilities::ask_user::asking(ask.mute, to.call, input),
            )
            &&& CapabilityView::StepResult(step).command(result) == Some(
                crate::capabilities::step_result::submission(step, to.call, input),
            )
            &&& CapabilityView::AskUser(ask).command(result) is None
            &&& CapabilityView::StepResult(step).command(question) is None
            &&& other.command(question) is None && other.command(result) is None
            &&& CapabilityView::AskUser(ask).handle(state, msg) == crate::capabilities::ask_user::ask_user_handles(
                state.ask_user,
                msg,
            )
            &&& other.handle(state, msg) is None
        }),
{
}

/// Each capability is known by its own name.
pub proof fn law_capabilities_have_names_of_their_own(a: CapabilityView, b: CapabilityView)
    ensures
        a.kind() == b.kind() ==> a.name() == b.name(),
        a.name() == b.name() ==> a.kind() == b.kind(),
        a is AskUser <==> a.kind() == CapabilityKind::AskUser,
        a is Title <==> a.kind() == CapabilityKind::Title,
        a is Fork <==> a.kind() == CapabilityKind::Fork,
        a is SubAgent <==> a.kind() == CapabilityKind::SubAgent,
        a is Workflow <==> a.kind() == CapabilityKind::Workflow,
        a is StepResult <==> a.kind() == CapabilityKind::StepResult,
        a is TaskList <==> a.kind() == CapabilityKind::TaskList,
        a is Timers <==> a.kind() == CapabilityKind::Timers,
        a is TokenBudget <==> a.kind() == CapabilityKind::TokenBudget,
        a is ControlPlane <==> a.kind() == CapabilityKind::ControlPlane,
        a is Memory <==> a.kind() == CapabilityKind::Memory,
        a is Mcp <==> a.kind() == CapabilityKind::Mcp,
        a is Runtime <==> a.kind() == CapabilityKind::Runtime,
{
    reveal_strlit("ask_user");
    reveal_strlit("title");
    reveal_strlit("fork");
    reveal_strlit("sub_agent");
    reveal_strlit("workflow");
    reveal_strlit("step_result");
    reveal_strlit("task_list");
    reveal_strlit("timers");
    reveal_strlit("token_budget");
    reveal_strlit("control_plane");
    reveal_strlit("memory");
    reveal_strlit("mcp");
    reveal_strlit("runtime");
    assert("ask_user"@[0] == 'a' && "fork"@[0] == 'f' && "workflow"@[0] == 'w'
        && "control_plane"@[0] == 'c' && "runtime"@[0] == 'r');
    assert("sub_agent"@[1] == 'u' && "step_result"@[1] == 't' && "sub_agent"@[0] == 's'
        && "step_result"@[0] == 's');
    assert("title"@.len() == 5 && "task_list"@.len() == 9 && "timers"@.len() == 6
        && "token_budget"@.len() == 12 && "title"@[0] == 't' && "task_list"@[0] == 't'
        && "timers"@[0] == 't' && "token_budget"@[0] == 't');
    assert("memory"@.len() == 6 && "mcp"@.len() == 3 && "memory"@[0] == 'm' && "mcp"@[0] == 'm');
}

/// Each capability claims its own tools, under the names a model calls them
/// by: what asks, names, spawns, runs, submits, lists or wakes; every other
/// capability claims none.
pub proof fn law_each_capability_claims_its_own_tools(
    cap: CapabilityView,
    facts: AgentFactsView,
)
    ensures
        ({
            let claims = cap.claims(facts);
            &&& (cap matches CapabilityView::AskUser(c) && c.mute is None) ==> claims.len() == 1
                && claims[0].spec.name == "ask_user"@ && claims[0].claim == ClaimView::AskUser
            &&& cap is Title ==> claims.len() == 1 && claims[0].spec.name == "set_session_title"@
                && claims[0].claim == ClaimView::TitleRename
            &&& cap is Workflow ==> claims.len() == 2 && claims[0].spec.name == "invoke_workflow"@
                && claims[0].claim == ClaimView::WorkflowInvoke && claims[1].spec.name
                == "workflow_status"@ && claims[1].claim == ClaimView::WorkflowStatus
            &&& cap is StepResult ==> claims.len() == 1 && claims[0].spec.name == "submit_result"@
                && claims[0].claim == ClaimView::StepResult
            &&& cap is TaskList ==> claims.len() == 1 && claims[0].spec.name == "task_list"@
                && claims[0].claim == ClaimView::TaskListChange
            &&& cap is Timers ==> claims.len() == 3 && claims[0].spec.name == "set_timer"@
                && claims[0].claim == ClaimView::TimerArm && claims[1].spec.name == "list_timers"@
                && claims[1].claim == ClaimView::TimerList && claims[2].spec.name
                == "cancel_timer"@ && claims[2].claim == ClaimView::TimerCancel
            &&& cap is Fork || cap is TokenBudget || cap is ControlPlane || cap is Memory || cap
                is Mcp || cap is Runtime ==> claims.len() == 0
        }),
{
}

/// Capabilities are layered from the front: the first one's claims stand over
/// everything the rest show.
pub proof fn law_capabilities_are_layered_from_the_front(
    cap: CapabilityView,
    caps: Seq<CapabilityView>,
    inner: Seq<ToolSpecView>,
    facts: AgentFactsView,
)
    ensures
        all_layered(seq![cap] + caps, inner, facts) == crate::capabilities::claims::layered(
            all_layered(caps, inner, facts),
            cap.claims(facts),
        ),
{
    assert((seq![cap] + caps).drop_first() =~= caps);
}

/// What capabilities carry is what each has to carry, in their order: a task
/// list that has tasks, timers that are armed, and nothing else.
pub proof fn law_capabilities_carry_lists_and_timers(
    a: Seq<CapabilityView>,
    b: Seq<CapabilityView>,
    cap: CapabilityView,
    state: CapabilityStateView,
)
    ensures
        all_carried(a + b, state) == all_carried(a, state) + all_carried(b, state),
        cap is TaskList && state.task_list.len() > 0 ==> all_carried(seq![cap], state) == seq![
            crate::task_list::rendered(state.task_list),
        ],
        cap is TaskList && state.task_list.len() == 0 ==> all_carried(seq![cap], state).len() == 0,
        cap is Timers && state.timers.len() > 0 ==> all_carried(seq![cap], state) == seq![
            crate::timers::carried_block(state.timers),
        ],
        cap is Timers && state.timers.len() == 0 ==> all_carried(seq![cap], state).len() == 0,
        !(cap is TaskList) && !(cap is Timers) ==> all_carried(seq![cap], state).len() == 0,
{
    let carry = |c: CapabilityView| c.carried_state(state);
    crate::lists::law_a_list_is_filtered_item_by_item(a, b, cap, carry);
}

/// The first fatal failure is what an agent is stopped by.
pub proof fn law_the_first_fatal_failure_stops_an_agent(failures: Seq<SetupErrorView>, k: int)
    requires
        0 <= k < failures.len(),
        failures[k].fatal,
        forall|i: int| 0 <= i < k ==> !(#[trigger] failures[i]).fatal,
    ensures
        setup_outcome(failures) == Err::<Seq<SetupErrorView>, SetupErrorView>(failures[k]),
{
    let upto = failures.take(k);
    assert forall|i: int| 0 <= i < upto.len() implies !(#[trigger] upto[i]).fatal by {
        assert(upto[i] == failures[i]);
    }
    law_only_a_fatal_failure_stops_an_agent(upto);
    let more = failures.take(k + 1);
    assert(more.drop_last() =~= upto);
    assert(more.last() == failures[k]);
    assert(setup_outcome(more) == Err::<Seq<SetupErrorView>, SetupErrorView>(failures[k]));
    lemma_a_fatal_failure_stays(failures, k + 1);
}

} // verus!
