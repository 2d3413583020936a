//! What a run is given to run with, and which of its tools it may call.

use crate::components::usage::UsageTotal;
use crate::ids::{AgentId, SessionId};
use crate::json::{Json, JsonView};
use crate::lists;
use crate::mcp_toolbox::{
    self, CompositeToolbox, CompositeToolboxView, McpToolboxes, McpToolboxesView,
};
use crate::model::{
    HookRecord, HookRecordView, ToolCallError, ToolCallErrorView, ToolSpec, ToolSpecView,
};
use crate::text::{self, Dup, contains, join, same};
use vstd::prelude::*;

verus! {

/// The part of an agent's configuration its tools and its turns need, and
/// nothing about where the agent sits.
#[derive(Debug, PartialEq, Eq)]
pub struct AgentRunDef {
    pub system_prompt: Option<String>,
    pub max_iterations: Option<u32>,
    pub max_retries: Option<u32>,
    pub allowed_tools: Option<Vec<String>>,
}

/// What a [`AgentRunDef`] stands for.
#[verifier::ext_equal]
pub struct AgentRunDefView {
    pub system_prompt: Option<Seq<char>>,
    pub max_iterations: Option<u32>,
    pub max_retries: Option<u32>,
    pub allowed_tools: Option<Seq<Seq<char>>>,
}

impl DeepView for AgentRunDef {
    type V = AgentRunDefView;

    open spec fn deep_view(&self) -> AgentRunDefView {
        AgentRunDefView {
            system_prompt: self.system_prompt.deep_view(),
            max_iterations: self.max_iterations.deep_view(),
            max_retries: self.max_retries.deep_view(),
            allowed_tools: self.allowed_tools.deep_view(),
        }
    }
}

impl Dup for AgentRunDef {
    fn dup(&self) -> (out: Self) {
        AgentRunDef {
            system_prompt: self.system_prompt.dup(),
            max_iterations: self.max_iterations.dup(),
            max_retries: self.max_retries.dup(),
            allowed_tools: self.allowed_tools.dup(),
        }
    }
}

impl Clone for AgentRunDef {
    fn clone(&self) -> (out: Self)
        ensures
            out.deep_view() == self.deep_view(),
    {
        self.dup()
    }
}

/// The tool an agent calls to load a skill's full instructions on demand.
pub const SKILL_TOOL: &'static str = "skill";

/// The tool that scans the workspaces again and returns the current catalogue.
pub const INSPECT_WORKSPACE_TOOL: &'static str = "inspect_workspace";

/// The name the shared plugin library is addressed by.
pub const SHARED_WORKSPACE: &'static str = "horsie_shared";

/// One question an agent parked on, and the call that asked it.
#[derive(Debug, PartialEq, Eq)]
pub struct AskedQuestion {
    /// The call that asked; `None` only where it was never recorded.
    pub tool_call_id: Option<String>,
    pub question: String,
    /// The suggested answers the model offered, if any.
    pub choices: Vec<String>,
    /// Whether several `choices` may be picked at once.
    pub multiple: bool,
}

/// What a [`AskedQuestion`] stands for.
#[verifier::ext_equal]
pub struct AskedQuestionView {
    pub tool_call_id: Option<Seq<char>>,
    pub question: Seq<char>,
    pub choices: Seq<Seq<char>>,
    pub multiple: bool,
}

impl DeepView for AskedQuestion {
    type V = AskedQuestionView;

    open spec fn deep_view(&self) -> AskedQuestionView {
        AskedQuestionView {
            tool_call_id: self.tool_call_id.deep_view(),
            question: self.question.deep_view(),
            choices: self.choices.deep_view(),
            multiple: self.multiple.deep_view(),
        }
    }
}

impl Dup for AskedQuestion {
    fn dup(&self) -> (out: Self) {
        AskedQuestion {
            tool_call_id: self.tool_call_id.dup(),
            question: self.question.dup(),
            choices: self.choices.dup(),
            multiple: self.multiple.dup(),
        }
    }
}

impl Clone for AskedQuestion {
    fn clone(&self) -> (out: Self)
        ensures
            out.deep_view() == self.deep_view(),
    {
        self.dup()
    }
}

/// What an agent reports to whoever spawned it. Every report names the agent
/// it is of, because one owner hosts many.
#[derive(Debug, PartialEq, Eq)]
pub enum AgentOutcome {
    /// The agent started a turn off its own queue.
    Started { agent: AgentId },
    /// A turn the process died inside, found at recovery.
    Interrupted { agent: AgentId },
    /// The agent produced its output.
    Concluded { agent: AgentId, output: Json },
    /// The agent paused to ask the user.
    Asked { agent: AgentId, asks: Vec<AskedQuestion> },
    /// The agent parked itself awaiting its timers.
    Parked { agent: AgentId },
    /// The run failed. `recoverable` is about the run; `terminal` says no later
    /// message can bring the agent back.
    Failed { agent: AgentId, error: String, recoverable: bool, terminal: bool },
    /// A run completed, with the agent's cumulative usage.
    UsageRecorded { agent: AgentId, usage_total: UsageTotal, context_tokens: u32 },
    /// The summary the sub sessions branching off this agent wait on.
    SeedSummary { agent: AgentId, sub_sessions: Vec<SessionId>, result: Result<String, String> },
}

impl AgentOutcome {
    /// The agent this is a report of.
    pub open spec fn reporter(self) -> AgentId {
        match self {
            AgentOutcome::Started { agent } => agent,
            AgentOutcome::Interrupted { agent } => agent,
            AgentOutcome::Concluded { agent, .. } => agent,
            AgentOutcome::Asked { agent, .. } => agent,
            AgentOutcome::Parked { agent } => agent,
            AgentOutcome::Failed { agent, .. } => agent,
            AgentOutcome::UsageRecorded { agent, .. } => agent,
            AgentOutcome::SeedSummary { agent, .. } => agent,
        }
    }

    /// The agent this is a report of: what an owner hosting many routes by.
    pub fn agent(&self) -> (r: AgentId)
        ensures
            r == self.reporter(),
    {
        match self {
            AgentOutcome::Started { agent } => *agent,
            AgentOutcome::Interrupted { agent } => *agent,
            AgentOutcome::Concluded { agent, .. } => *agent,
            AgentOutcome::Asked { agent, .. } => *agent,
            AgentOutcome::Parked { agent } => *agent,
            AgentOutcome::Failed { agent, .. } => *agent,
            AgentOutcome::UsageRecorded { agent, .. } => *agent,
            AgentOutcome::SeedSummary { agent, .. } => *agent,
        }
    }
}

/// What one run executes within, besides the provider it calls: what its
/// toolbox advertises and the prompt that frames it.
#[derive(Debug, PartialEq, Eq)]
pub struct Contexts {
    /// Everything the agent's tools advertise, composed and not narrowed.
    pub toolbox: Vec<ToolSpec>,
    /// A further narrowing this run is subject to, on top of the agent's own
    /// selection.
    pub tool_narrowing: Option<Vec<String>>,
    /// The composed system prompt, when the context layer owns it.
    pub system_prompt: Option<String>,
    /// The context window of this run's model, when its card declares one.
    pub context_window: Option<u32>,
}

/// What a [`Contexts`] stands for.
#[verifier::ext_equal]
pub struct ContextsView {
    pub toolbox: Seq<ToolSpecView>,
    pub tool_narrowing: Option<Seq<Seq<char>>>,
    pub system_prompt: Option<Seq<char>>,
    pub context_window: Option<u32>,
}

impl DeepView for Contexts {
    type V = ContextsView;

    open spec fn deep_view(&self) -> ContextsView {
        ContextsView {
            toolbox: self.toolbox.deep_view(),
            tool_narrowing: self.tool_narrowing.deep_view(),
            system_prompt: self.system_prompt.deep_view(),
            context_window: self.context_window.deep_view(),
        }
    }
}

impl Dup for Contexts {
    fn dup(&self) -> (out: Self) {
        Contexts {
            toolbox: self.toolbox.dup(),
            tool_narrowing: self.tool_narrowing.dup(),
            system_prompt: self.system_prompt.dup(),
            context_window: self.context_window.dup(),
        }
    }
}

impl Clone for Contexts {
    fn clone(&self) -> (out: Self)
        ensures
            out.deep_view() == self.deep_view(),
    {
        self.dup()
    }
}

impl Contexts {
    /// The same contexts every time, for an agent whose toolbox is fixed for
    /// its life. It has no model card to read a window from and never compacts
    /// on its own.
    pub fn fixed(toolbox: Vec<ToolSpec>) -> (r: Self)
        ensures
            r.deep_view() == (ContextsView {
                toolbox: toolbox.deep_view(),
                tool_narrowing: None,
                system_prompt: None,
                context_window: None,
            }),
    {
        Contexts { toolbox, tool_narrowing: None, system_prompt: None, context_window: None }
    }
}

/// Why a session came to be loaded.
#[derive(Debug, Clone, Copy, PartialEq, Eq, Structural)]
pub enum SessionStartSource {
    Startup,
    Resume,
}

/// What a run's pre-start hooks need to know about the turn about to begin.
#[derive(Debug, PartialEq, Eq)]
pub struct StartTurn {
    /// Why this agent was loaded, when its start hook has not fired yet.
    pub start_source: Option<SessionStartSource>,
    /// The user prompt this run starts on, when it has one.
    pub prompt: Option<String>,
}

/// What the pre-run hooks produced. No message means unchanged, which is not
/// the same as empty.
#[derive(Debug, PartialEq, Eq)]
pub struct TurnPreparation {
    pub records: Vec<HookRecord>,
    pub message: Option<String>,
}

/// What a [`TurnPreparation`] stands for.
#[verifier::ext_equal]
pub struct TurnPreparationView {
    pub records: Seq<HookRecordView>,
    pub message: Option<Seq<char>>,
}

impl DeepView for TurnPreparation {
    type V = TurnPreparationView;

    open spec fn deep_view(&self) -> TurnPreparationView {
        TurnPreparationView {
            records: self.records.deep_view(),
            message: self.message.deep_view(),
        }
    }
}

impl Dup for TurnPreparation {
    fn dup(&self) -> (out: Self) {
        TurnPreparation {
            records: self.records.dup(),
            message: self.message.dup(),
        }
    }
}

impl Clone for TurnPreparation {
    fn clone(&self) -> (out: Self)
        ensures
            out.deep_view() == self.deep_view(),
    {
        self.dup()
    }
}

impl Default for TurnPreparation {
    fn default() -> (r: Self)
        ensures
            r.deep_view() == (TurnPreparationView { records: seq![], message: None }),
    {
        let r = TurnPreparation { records: Vec::new(), message: None };
        proof {
            assert(r.records.deep_view() =~= seq![]);
        }
        r
    }
}

/// Why a run's contexts could not be produced. `terminal` says the owner can
/// never run this agent again.
#[derive(Debug, PartialEq, Eq)]
pub struct ContextError {
    pub message: String,
    pub terminal: bool,
}

/// What a [`ContextError`] stands for.
#[verifier::ext_equal]
pub struct ContextErrorView {
    pub message: Seq<char>,
    pub terminal: bool,
}

impl DeepView for ContextError {
    type V = ContextErrorView;

    open spec fn deep_view(&self) -> ContextErrorView {
        ContextErrorView {
            message: self.message.deep_view(),
            terminal: self.terminal.deep_view(),
        }
    }
}

impl Dup for ContextError {
    fn dup(&self) -> (out: Self) {
        ContextError {
            message: self.message.dup(),
            terminal: self.terminal.dup(),
        }
    }
}

impl Clone for ContextError {
    fn clone(&self) -> (out: Self)
        ensures
            out.deep_view() == self.deep_view(),
    {
        self.dup()
    }
}

impl ContextError {
    /// A failure the caller may retry: the default reading of any error.
    pub fn retryable(message: String) -> (r: Self)
        ensures
            r == (ContextError { message, terminal: false }),
    {
        ContextError { message, terminal: false }
    }

    /// A failure that ends this agent's owner for good.
    pub fn terminal(message: String) -> (r: Self)
        ensures
            r == (ContextError { message, terminal: true }),
    {
        ContextError { message, terminal: true }
    }

    /// The error in words.
    pub fn text(&self) -> (r: &str)
        ensures
            r@ == self.deep_view().message,
    {
        self.message.as_str()
    }
}

impl From<String> for ContextError {
    fn from(message: String) -> (r: Self) {
        ContextError::retryable(message)
    }
}

impl vstd::std_specs::convert::FromSpecImpl<String> for ContextError {
    open spec fn obeys_from_spec() -> bool {
        true
    }

    open spec fn from_spec(message: String) -> Self {
        ContextError { message, terminal: false }
    }
}

/// The window a run gets, from what the session asked for and what its model's
/// card declares. A session that turned compaction off and a card that names
/// no window give the same answer.
pub fn compaction_window(auto_compact: Option<bool>, card_window: Option<u32>) -> (r: Option<u32>)
    ensures
        r == (if auto_compact == Some(false) {
            None
        } else {
            card_window
        }),
{
    if let Some(false) = auto_compact {
        return None;
    }
    card_window
}

/// One skill, as a workspace scan found it.
#[derive(Debug, PartialEq, Eq)]
pub struct Skill {
    pub name: String,
    pub body: String,
    /// The directory it lives in, when that is known.
    pub dir: Option<String>,
}

/// What a [`Skill`] stands for.
#[verifier::ext_equal]
pub struct SkillView {
    pub name: Seq<char>,
    pub body: Seq<char>,
    pub dir: Option<Seq<char>>,
}

impl DeepView for Skill {
    type V = SkillView;

    open spec fn deep_view(&self) -> SkillView {
        SkillView {
            name: self.name.deep_view(),
            body: self.body.deep_view(),
            dir: self.dir.deep_view(),
        }
    }
}

impl Dup for Skill {
    fn dup(&self) -> (out: Self) {
        Skill {
            name: self.name.dup(),
            body: self.body.dup(),
            dir: self.dir.dup(),
        }
    }
}

impl Clone for Skill {
    fn clone(&self) -> (out: Self)
        ensures
            out.deep_view() == self.deep_view(),
    {
        self.dup()
    }
}

/// A skill's instructions, and where its files are when that is known.
pub open spec fn skill_text(skill: SkillView) -> Seq<char> {
    match skill.dir {
        Some(dir) => skill.body + "\n\n[resources] This skill's files are in "@ + dir
            + "/. Read one with read_file(path=\""@ + dir + "/<file>\")."@,
        None => skill.body,
    }
}

/// A skill's instructions, and a hint at its directory so that the files beside
/// it can be read.
pub fn skill_body(skill: &Skill) -> (r: String)
    ensures
        r@ == skill_text(skill.deep_view()),
{
    let mut out = skill.body.clone();
    if let Some(dir) = &skill.dir {
        out.append("\n\n[resources] This skill's files are in ");
        out.append(dir.as_str());
        out.append("/. Read one with read_file(path=\"");
        out.append(dir.as_str());
        out.append("/<file>\").");
    }
    out
}

/// The first skill of this name.
pub open spec fn skill_named(skills: Seq<SkillView>, name: Seq<char>) -> Option<SkillView> {
    lists::find_map(
        skills,
        |s: SkillView|
            if s.name == name {
                Some(s)
            } else {
                None
            },
    )
}

/// The names of these skills, in order.
pub open spec fn skill_names(skills: Seq<SkillView>) -> Seq<Seq<char>> {
    skills.map_values(|s: SkillView| s.name)
}

/// The first skill of this name.
fn find_skill<'a>(skills: &'a [Skill], name: &str) -> (r: Option<&'a Skill>)
    ensures
        match r {
            Some(s) => skill_named(skills.deep_view(), name@) == Some(s.deep_view()),
            None => skill_named(skills.deep_view(), name@) is None,
        },
{
    let ghost all = skills.deep_view();
    let ghost pick = |s: SkillView|
        if s.name == name@ {
            Some(s)
        } else {
            None
        };
    proof {
        assert(all.skip(0) =~= all);
    }
    for i in 0..skills.len()
        invariant
            all == skills.deep_view(),
            pick == (|s: SkillView|
                if s.name == name@ {
                    Some(s)
                } else {
                    None
                }),
            lists::find_map(all.skip(i as int), pick) == lists::find_map(all, pick),
    {
        proof {
            assert(all[i as int] == skills@[i as int].deep_view());
            assert(all.skip(i as int).drop_first() =~= all.skip(i + 1));
        }
        if same(skills[i].name.as_str(), name) {
            return Some(&skills[i]);
        }
    }
    None
}

/// The names of these skills, in order.
fn names_of_skills(skills: &[Skill]) -> (r: Vec<String>)
    ensures
        r.deep_view() == skill_names(skills.deep_view()),
{
    let ghost want = skill_names(skills.deep_view());
    let mut out: Vec<String> = Vec::new();
    for i in 0..skills.len()
        invariant
            want == skill_names(skills.deep_view()),
            want.len() == skills.len(),
            out.deep_view() == want.take(i as int),
    {
        let ghost had = out.deep_view();
        proof {
            assert(skills.deep_view()[i as int] == skills@[i as int].deep_view());
        }
        out.push(skills[i].name.clone());
        proof {
            assert(out.deep_view() =~= had.push(want[i as int]));
            assert(want.take(i + 1) =~= want.take(i as int).push(want[i as int]));
        }
    }
    proof {
        assert(want.take(skills.len() as int) =~= want);
    }
    out
}

/// What a tool call means for an agent's toolbox: the scan it needs, or that it
/// goes to the tools below.
#[derive(Debug, PartialEq, Eq)]
pub enum ToolPlan {
    /// Load this skill of the shared library.
    SharedSkill { skill: String },
    /// Load this skill of this workspace.
    WorkspaceSkill { workspace: String, skill: String },
    /// Show the shared library.
    InspectShared,
    /// Show one workspace, or all of them.
    Inspect { only: Option<String> },
    /// The tools below take the call.
    Base,
}

/// What a [`ToolPlan`] stands for.
#[verifier::ext_equal]
pub enum ToolPlanView {
    SharedSkill { skill: Seq<char> },
    WorkspaceSkill { workspace: Seq<char>, skill: Seq<char> },
    InspectShared,
    Inspect { only: Option<Seq<char>> },
    Base,
}

impl DeepView for ToolPlan {
    type V = ToolPlanView;

    open spec fn deep_view(&self) -> ToolPlanView {
        match self {
            ToolPlan::SharedSkill { skill } => ToolPlanView::SharedSkill {
                skill: skill.deep_view(),
            },
            ToolPlan::WorkspaceSkill { workspace, skill } => ToolPlanView::WorkspaceSkill {
                workspace: workspace.deep_view(),
                skill: skill.deep_view(),
            },
            ToolPlan::InspectShared => ToolPlanView::InspectShared,
            ToolPlan::Inspect { only } => ToolPlanView::Inspect {
                only: only.deep_view(),
            },
            ToolPlan::Base => ToolPlanView::Base,
        }
    }
}

impl Dup for ToolPlan {
    fn dup(&self) -> (out: Self) {
        match self {
            ToolPlan::SharedSkill { skill } => ToolPlan::SharedSkill {
                skill: skill.dup(),
            },
            ToolPlan::WorkspaceSkill { workspace, skill } => ToolPlan::WorkspaceSkill {
                workspace: workspace.dup(),
                skill: skill.dup(),
            },
            ToolPlan::InspectShared => ToolPlan::InspectShared,
            ToolPlan::Inspect { only } => ToolPlan::Inspect {
                only: only.dup(),
            },
            ToolPlan::Base => ToolPlan::Base,
        }
    }
}

impl Clone for ToolPlan {
    fn clone(&self) -> (out: Self)
        ensures
            out.deep_view() == self.deep_view(),
    {
        self.dup()
    }
}

/// What is said to an agent that may not see the shared library.
pub const SHARED_NOT_ENABLED: &'static str =
    "the shared plugin library 'horsie_shared' is not enabled for this agent";

/// What the always-present skill tool is for.
pub const SKILL_DESCRIPTION: &'static str =
    "Load the full instructions for a named skill in a workspace (see '# Workspaces' or inspect_workspace).";

/// What the always-present inspection tool is for.
pub const INSPECT_DESCRIPTION: &'static str =
    "Re-scan and show the current state of the workspace(s): path, git status, instruction-file presence, and available skills (name + description).";

/// The schema of the skill tool.
pub const SKILL_SCHEMA: &'static str =
    "{\"type\":\"object\",\"required\":[\"name\"],\"properties\":{\"name\":{\"type\":\"string\",\"description\":\"The skill name.\"},\"workspace\":{\"type\":\"string\",\"description\":\"Which workspace the skill belongs to (see '# Workspaces'). Required when there is more than one workspace.\"}}}";

/// The schema of the inspection tool.
pub const INSPECT_SCHEMA: &'static str =
    "{\"type\":\"object\",\"properties\":{\"workspace\":{\"type\":\"string\",\"description\":\"Limit to one workspace (see '# Workspaces'). Omit to show all.\"}}}";

/// The two tools every agent has.
pub open spec fn standing_specs() -> Seq<ToolSpecView> {
    seq![
        ToolSpecView {
            name: SKILL_TOOL@,
            description: SKILL_DESCRIPTION@,
            input_schema: SKILL_SCHEMA@,
        },
        ToolSpecView {
            name: INSPECT_WORKSPACE_TOOL@,
            description: INSPECT_DESCRIPTION@,
            input_schema: INSPECT_SCHEMA@,
        },
    ]
}

/// A base of tools, and the `skill` and `inspect_workspace` tools every agent
/// has. Those two scan the workspace on each call, so a skill added mid-run is
/// loadable at once.
#[derive(Debug, PartialEq, Eq)]
pub struct AgentToolbox {
    base: Vec<ToolSpec>,
    /// The job's workspaces, by name.
    workspace_names: Vec<String>,
    /// Whether this agent may see the shared plugin library.
    use_plugins: bool,
}

/// What a [`AgentToolbox`] stands for.
#[verifier::ext_equal]
pub struct AgentToolboxView {
    pub base: Seq<ToolSpecView>,
    pub workspace_names: Seq<Seq<char>>,
    pub use_plugins: bool,
}

impl DeepView for AgentToolbox {
    type V = AgentToolboxView;

    closed spec fn deep_view(&self) -> AgentToolboxView {
        AgentToolboxView {
            base: self.base.deep_view(),
            workspace_names: self.workspace_names.deep_view(),
            use_plugins: self.use_plugins.deep_view(),
        }
    }
}

impl Dup for AgentToolbox {
    fn dup(&self) -> (out: Self) {
        AgentToolbox {
            base: self.base.dup(),
            workspace_names: self.workspace_names.dup(),
            use_plugins: self.use_plugins.dup(),
        }
    }
}

impl Clone for AgentToolbox {
    fn clone(&self) -> (out: Self)
        ensures
            out.deep_view() == self.deep_view(),
    {
        self.dup()
    }
}

/// The workspace a call means: the one it names, or the only one there is.
pub open spec fn workspace_meant(names: Seq<Seq<char>>, requested: Option<Seq<char>>) -> Result<
    Seq<char>,
    Seq<char>,
> {
    match requested {
        Some(name) => if names.contains(name) {
            Ok(name)
        } else {
            Err("unknown workspace '"@ + name + "'; available: "@ + text::joined(names, ", "@))
        },
        None => if names.len() == 1 {
            Ok(names[0])
        } else {
            Err("specify a workspace: "@ + text::joined(names, ", "@))
        },
    }
}

/// What a call means for an agent's toolbox.
pub open spec fn planned(toolbox: AgentToolboxView, name: Seq<char>, input: JsonView) -> Result<
    ToolPlanView,
    Seq<char>,
> {
    let workspace = input.str_at("workspace"@);
    if name == SKILL_TOOL@ {
        let skill = input.str_or_empty("name"@);
        if workspace == Some(SHARED_WORKSPACE@) {
            if toolbox.use_plugins {
                Ok(ToolPlanView::SharedSkill { skill })
            } else {
                Err(SHARED_NOT_ENABLED@)
            }
        } else {
            match workspace_meant(toolbox.workspace_names, workspace) {
                Ok(workspace) => Ok(ToolPlanView::WorkspaceSkill { workspace, skill }),
                Err(reason) => Err(reason),
            }
        }
    } else if name == INSPECT_WORKSPACE_TOOL@ {
        if workspace == Some(SHARED_WORKSPACE@) {
            if toolbox.use_plugins {
                Ok(ToolPlanView::InspectShared)
            } else {
                Err(SHARED_NOT_ENABLED@)
            }
        } else {
            Ok(ToolPlanView::Inspect { only: workspace })
        }
    } else {
        Ok(ToolPlanView::Base)
    }
}

impl AgentToolbox {
    /// These tools, for an agent of these workspaces.
    pub fn new(base: Vec<ToolSpec>, workspace_names: Vec<String>, use_plugins: bool) -> (r: Self)
        ensures
            r.deep_view() == (AgentToolboxView {
                base: base.deep_view(),
                workspace_names: workspace_names.deep_view(),
                use_plugins,
            }),
    {
        AgentToolbox { base, workspace_names, use_plugins }
    }

    /// The workspace a skill-side call means. Naming none is allowed only when
    /// there is exactly one.
    pub fn resolve_workspace(&self, requested: Option<&str>) -> (r: Result<String, ToolCallError>)
        ensures
            ({
                let wanted = match requested {
                    Some(name) => Some(name@),
                    None => None,
                };
                match r {
                    Ok(name) => workspace_meant(self.deep_view().workspace_names, wanted) == Ok::<
                        Seq<char>,
                        Seq<char>,
                    >(name@),
                    Err(e) => workspace_meant(
                        self.deep_view().workspace_names,
                        wanted,
                    ) matches Err(reason) && e.deep_view() == ToolCallErrorView::InvalidInput(
                        reason,
                    ),
                }
            }),
    {
        match requested {
            Some(name) => {
                if contains(&self.workspace_names, name) {
                    Ok(name.to_owned())
                } else {
                    let mut said = "unknown workspace '".to_owned();
                    said.append(name);
                    said.append("'; available: ");
                    said.append(join(&self.workspace_names, ", ").as_str());
                    Err(ToolCallError::InvalidInput(said))
                }
            },
            None => {
                if self.workspace_names.len() == 1 {
                    proof {
                        assert(self.deep_view().workspace_names[0] == self.workspace_names@[0]@);
                    }
                    Ok(self.workspace_names[0].clone())
                } else {
                    let mut said = "specify a workspace: ".to_owned();
                    said.append(join(&self.workspace_names, ", ").as_str());
                    Err(ToolCallError::InvalidInput(said))
                }
            },
        }
    }

    /// What the model is shown: the tools below, and the two every agent has.
    pub fn specs(&self) -> (r: Vec<ToolSpec>)
        ensures
            r.deep_view() == self.deep_view().base + standing_specs(),
    {
        let mut specs = self.base.dup();
        let ghost had = specs.deep_view();
        let skill = ToolSpec {
            name: SKILL_TOOL.to_owned(),
            description: SKILL_DESCRIPTION.to_owned(),
            input_schema: SKILL_SCHEMA.to_owned(),
        };
        let inspect = ToolSpec {
            name: INSPECT_WORKSPACE_TOOL.to_owned(),
            description: INSPECT_DESCRIPTION.to_owned(),
            input_schema: INSPECT_SCHEMA.to_owned(),
        };
        specs.push(skill);
        specs.push(inspect);
        proof {
            assert(specs.deep_view() =~= had + seq![skill.deep_view(), inspect.deep_view()]);
        }
        specs
    }

    /// What a call means here: the scan it needs, or that the tools below take
    /// it. An agent that was not given the shared library is refused before
    /// anything is scanned.
    pub fn plan(&self, name: &str, input: &Json) -> (r: Result<ToolPlan, ToolCallError>)
        ensures
            match r {
                Ok(plan) => planned(self.deep_view(), name@, input.deep_view()) == Ok::<
                    ToolPlanView,
                    Seq<char>,
                >(plan.deep_view()),
                Err(e) => planned(self.deep_view(), name@, input.deep_view()) matches Err(reason)
                    && e.deep_view() == ToolCallErrorView::InvalidInput(reason),
            },
    {
        let workspace = input.str_at("workspace");
        let shared = match workspace {
            Some(name) => same(name, SHARED_WORKSPACE),
            None => false,
        };
        if same(name, SKILL_TOOL) {
            let skill = input.str_or_empty("name");
            if shared {
                if !self.use_plugins {
                    return Err(ToolCallError::InvalidInput(SHARED_NOT_ENABLED.to_owned()));
                }
                return Ok(ToolPlan::SharedSkill { skill });
            }
            return match self.resolve_workspace(workspace) {
                Ok(workspace) => Ok(ToolPlan::WorkspaceSkill { workspace, skill }),
                Err(e) => Err(e),
            };
        }
        if same(name, INSPECT_WORKSPACE_TOOL) {
            if shared {
                if !self.use_plugins {
                    return Err(ToolCallError::InvalidInput(SHARED_NOT_ENABLED.to_owned()));
                }
                return Ok(ToolPlan::InspectShared);
            }
            let only = match workspace {
                Some(name) => Some(name.to_owned()),
                None => None,
            };
            return Ok(ToolPlan::Inspect { only });
        }
        Ok(ToolPlan::Base)
    }

    /// What a skill of the shared library gives, from what a scan found.
    pub fn shared_skill(skills: &[Skill], skill: &str) -> (r: Result<Json, ToolCallError>)
        ensures
            match skill_named(skills.deep_view(), skill@) {
                Some(found) => r matches Ok(value) && value.deep_view() == JsonView::String(
                    skill_text(found),
                ),
                None => r matches Err(e) && e.deep_view() == ToolCallErrorView::InvalidInput(
                    "unknown shared skill '"@ + skill@ + "'; available: "@ + text::joined(
                        skill_names(skills.deep_view()),
                        ", "@,
                    ),
                ),
            },
    {
        match find_skill(skills, skill) {
            Some(found) => Ok(Json::String(skill_body(found))),
            None => {
                let mut said = "unknown shared skill '".to_owned();
                said.append(skill);
                said.append("'; available: ");
                said.append(join(&names_of_skills(skills), ", ").as_str());
                Err(ToolCallError::InvalidInput(said))
            },
        }
    }

    /// What a skill of a workspace gives, from what a scan found there; nothing
    /// found when the workspace is not available.
    pub fn workspace_skill(workspace: &str, found: Option<&[Skill]>, skill: &str) -> (r: Result<
        Json,
        ToolCallError,
    >)
        ensures
            match found {
                None => r matches Err(e) && e.deep_view() == ToolCallErrorView::InvalidInput(
                    "workspace '"@ + workspace@ + "' is not available"@,
                ),
                Some(skills) => match skill_named(skills.deep_view(), skill@) {
                    Some(found) => r matches Ok(value) && value.deep_view() == JsonView::String(
                        skill_text(found),
                    ),
                    None => r matches Err(e) && e.deep_view() == ToolCallErrorView::InvalidInput(
                        "unknown skill '"@ + skill@ + "' in workspace '"@ + workspace@
                            + "'; available: "@ + text::joined(skill_names(skills.deep_view()), ", "@),
                    ),
                },
            },
    {
        let skills = match found {
            Some(skills) => skills,
            None => {
                let mut said = "workspace '".to_owned();
                said.append(workspace);
                said.append("' is not available");
                return Err(ToolCallError::InvalidInput(said));
            },
        };
        match find_skill(skills, skill) {
            Some(found) => Ok(Json::String(skill_body(found))),
            None => {
                let mut said = "unknown skill '".to_owned();
                said.append(skill);
                said.append("' in workspace '");
                said.append(workspace);
                said.append("'; available: ");
                said.append(join(&names_of_skills(skills), ", ").as_str());
                Err(ToolCallError::InvalidInput(said))
            },
        }
    }

    /// Whether an inspection shows the shared library: when everything is listed
    /// for an agent that may see it.
    pub fn shows_shared(&self, filtered: bool) -> (r: bool)
        ensures
            r == (self.deep_view().use_plugins && !filtered),
    {
        self.use_plugins && !filtered
    }

    /// What an inspection gives: the workspaces, and the shared library behind
    /// them when everything is listed for an agent that may see it.
    pub fn inspection(&self, workspaces: String, shared: &str, filtered: bool) -> (r: String)
        ensures
            r@ == (if self.deep_view().use_plugins && !filtered {
                workspaces@ + "\n\n"@ + shared@
            } else {
                workspaces@
            }),
    {
        let mut out = workspaces;
        if self.shows_shared(filtered) {
            out.append("\n\n");
            out.append(shared);
        }
        out
    }
}

/// What an agent's tools below the two standing ones advertise: the runtime's,
/// and a server's behind them.
pub open spec fn base_specs(runtime: Seq<ToolSpecView>, mcp: McpToolboxesView) -> Seq<
    ToolSpecView,
> {
    if mcp.boxes.len() == 0 && mcp.unavailable.len() == 0 {
        runtime
    } else {
        mcp_toolbox::first_of_each(mcp_toolbox::flattened(seq![runtime] + mcp.boxes))
    }
}

/// The standard tools: the runtime's, composed with whatever servers this agent
/// connected.
#[derive(Debug, PartialEq, Eq)]
pub struct DefaultToolboxFactory;

impl DefaultToolboxFactory {
    /// The runtime's tools and any server's, flattened into one set, with the
    /// servers that did not connect known. `None` when no server was asked for.
    pub fn composite(runtime: Vec<ToolSpec>, mcp: McpToolboxes) -> (r: Option<CompositeToolbox>)
        ensures
            r.deep_view() == (if mcp.deep_view().boxes.len() == 0
                && mcp.deep_view().unavailable.len() == 0 {
                None
            } else {
                Some(
                    CompositeToolboxView {
                        boxes: seq![runtime.deep_view()] + mcp.deep_view().boxes,
                        unavailable: mcp.deep_view().unavailable,
                    },
                )
            }),
    {
        if mcp.is_empty() {
            return None;
        }
        let ghost first = runtime.deep_view();
        let ghost rest = mcp.deep_view().boxes;
        let mut mcp = mcp;
        let mut boxes: Vec<Vec<ToolSpec>> = Vec::new();
        boxes.push(runtime);
        boxes.append(&mut mcp.boxes);
        proof {
            assert(boxes.deep_view() =~= seq![first] + rest);
        }
        Some(CompositeToolbox::new(boxes).with_unavailable(mcp.unavailable))
    }

    /// The toolbox an agent runs with. Nothing is narrowed here: a selection is
    /// applied once, outermost.
    pub fn for_agent(
        &self,
        runtime: Vec<ToolSpec>,
        workspace_names: Vec<String>,
        use_plugins: bool,
        mcp: McpToolboxes,
    ) -> (r: AgentToolbox)
        ensures
            r.deep_view() == (AgentToolboxView {
                base: base_specs(runtime.deep_view(), mcp.deep_view()),
                workspace_names: workspace_names.deep_view(),
                use_plugins,
            }),
    {
        let base = match DefaultToolboxFactory::composite(runtime.dup(), mcp) {
            Some(composite) => composite.specs(),
            None => runtime,
        };
        AgentToolbox::new(base, workspace_names, use_plugins)
    }
}

/// Whether a selection lets a tool through. A name the catalogue does not know
/// passes whatever the selection says.
pub open spec fn permitted(
    allowed: Seq<Seq<char>>,
    governed: Seq<Seq<char>>,
    name: Seq<char>,
) -> bool {
    !governed.contains(name) || allowed.contains(name)
}

/// The spec of a tool a selection lets through.
pub open spec fn let_through(
    allowed: Seq<Seq<char>>,
    governed: Seq<Seq<char>>,
    spec: ToolSpecView,
) -> Option<ToolSpecView> {
    if permitted(allowed, governed, spec.name) {
        Some(spec)
    } else {
        None
    }
}

/// What a selection leaves of these specs.
pub open spec fn filtered(
    specs: Seq<ToolSpecView>,
    allowed: Seq<Seq<char>>,
    governed: Seq<Seq<char>>,
) -> Seq<ToolSpecView> {
    lists::filter_map(specs, |s: ToolSpecView| let_through(allowed, governed, s))
}

/// A fully composed toolbox, without the tools an agent's selection left out.
///
/// It filters by two sets. `governed` is every name a selection could have
/// known; a tool outside it is gated by its own channel and passes.
#[derive(Debug, PartialEq, Eq)]
pub struct FilteredToolbox {
    inner: Vec<ToolSpec>,
    allowed: Vec<String>,
    governed: Vec<String>,
}

/// What a [`FilteredToolbox`] stands for.
#[verifier::ext_equal]
pub struct FilteredToolboxView {
    pub inner: Seq<ToolSpecView>,
    pub allowed: Seq<Seq<char>>,
    pub governed: Seq<Seq<char>>,
}

impl DeepView for FilteredToolbox {
    type V = FilteredToolboxView;

    closed spec fn deep_view(&self) -> FilteredToolboxView {
        FilteredToolboxView {
            inner: self.inner.deep_view(),
            allowed: self.allowed.deep_view(),
            governed: self.governed.deep_view(),
        }
    }
}

impl Dup for FilteredToolbox {
    fn dup(&self) -> (out: Self) {
        FilteredToolbox {
            inner: self.inner.dup(),
            allowed: self.allowed.dup(),
            governed: self.governed.dup(),
        }
    }
}

impl Clone for FilteredToolbox {
    fn clone(&self) -> (out: Self)
        ensures
            out.deep_view() == self.deep_view(),
    {
        self.dup()
    }
}

impl FilteredToolbox {
    /// These tools, under this selection.
    pub fn new(inner: Vec<ToolSpec>, allowed: Vec<String>, governed: Vec<String>) -> (r: Self)
        ensures
            r.deep_view() == (FilteredToolboxView {
                inner: inner.deep_view(),
                allowed: allowed.deep_view(),
                governed: governed.deep_view(),
            }),
    {
        FilteredToolbox { inner, allowed, governed }
    }

    /// Whether this agent may call a tool.
    pub fn permits(&self, name: &str) -> (r: bool)
        ensures
            r == permitted(self.deep_view().allowed, self.deep_view().governed, name@),
    {
        !contains(&self.governed, name) || contains(&self.allowed, name)
    }

    /// What the model is shown.
    pub fn specs(&self) -> (r: Vec<ToolSpec>)
        ensures
            r.deep_view() == filtered(
                self.deep_view().inner,
                self.deep_view().allowed,
                self.deep_view().governed,
            ),
    {
        let ghost all = self.deep_view().inner;
        let ghost allowed = self.deep_view().allowed;
        let ghost governed = self.deep_view().governed;
        let ghost keep = |s: ToolSpecView| let_through(allowed, governed, s);
        let mut out: Vec<ToolSpec> = Vec::new();
        for i in 0..self.inner.len()
            invariant
                all == self.deep_view().inner,
                allowed == self.deep_view().allowed,
                governed == self.deep_view().governed,
                keep == (|s: ToolSpecView| let_through(allowed, governed, s)),
                out.deep_view() == lists::filter_map(all.take(i as int), keep),
        {
            let ghost had = out.deep_view();
            proof {
                assert(all[i as int] == self.inner@[i as int].deep_view());
                lists::lemma_filter_map_step(all, keep, i as int);
            }
            if self.permits(self.inner[i].name.as_str()) {
                out.push(self.inner[i].dup());
                proof {
                    assert(out.deep_view() =~= had.push(all[i as int]));
                }
            }
        }
        proof {
            assert(all.take(self.inner.len() as int) =~= all);
        }
        out
    }

    /// Whether a call may go on to the tools below.
    pub fn check_call(&self, name: &str) -> (r: Result<(), ToolCallError>)
        ensures
            ({
                let may = permitted(self.deep_view().allowed, self.deep_view().governed, name@);
                match r {
                    Ok(()) => may,
                    Err(e) => !may && e.deep_view() == ToolCallErrorView::InvalidInput(
                        "tool '"@ + name@ + "' is not permitted for this agent"@,
                    ),
                }
            }),
    {
        if self.permits(name) {
            return Ok(());
        }
        let mut said = "tool '".to_owned();
        said.append(name);
        said.append("' is not permitted for this agent");
        Err(ToolCallError::InvalidInput(said))
    }
}

/// A tool the catalogue does not know is never filtered.
pub proof fn law_an_ungoverned_tool_passes(
    specs: Seq<ToolSpecView>,
    allowed: Seq<Seq<char>>,
    governed: Seq<Seq<char>>,
    i: int,
)
    requires
        0 <= i < specs.len(),
        !governed.contains(specs[i].name),
    ensures
        filtered(specs, allowed, governed).contains(specs[i]),
{
    let keep = |s: ToolSpecView| let_through(allowed, governed, s);
    lists::lemma_filter_map_members(specs, keep);
    assert(keep(specs[i]) == Some(specs[i]));
}

/// A governed tool is shown exactly when the selection names it.
pub proof fn law_a_selection_decides_governed_tools(
    specs: Seq<ToolSpecView>,
    allowed: Seq<Seq<char>>,
    governed: Seq<Seq<char>>,
    spec: ToolSpecView,
)
    requires
        governed.contains(spec.name),
    ensures
        filtered(specs, allowed, governed).contains(spec) <==> specs.contains(spec)
            && allowed.contains(spec.name),
{
    let keep = |s: ToolSpecView| let_through(allowed, governed, s);
    lists::lemma_filter_map_members(specs, keep);
    if specs.contains(spec) && allowed.contains(spec.name) {
        let i = choose|i: int| 0 <= i < specs.len() && specs[i] == spec;
        assert(keep(specs[i]) == Some(spec));
    }
    if filtered(specs, allowed, governed).contains(spec) {
        let i = choose|i: int| 0 <= i < specs.len() && keep(#[trigger] specs[i]) == Some(spec);
        assert(specs[i] == spec);
    }
}

/// Two selections stacked can only narrow: what passes both is what each of
/// them lets through, whichever is applied first.
pub proof fn law_stacked_selections_only_narrow(
    specs: Seq<ToolSpecView>,
    a: Seq<Seq<char>>,
    b: Seq<Seq<char>>,
    governed: Seq<Seq<char>>,
)
    ensures
        filtered(filtered(specs, a, governed), b, governed) == lists::filter_map(
            specs,
            |s: ToolSpecView|
                if permitted(a, governed, s.name) && permitted(b, governed, s.name) {
                    Some(s)
                } else {
                    None
                },
        ),
    decreases specs.len(),
{
    if specs.len() > 0 {
        let rest = specs.drop_last();
        law_stacked_selections_only_narrow(rest, a, b, governed);
        let once = filtered(specs, a, governed);
        if permitted(a, governed, specs.last().name) {
            assert(once.drop_last() =~= filtered(rest, a, governed));
        }
    }
}

/// The two standing tools are always shown, last.
pub proof fn law_skill_and_inspect_are_always_present(
    runtime: Seq<ToolSpecView>,
    mcp: McpToolboxesView,
)
    ensures
        mcp_toolbox::advertises(base_specs(runtime, mcp) + standing_specs(), SKILL_TOOL@),
        mcp_toolbox::advertises(base_specs(runtime, mcp) + standing_specs(), INSPECT_WORKSPACE_TOOL@),
{
    let base = base_specs(runtime, mcp);
    let all = base + standing_specs();
    assert(all[base.len() as int] == standing_specs()[0]);
    assert(all[base.len() + 1int] == standing_specs()[1]);
}

/// A selection is applied tool by tool, in order: a tool stays exactly when no
/// selection could have known it or this one names it, and it stays as it is.
pub proof fn law_a_selection_is_applied_tool_by_tool(
    a: Seq<ToolSpecView>,
    b: Seq<ToolSpecView>,
    spec: ToolSpecView,
    allowed: Seq<Seq<char>>,
    governed: Seq<Seq<char>>,
)
    ensures
        filtered(a + b, allowed, governed) == filtered(a, allowed, governed) + filtered(
            b,
            allowed,
            governed,
        ),
        filtered(seq![spec], allowed, governed) == (if governed.contains(spec.name)
            && !allowed.contains(spec.name) {
            seq![]
        } else {
            seq![spec]
        }),
        permitted(allowed, governed, spec.name) <==> !governed.contains(spec.name)
            || allowed.contains(spec.name),
{
    let keep = |s: ToolSpecView| let_through(allowed, governed, s);
    crate::lists::law_a_list_is_filtered_item_by_item(a, b, spec, keep);
}

/// The workspace a call means is the one it names, when there is such a one;
/// naming none means the only one there is, and is refused where there are
/// more or none at all.
pub proof fn law_a_call_means_a_workspace_that_is_there(
    names: Seq<Seq<char>>,
    requested: Option<Seq<char>>,
)
    ensures
        workspace_meant(names, requested) matches Ok(name) ==> names.contains(name) && (
        requested matches Some(asked) ==> name == asked),
        requested matches Some(asked) ==> (workspace_meant(names, requested) is Ok
            <==> names.contains(asked)),
        requested is None ==> (workspace_meant(names, requested) is Ok <==> names.len() == 1),
{
}

/// A call for one of the two standing tools is planned by what it asks for:
/// the shared library only where the agent may see it, and a workspace by its
/// name. Every other tool is left to the tools below.
pub proof fn law_a_call_is_planned_by_what_it_asks_for(
    toolbox: AgentToolboxView,
    name: Seq<char>,
    input: JsonView,
)
    ensures
        ({
            let plan = planned(toolbox, name, input);
            let shared = input.get("workspace"@) == Some(JsonView::String("horsie_shared"@));
            let asked = match input.get("name"@) {
                Some(JsonView::String(text)) => text,
                _ => seq![],
            };
            let workspace = match input.get("workspace"@) {
                Some(JsonView::String(text)) => Some(text),
                _ => None,
            };
            &&& name != "skill"@ && name != "inspect_workspace"@ ==> plan == Ok::<
                ToolPlanView,
                Seq<char>,
            >(ToolPlanView::Base)
            &&& name == "skill"@ || name == "inspect_workspace"@ ==> (shared
                && !toolbox.use_plugins ==> plan == Err::<ToolPlanView, Seq<char>>(
                "the shared plugin library 'horsie_shared' is not enabled for this agent"@,
            ))
            &&& name == "skill"@ && shared && toolbox.use_plugins ==> plan == Ok::<
                ToolPlanView,
                Seq<char>,
            >(ToolPlanView::SharedSkill { skill: asked })
            &&& name == "skill"@ && !shared ==> match workspace_meant(
                toolbox.workspace_names,
                workspace,
            ) {
                Ok(workspace) => plan == Ok::<ToolPlanView, Seq<char>>(
                    ToolPlanView::WorkspaceSkill { workspace, skill: asked },
                ),
                Err(reason) => plan == Err::<ToolPlanView, Seq<char>>(reason),
            }
            &&& name == "inspect_workspace"@ && shared && toolbox.use_plugins ==> plan == Ok::<
                ToolPlanView,
                Seq<char>,
            >(ToolPlanView::InspectShared)
            &&& name == "inspect_workspace"@ && !shared ==> plan == Ok::<ToolPlanView, Seq<char>>(
                ToolPlanView::Inspect { only: workspace },
            )
        }),
{
    reveal_strlit("skill");
    reveal_strlit("inspect_workspace");
    assert("skill"@.len() != "inspect_workspace"@.len());
}

/// An agent's tools are the runtime's and then its servers', the first of each
/// name; with no server asked for they are the runtime's as they are.
pub proof fn law_the_runtimes_tools_come_first(
    runtime: Seq<ToolSpecView>,
    mcp: McpToolboxesView,
    i: int,
)
    requires
        0 <= i < runtime.len(),
        forall|j: int| 0 <= j < i ==> (#[trigger] runtime[j]).name != runtime[i].name,
    ensures
        base_specs(runtime, mcp).contains(runtime[i]),
        mcp.boxes.len() == 0 && mcp.unavailable.len() == 0 ==> base_specs(runtime, mcp) == runtime,
{
    let all = mcp_toolbox::flattened(seq![runtime] + mcp.boxes);
    crate::mcp_toolbox::law_boxes_are_laid_end_to_end(seq![runtime], mcp.boxes, runtime);
    crate::mcp_toolbox::law_the_first_of_a_name_is_shown(all);
    assert(all[i] == runtime[i]);
    assert(!crate::mcp_toolbox::advertises(all.take(i), runtime[i].name)) by {
        if crate::mcp_toolbox::advertises(all.take(i), runtime[i].name) {
            let j = choose|j: int|
                0 <= j < all.take(i).len() && (#[trigger] all.take(i)[j]).name == runtime[i].name;
            assert(runtime[j].name != runtime[i].name);
        }
    }
}

/// A skill is looked up by its name: the first of that name, as it is. Its
/// text is its body, and behind it where its files are when it has any.
pub proof fn law_a_skill_is_found_by_name(skills: Seq<SkillView>, name: Seq<char>, k: int)
    requires
        0 <= k <= skills.len(),
        forall|i: int| 0 <= i < k ==> (#[trigger] skills[i]).name != name,
        k < skills.len() ==> skills[k].name == name,
    ensures
        k < skills.len() ==> skill_named(skills, name) == Some(skills[k]),
        k == skills.len() ==> skill_named(skills, name) is None,
        skill_names(skills).len() == skills.len(),
        forall|i: int|
            0 <= i < skills.len() ==> (#[trigger] skill_names(skills)[i]) == skills[i].name,
{
    let pick = |s: SkillView|
        if s.name == name {
            Some(s)
        } else {
            None
        };
    assert forall|j: int| 0 <= j < k implies pick(#[trigger] skills[j]) is None by {
        assert(skills[j].name != name);
    }
    crate::lists::law_a_search_ends_at_the_first_find(skills, pick, k);
}

/// A skill reads as its body, and names its directory when it has one.
pub proof fn law_a_skill_reads_as_its_body(skill: SkillView)
    ensures
        skill.dir is None ==> skill_text(skill) == skill.body,
        skill.dir matches Some(dir) ==> skill_text(skill) == skill.body
            + "\n\n[resources] This skill's files are in "@ + dir
            + "/. Read one with read_file(path=\""@ + dir + "/<file>\")."@,
{
}

/// A workspace that is not there, or one that was not named among several, is
/// refused with the names there are.
pub proof fn law_a_workspace_that_is_not_there_is_refused(
    names: Seq<Seq<char>>,
    name: Seq<char>,
)
    ensures
        !names.contains(name) ==> workspace_meant(names, Some(name)) == Err::<
            Seq<char>,
            Seq<char>,
        >("unknown workspace '"@ + name + "'; available: "@ + text::joined(names, ", "@)),
        names.len() != 1 ==> workspace_meant(names, None) == Err::<Seq<char>, Seq<char>>(
            "specify a workspace: "@ + text::joined(names, ", "@),
        ),
        names.len() == 1 ==> workspace_meant(names, None) == Ok::<Seq<char>, Seq<char>>(names[0]),
{
}

/// An outcome is reported by the agent it is of.
pub proof fn law_an_outcome_is_its_agents_own(agent: AgentId)
    ensures
        (AgentOutcome::Started { agent }).reporter() == agent,
        (AgentOutcome::Interrupted { agent }).reporter() == agent,
        (AgentOutcome::Parked { agent }).reporter() == agent,
{
}

} // verus!
