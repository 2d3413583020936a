//! The runners a session holds: what one is started with, and what it reports.
//!
//! An agent is one of many under a session. It asks for a child by naming what
//! the child is to be started with, and hears of it by what the child reports.

use crate::ids::{AgentId, RunnerId};
use crate::json::{Json, JsonView};
use crate::lists;
use crate::text::{Dup, same};
use vstd::prelude::*;

verus! {

/// How deep a tree of workers may grow.
pub const MAX_SUBAGENT_DEPTH: u32 = 4;

/// How many workers may run at once when nothing else is configured.
pub const DEFAULT_MAX_SUBAGENTS: u32 = 8;

/// What an agent is configured with.
#[derive(Debug, PartialEq, Eq)]
pub struct AgentSettings {
    pub model: String,
    pub max_iterations: Option<u32>,
    pub max_retries: u32,
    pub allowed_tools: Option<Vec<String>>,
    /// Whether the agent takes plugins at all; it does unless this says not.
    pub use_plugins: Option<bool>,
    /// The plugins selected for it; none means the account's defaults.
    pub plugins: Vec<String>,
    pub auto_compact: Option<bool>,
    pub max_concurrent_subagents: Option<u32>,
}

/// What a [`AgentSettings`] stands for.
#[verifier::ext_equal]
pub struct AgentSettingsView {
    pub model: Seq<char>,
    pub max_iterations: Option<u32>,
    pub max_retries: u32,
    pub allowed_tools: Option<Seq<Seq<char>>>,
    pub use_plugins: Option<bool>,
    pub plugins: Seq<Seq<char>>,
    pub auto_compact: Option<bool>,
    pub max_concurrent_subagents: Option<u32>,
}

impl DeepView for AgentSettings {
    type V = AgentSettingsView;

    open spec fn deep_view(&self) -> AgentSettingsView {
        AgentSettingsView {
            model: self.model.deep_view(),
            max_iterations: self.max_iterations.deep_view(),
            max_retries: self.max_retries.deep_view(),
            allowed_tools: self.allowed_tools.deep_view(),
            use_plugins: self.use_plugins.deep_view(),
            plugins: self.plugins.deep_view(),
            auto_compact: self.auto_compact.deep_view(),
            max_concurrent_subagents: self.max_concurrent_subagents.deep_view(),
        }
    }
}

impl Dup for AgentSettings {
    fn dup(&self) -> (out: Self) {
        AgentSettings {
            model: self.model.dup(),
            max_iterations: self.max_iterations.dup(),
            max_retries: self.max_retries.dup(),
            allowed_tools: self.allowed_tools.dup(),
            use_plugins: self.use_plugins.dup(),
            plugins: self.plugins.dup(),
            auto_compact: self.auto_compact.dup(),
            max_concurrent_subagents: self.max_concurrent_subagents.dup(),
        }
    }
}

impl Clone for AgentSettings {
    fn clone(&self) -> (out: Self)
        ensures
            out.deep_view() == self.deep_view(),
    {
        self.dup()
    }
}

impl AgentSettingsView {
    /// How many workers may run at once.
    pub open spec fn max_subagents(self) -> u32 {
        match self.max_concurrent_subagents {
            Some(n) => n,
            None => DEFAULT_MAX_SUBAGENTS,
        }
    }

    /// Whether the agent takes plugins.
    pub open spec fn takes_plugins(self) -> bool {
        self.use_plugins != Some(false)
    }
}

impl AgentSettings {
    /// How many workers may run at once.
    pub fn max_subagents(&self) -> (r: u32)
        ensures
            r == self.deep_view().max_subagents(),
    {
        match self.max_concurrent_subagents {
            Some(n) => n,
            None => DEFAULT_MAX_SUBAGENTS,
        }
    }

    /// Whether the agent takes plugins.
    pub fn takes_plugins(&self) -> (r: bool)
        ensures
            r == self.deep_view().takes_plugins(),
    {
        match self.use_plugins {
            Some(takes) => takes,
            None => true,
        }
    }
}

/// How a branched conversation is seeded.
#[derive(Debug, Clone, Copy, PartialEq, Eq, Structural)]
pub enum ForkMode {
    /// With a copy of the source's log.
    Copy,
    /// With a summary of it.
    Summary,
}

impl DeepView for ForkMode {
    type V = ForkMode;

    open spec fn deep_view(&self) -> ForkMode {
        *self
    }
}

impl Dup for ForkMode {
    fn dup(&self) -> (out: Self) {
        *self
    }
}

/// The point a conversation was branched at.
#[derive(Debug, PartialEq, Eq)]
pub struct BranchPoint {
    /// The agent whose log it was cut from.
    pub source: AgentId,
    /// Where in that log. Whoever makes the cut stamps it; a request says zero.
    pub source_seq: u64,
    pub mode: ForkMode,
}

/// What a [`BranchPoint`] stands for.
#[verifier::ext_equal]
pub struct BranchPointView {
    pub source: AgentId,
    pub source_seq: u64,
    pub mode: ForkMode,
}

impl DeepView for BranchPoint {
    type V = BranchPointView;

    open spec fn deep_view(&self) -> BranchPointView {
        BranchPointView {
            source: self.source.deep_view(),
            source_seq: self.source_seq.deep_view(),
            mode: self.mode.deep_view(),
        }
    }
}

impl Dup for BranchPoint {
    fn dup(&self) -> (out: Self) {
        BranchPoint {
            source: self.source.dup(),
            source_seq: self.source_seq.dup(),
            mode: self.mode.dup(),
        }
    }
}

impl Clone for BranchPoint {
    fn clone(&self) -> (out: Self)
        ensures
            out.deep_view() == self.deep_view(),
    {
        self.dup()
    }
}

/// Which graph a workflow run is of.
#[derive(Debug, PartialEq, Eq)]
pub enum WorkflowSource {
    /// One already defined, by name.
    Named(String),
}

/// What a [`WorkflowSource`] stands for.
#[verifier::ext_equal]
pub enum WorkflowSourceView {
    Named(Seq<char>),
}

impl DeepView for WorkflowSource {
    type V = WorkflowSourceView;

    open spec fn deep_view(&self) -> WorkflowSourceView {
        match self {
            WorkflowSource::Named(a) => WorkflowSourceView::Named(a.deep_view()),
        }
    }
}

impl Dup for WorkflowSource {
    fn dup(&self) -> (out: Self) {
        match self {
            WorkflowSource::Named(a) => WorkflowSource::Named(a.dup()),
        }
    }
}

impl Clone for WorkflowSource {
    fn clone(&self) -> (out: Self)
        ensures
            out.deep_view() == self.deep_view(),
    {
        self.dup()
    }
}

/// What a runner is started with.
#[derive(Debug, PartialEq, Eq)]
pub enum RunnerArgs {
    /// A worker with one task.
    SubAgent {
        agent: AgentId,
        label: String,
        task: String,
        agent_type: Option<String>,
        settings: Box<AgentSettings>,
    },
    /// A conversation, branched from another where `seed` says so.
    Conversation {
        agent: AgentId,
        seed: Option<BranchPoint>,
        message: String,
        settings: Box<AgentSettings>,
    },
    /// A run of a workflow.
    Workflow { source: WorkflowSource, input: String },
}

/// What a [`RunnerArgs`] stands for.
#[verifier::ext_equal]
pub enum RunnerArgsView {
    SubAgent { agent: AgentId, label: Seq<char>, task: Seq<char>, agent_type: Option<Seq<char>>, settings: AgentSettingsView },
    Conversation { agent: AgentId, seed: Option<BranchPointView>, message: Seq<char>, settings: AgentSettingsView },
    Workflow { source: WorkflowSourceView, input: Seq<char> },
}

impl DeepView for RunnerArgs {
    type V = RunnerArgsView;

    open spec fn deep_view(&self) -> RunnerArgsView {
        match self {
            RunnerArgs::SubAgent { agent, label, task, agent_type, settings } => RunnerArgsView::SubAgent {
                agent: agent.deep_view(),
                label: label.deep_view(),
                task: task.deep_view(),
                agent_type: agent_type.deep_view(),
                settings: settings.deep_view(),
            },
            RunnerArgs::Conversation { agent, seed, message, settings } => RunnerArgsView::Conversation {
                agent: agent.deep_view(),
                seed: seed.deep_view(),
                message: message.deep_view(),
                settings: settings.deep_view(),
            },
            RunnerArgs::Workflow { source, input } => RunnerArgsView::Workflow {
                source: source.deep_view(),
                input: input.deep_view(),
            },
        }
    }
}

impl Dup for RunnerArgs {
    fn dup(&self) -> (out: Self) {
        match self {
            RunnerArgs::SubAgent { agent, label, task, agent_type, settings } => RunnerArgs::SubAgent {
                agent: agent.dup(),
                label: label.dup(),
                task: task.dup(),
                agent_type: agent_type.dup(),
                settings: settings.dup(),
            },
            RunnerArgs::Conversation { agent, seed, message, settings } => RunnerArgs::Conversation {
                agent: agent.dup(),
                seed: seed.dup(),
                message: message.dup(),
                settings: settings.dup(),
            },
            RunnerArgs::Workflow { source, input } => RunnerArgs::Workflow {
                source: source.dup(),
                input: input.dup(),
            },
        }
    }
}

impl Clone for RunnerArgs {
    fn clone(&self) -> (out: Self)
        ensures
            out.deep_view() == self.deep_view(),
    {
        self.dup()
    }
}

/// How a worker ended.
#[derive(Debug, PartialEq, Eq)]
pub enum SubAgentOutcome {
    Completed { label: String, report: String },
    Failed { label: String, error: String },
}

/// What a [`SubAgentOutcome`] stands for.
#[verifier::ext_equal]
pub enum SubAgentOutcomeView {
    Completed { label: Seq<char>, report: Seq<char> },
    Failed { label: Seq<char>, error: Seq<char> },
}

impl DeepView for SubAgentOutcome {
    type V = SubAgentOutcomeView;

    open spec fn deep_view(&self) -> SubAgentOutcomeView {
        match self {
            SubAgentOutcome::Completed { label, report } => SubAgentOutcomeView::Completed {
                label: label.deep_view(),
                report: report.deep_view(),
            },
            SubAgentOutcome::Failed { label, error } => SubAgentOutcomeView::Failed {
                label: label.deep_view(),
                error: error.deep_view(),
            },
        }
    }
}

impl Dup for SubAgentOutcome {
    fn dup(&self) -> (out: Self) {
        match self {
            SubAgentOutcome::Completed { label, report } => SubAgentOutcome::Completed {
                label: label.dup(),
                report: report.dup(),
            },
            SubAgentOutcome::Failed { label, error } => SubAgentOutcome::Failed {
                label: label.dup(),
                error: error.dup(),
            },
        }
    }
}

impl Clone for SubAgentOutcome {
    fn clone(&self) -> (out: Self)
        ensures
            out.deep_view() == self.deep_view(),
    {
        self.dup()
    }
}

/// How a workflow run ended.
#[derive(Debug, PartialEq, Eq)]
pub enum WorkflowOutcome {
    Finished { output: Json },
    Failed { error: String },
}

/// What a [`WorkflowOutcome`] stands for.
#[verifier::ext_equal]
pub enum WorkflowOutcomeView {
    Finished { output: JsonView },
    Failed { error: Seq<char> },
}

impl DeepView for WorkflowOutcome {
    type V = WorkflowOutcomeView;

    open spec fn deep_view(&self) -> WorkflowOutcomeView {
        match self {
            WorkflowOutcome::Finished { output } => WorkflowOutcomeView::Finished {
                output: output.deep_view(),
            },
            WorkflowOutcome::Failed { error } => WorkflowOutcomeView::Failed {
                error: error.deep_view(),
            },
        }
    }
}

impl Dup for WorkflowOutcome {
    fn dup(&self) -> (out: Self) {
        match self {
            WorkflowOutcome::Finished { output } => WorkflowOutcome::Finished {
                output: output.dup(),
            },
            WorkflowOutcome::Failed { error } => WorkflowOutcome::Failed {
                error: error.dup(),
            },
        }
    }
}

impl Clone for WorkflowOutcome {
    fn clone(&self) -> (out: Self)
        ensures
            out.deep_view() == self.deep_view(),
    {
        self.dup()
    }
}

/// What a child that owes a result came to. A branched conversation owes none.
#[derive(Debug, PartialEq, Eq)]
pub enum ChildOutcome {
    SubAgent(SubAgentOutcome),
    Workflow(WorkflowOutcome),
}

/// What a [`ChildOutcome`] stands for.
#[verifier::ext_equal]
pub enum ChildOutcomeView {
    SubAgent(SubAgentOutcomeView),
    Workflow(WorkflowOutcomeView),
}

impl DeepView for ChildOutcome {
    type V = ChildOutcomeView;

    open spec fn deep_view(&self) -> ChildOutcomeView {
        match self {
            ChildOutcome::SubAgent(a) => ChildOutcomeView::SubAgent(a.deep_view()),
            ChildOutcome::Workflow(a) => ChildOutcomeView::Workflow(a.deep_view()),
        }
    }
}

impl Dup for ChildOutcome {
    fn dup(&self) -> (out: Self) {
        match self {
            ChildOutcome::SubAgent(a) => ChildOutcome::SubAgent(a.dup()),
            ChildOutcome::Workflow(a) => ChildOutcome::Workflow(a.dup()),
        }
    }
}

impl Clone for ChildOutcome {
    fn clone(&self) -> (out: Self)
        ensures
            out.deep_view() == self.deep_view(),
    {
        self.dup()
    }
}

/// A child moved.
#[derive(Debug, PartialEq, Eq)]
pub enum ChildMsg {
    /// It ended, and this is what it came to.
    Outcome { child: RunnerId, outcome: ChildOutcome },
    /// It died without a result.
    Failed { child: RunnerId, error: String },
    /// Its seed landed, so it can run.
    Ready { child: RunnerId },
}

/// What a [`ChildMsg`] stands for.
#[verifier::ext_equal]
pub enum ChildMsgView {
    Outcome { child: RunnerId, outcome: ChildOutcomeView },
    Failed { child: RunnerId, error: Seq<char> },
    Ready { child: RunnerId },
}

impl DeepView for ChildMsg {
    type V = ChildMsgView;

    open spec fn deep_view(&self) -> ChildMsgView {
        match self {
            ChildMsg::Outcome { child, outcome } => ChildMsgView::Outcome {
                child: child.deep_view(),
                outcome: outcome.deep_view(),
            },
            ChildMsg::Failed { child, error } => ChildMsgView::Failed {
                child: child.deep_view(),
                error: error.deep_view(),
            },
            ChildMsg::Ready { child } => ChildMsgView::Ready {
                child: child.deep_view(),
            },
        }
    }
}

impl Dup for ChildMsg {
    fn dup(&self) -> (out: Self) {
        match self {
            ChildMsg::Outcome { child, outcome } => ChildMsg::Outcome {
                child: child.dup(),
                outcome: outcome.dup(),
            },
            ChildMsg::Failed { child, error } => ChildMsg::Failed {
                child: child.dup(),
                error: error.dup(),
            },
            ChildMsg::Ready { child } => ChildMsg::Ready {
                child: child.dup(),
            },
        }
    }
}

impl Clone for ChildMsg {
    fn clone(&self) -> (out: Self)
        ensures
            out.deep_view() == self.deep_view(),
    {
        self.dup()
    }
}

/// Which of a session's agents this is.
#[derive(Debug, Clone, Copy, PartialEq, Eq, Structural)]
pub enum AgentKey {
    Main,
    Sub(AgentId),
    Step(AgentId),
    Fork(AgentId),
}

/// One agent type a plugin declares.
#[derive(Debug, PartialEq, Eq)]
pub struct CatalogAgent {
    /// The plugin it came with.
    pub plugin: String,
    pub name: String,
    pub description: String,
    pub model: Option<String>,
    /// The tools it asks for, in the vocabulary its author wrote them in.
    pub tools: Vec<String>,
    pub prompt: String,
}

/// What a [`CatalogAgent`] stands for.
#[verifier::ext_equal]
pub struct CatalogAgentView {
    pub plugin: Seq<char>,
    pub name: Seq<char>,
    pub description: Seq<char>,
    pub model: Option<Seq<char>>,
    pub tools: Seq<Seq<char>>,
    pub prompt: Seq<char>,
}

impl DeepView for CatalogAgent {
    type V = CatalogAgentView;

    open spec fn deep_view(&self) -> CatalogAgentView {
        CatalogAgentView {
            plugin: self.plugin.deep_view(),
            name: self.name.deep_view(),
            description: self.description.deep_view(),
            model: self.model.deep_view(),
            tools: self.tools.deep_view(),
            prompt: self.prompt.deep_view(),
        }
    }
}

impl Dup for CatalogAgent {
    fn dup(&self) -> (out: Self) {
        CatalogAgent {
            plugin: self.plugin.dup(),
            name: self.name.dup(),
            description: self.description.dup(),
            model: self.model.dup(),
            tools: self.tools.dup(),
            prompt: self.prompt.dup(),
        }
    }
}

impl Clone for CatalogAgent {
    fn clone(&self) -> (out: Self)
        ensures
            out.deep_view() == self.deep_view(),
    {
        self.dup()
    }
}

/// The agent types a scan of the plugin library found, in its order.
#[derive(Debug, PartialEq, Eq)]
pub struct AgentCatalog {
    pub agents: Vec<CatalogAgent>,
}

/// What a [`AgentCatalog`] stands for.
#[verifier::ext_equal]
pub struct AgentCatalogView {
    pub agents: Seq<CatalogAgentView>,
}

impl DeepView for AgentCatalog {
    type V = AgentCatalogView;

    open spec fn deep_view(&self) -> AgentCatalogView {
        AgentCatalogView {
            agents: self.agents.deep_view(),
        }
    }
}

impl Dup for AgentCatalog {
    fn dup(&self) -> (out: Self) {
        AgentCatalog {
            agents: self.agents.dup(),
        }
    }
}

impl Clone for AgentCatalog {
    fn clone(&self) -> (out: Self)
        ensures
            out.deep_view() == self.deep_view(),
    {
        self.dup()
    }
}

impl AgentCatalogView {
    /// The first agent type of this name.
    pub open spec fn get(self, name: Seq<char>) -> Option<CatalogAgentView> {
        lists::find_map(
            self.agents,
            |a: CatalogAgentView|
                if a.name == name {
                    Some(a)
                } else {
                    None
                },
        )
    }

    /// The names of the agent types.
    pub open spec fn names(self) -> Seq<Seq<char>> {
        self.agents.map_values(|a: CatalogAgentView| a.name)
    }
}

impl AgentCatalog {
    /// The first agent type of this name.
    pub fn get(&self, name: &str) -> (r: Option<&CatalogAgent>)
        ensures
            match r {
                Some(a) => self.deep_view().get(name@) == Some(a.deep_view()),
                None => self.deep_view().get(name@) is None,
            },
    {
        let ghost all = self.agents.deep_view();
        let ghost f = |a: CatalogAgentView|
            if a.name == name@ {
                Some(a)
            } else {
                None
            };
        proof {
            assert(all.skip(0) =~= all);
        }
        for i in 0..self.agents.len()
            invariant
                all == self.agents.deep_view(),
                f == (|a: CatalogAgentView|
                    if a.name == name@ {
                        Some(a)
                    } else {
                        None
                    }),
                lists::find_map(all, f) == lists::find_map(all.skip(i as int), f),
        {
            proof {
                assert(all[i as int] == self.agents@[i as int].deep_view());
                assert(all.skip(i as int)[0] == all[i as int]);
                assert(all.skip(i as int).drop_first() =~= all.skip(i + 1));
            }
            if same(self.agents[i].name.as_str(), name) {
                return Some(&self.agents[i]);
            }
        }
        proof {
            assert(all.skip(self.agents.len() as int) =~= seq![]);
        }
        None
    }

    /// The names of the agent types.
    pub fn names(&self) -> (r: Vec<String>)
        ensures
            r.deep_view() == self.deep_view().names(),
    {
        let ghost all = self.deep_view().names();
        let mut out: Vec<String> = Vec::new();
        for i in 0..self.agents.len()
            invariant
                all == self.deep_view().names(),
                out.deep_view() == all.take(i as int),
        {
            let ghost had = out.deep_view();
            out.push(self.agents[i].name.clone());
            proof {
                assert(self.agents.deep_view()[i as int] == self.agents@[i as int].deep_view());
                assert(out.deep_view() =~= had.push(all[i as int]));
                assert(all.take(i + 1) =~= all.take(i as int).push(all[i as int]));
            }
        }
        proof {
            assert(all.take(self.agents.len() as int) =~= all);
        }
        out
    }
}

/// What loading an agent found.
#[derive(Debug, PartialEq, Eq)]
pub struct AgentFacts {
    /// The agent types that can be spawned, where a library was loaded at all.
    pub agents: Option<AgentCatalog>,
}

/// What a [`AgentFacts`] stands for.
#[verifier::ext_equal]
pub struct AgentFactsView {
    pub agents: Option<AgentCatalogView>,
}

impl DeepView for AgentFacts {
    type V = AgentFactsView;

    open spec fn deep_view(&self) -> AgentFactsView {
        AgentFactsView {
            agents: self.agents.deep_view(),
        }
    }
}

impl Dup for AgentFacts {
    fn dup(&self) -> (out: Self) {
        AgentFacts {
            agents: self.agents.dup(),
        }
    }
}

impl Clone for AgentFacts {
    fn clone(&self) -> (out: Self)
        ensures
            out.deep_view() == self.deep_view(),
    {
        self.dup()
    }
}

/// A type of agent is looked up by its name: the first of that name, as it was
/// installed; the names are those installed, in order.
pub proof fn law_an_agent_type_is_found_by_name(
    catalog: AgentCatalogView,
    name: Seq<char>,
    k: int,
)
    requires
        0 <= k <= catalog.agents.len(),
        forall|i: int| 0 <= i < k ==> (#[trigger] catalog.agents[i]).name != name,
        k < catalog.agents.len() ==> catalog.agents[k].name == name,
    ensures
        k < catalog.agents.len() ==> catalog.get(name) == Some(catalog.agents[k]),
        k == catalog.agents.len() ==> catalog.get(name) is None,
        catalog.names().len() == catalog.agents.len(),
        forall|i: int|
            0 <= i < catalog.agents.len() ==> (#[trigger] catalog.names()[i])
                == catalog.agents[i].name,
{
    let pick = |a: CatalogAgentView|
        if a.name == name {
            Some(a)
        } else {
            None
        };
    assert forall|j: int| 0 <= j < k implies pick(#[trigger] catalog.agents[j]) is None by {
        assert(catalog.agents[j].name != name);
    }
    crate::lists::law_a_search_ends_at_the_first_find(catalog.agents, pick, k);
}

/// Settings that say nothing allow eight subagents at once and take plugins;
/// others allow what they say, and do without plugins only when they say so.
pub proof fn law_settings_say_what_they_allow(settings: AgentSettingsView)
    ensures
        settings.max_concurrent_subagents is None ==> settings.max_subagents() == 8,
        settings.max_concurrent_subagents matches Some(n) ==> settings.max_subagents() == n,
        settings.use_plugins == Some(false) ==> !settings.takes_plugins(),
        settings.use_plugins == Some(true) ==> settings.takes_plugins(),
        settings.use_plugins is None ==> settings.takes_plugins(),
        MAX_SUBAGENT_DEPTH == 4,
{
}

} // verus!
