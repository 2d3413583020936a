//! The sandbox: shell, files, workspaces, plugin tools and skills.
//!
//! The one capability with an open namespace, and so the base every other one
//! decorates. It claims no name; what is decided here is what acquiring it can
//! come to, which plugins it is provisioned with, which definition the agent
//! runs as, and what that definition may narrow.

use crate::capabilities::{PromptSection, PromptSectionView, SetupError, SetupErrorView};
use crate::context::{AgentRunDef, AgentRunDefView};
use crate::ids::{self, AgentId};
use crate::lists;
use crate::mcp_toolbox::{
    self, McpToolboxes, McpToolboxesView, McpUnavailable, McpUnavailableView, PluginMcpTool,
    PluginMcpToolView, PluginMcpToolbox,
};
use crate::runners::{
    AgentCatalog, AgentCatalogView, AgentKey, AgentSettings, AgentSettingsView, CatalogAgent,
    CatalogAgentView,
};
use crate::text::{Dup, contains};
use vstd::prelude::*;

verus! {

/// Appended to a worker's system prompt: its place in the tree and how its
/// result travels.
pub const SUBAGENT_PROMPT_SUFFIX: &'static str = "# Subagent role\nYou are a subagent, spawned to work on one task. Your final message is your report: it is automatically delivered to the agent that spawned you — make it self-contained. You may spawn your own subagents with spawn_agent. Continue with independent work, or wait if none remains; do not poll subagent_status or call it repeatedly. Use subagent_status only when the user requests a progress update or to diagnose a suspected runtime or result-delivery problem. You cannot ask the user or rename the session; if you are blocked, report that instead.";

/// How a runtime that is gone reads back: the one failure that must not be
/// retried.
pub const GONE_PREFIX: &'static str = "the runtime is gone: ";

/// The sandbox an agent runs in.
#[derive(Debug, PartialEq, Eq)]
pub struct RuntimeCapability {
    /// The agent type this agent runs as, by name: its definition is looked up
    /// on every load.
    pub agent_type: Option<String>,
}

/// What a [`RuntimeCapability`] stands for.
#[verifier::ext_equal]
pub struct RuntimeCapabilityView {
    pub agent_type: Option<Seq<char>>,
}

impl DeepView for RuntimeCapability {
    type V = RuntimeCapabilityView;

    open spec fn deep_view(&self) -> RuntimeCapabilityView {
        RuntimeCapabilityView {
            agent_type: self.agent_type.deep_view(),
        }
    }
}

impl Dup for RuntimeCapability {
    fn dup(&self) -> (out: Self) {
        RuntimeCapability {
            agent_type: self.agent_type.dup(),
        }
    }
}

impl Clone for RuntimeCapability {
    fn clone(&self) -> (out: Self)
        ensures
            out.deep_view() == self.deep_view(),
    {
        self.dup()
    }
}

/// Why a runtime could not be acquired.
#[derive(Debug, PartialEq, Eq)]
pub enum AcquireFailure {
    /// The vendor is alive and says the runtime is gone.
    Gone(String),
    /// Anything else, in words.
    Other(String),
}

/// What a [`AcquireFailure`] stands for.
#[verifier::ext_equal]
pub enum AcquireFailureView {
    Gone(Seq<char>),
    Other(Seq<char>),
}

impl DeepView for AcquireFailure {
    type V = AcquireFailureView;

    open spec fn deep_view(&self) -> AcquireFailureView {
        match self {
            AcquireFailure::Gone(a) => AcquireFailureView::Gone(a.deep_view()),
            AcquireFailure::Other(a) => AcquireFailureView::Other(a.deep_view()),
        }
    }
}

impl Dup for AcquireFailure {
    fn dup(&self) -> (out: Self) {
        match self {
            AcquireFailure::Gone(a) => AcquireFailure::Gone(a.dup()),
            AcquireFailure::Other(a) => AcquireFailure::Other(a.dup()),
        }
    }
}

impl Clone for AcquireFailure {
    fn clone(&self) -> (out: Self)
        ensures
            out.deep_view() == self.deep_view(),
    {
        self.dup()
    }
}

/// A failure of this capability: every one stops the turn.
pub open spec fn fatal_error(reason: Seq<char>) -> SetupErrorView {
    SetupErrorView { capability: "runtime"@, reason, fatal: true }
}

/// What an acquisition that failed comes to.
pub open spec fn acquire_error(failure: AcquireFailureView) -> SetupErrorView {
    match failure {
        AcquireFailureView::Gone(m) => fatal_error(GONE_PREFIX@ + m),
        AcquireFailureView::Other(m) => fatal_error(m),
    }
}

/// The plugins an agent is provisioned with, given the account's defaults where
/// there is a library to take plugins from.
pub open spec fn bundles_of(settings: AgentSettingsView, defaults: Option<Seq<Seq<char>>>) -> Seq<
    Seq<char>,
> {
    match defaults {
        Some(defaults) if settings.takes_plugins() => if settings.plugins.len() > 0 {
            settings.plugins
        } else {
            defaults
        },
        _ => seq![],
    }
}

/// The definition an agent of this type runs as.
pub open spec fn definition(
    agent_type: Option<Seq<char>>,
    library: Option<AgentCatalogView>,
) -> Result<Option<CatalogAgentView>, SetupErrorView> {
    match agent_type {
        None => Ok(None),
        Some(name) => match library {
            Some(c) => match c.get(name) {
                Some(a) => Ok(Some(a)),
                None => Err(
                    fatal_error(
                        "this subagent runs as agent type '"@ + name
                            + "', which no installed plugin declares"@,
                    ),
                ),
            },
            None => Err(
                fatal_error(
                    "this subagent runs as agent type '"@ + name
                        + "', but the session loads no plugins"@,
                ),
            ),
        },
    }
}

/// The model an agent runs on: the one its definition declares where there is a
/// provider for it, and the session's otherwise.
pub open spec fn model_used(
    registered: Seq<Seq<char>>,
    session: Seq<char>,
    declared: Option<Seq<char>>,
) -> Result<Seq<char>, SetupErrorView> {
    match declared {
        Some(model) if registered.contains(model) => Ok(model),
        _ => if registered.contains(session) {
            Ok(session)
        } else {
            Err(fatal_error("no provider registered for model '"@ + session + "'"@))
        },
    }
}

/// The tools a definition leaves its agent: of those it names, the ones the
/// session grants.
pub open spec fn narrowed(session: Option<Seq<Seq<char>>>, named: Seq<Seq<char>>) -> Seq<Seq<char>> {
    match session {
        None => named,
        Some(granted) => lists::filter_map(
            named,
            |t: Seq<char>|
                if granted.contains(t) {
                    Some(t)
                } else {
                    None
                },
        ),
    }
}

/// What a run is configured with. `named` is what the definition's own tool
/// list comes to in this server's names; a definition that lists no tools
/// narrows nothing.
pub open spec fn run_configured(
    settings: AgentSettingsView,
    agent: Option<CatalogAgentView>,
    named: Seq<Seq<char>>,
) -> AgentRunDefView {
    AgentRunDefView {
        system_prompt: None,
        max_iterations: settings.max_iterations,
        max_retries: Some(settings.max_retries),
        allowed_tools: match agent {
            Some(a) if a.tools.len() > 0 => Some(narrowed(settings.allowed_tools, named)),
            _ => settings.allowed_tools,
        },
    }
}

/// What a worker is told it is; nothing for any other agent. A typed worker's
/// own section follows the general one.
pub open spec fn role_of(key: AgentKey, agent: Option<CatalogAgentView>) -> Option<
    PromptSectionView,
> {
    match key {
        AgentKey::Sub(_) => Some(
            PromptSectionView {
                key: "subagent_role"@,
                body: match agent {
                    None => SUBAGENT_PROMPT_SUFFIX@,
                    Some(a) => SUBAGENT_PROMPT_SUFFIX@ + "\n\n# Agent type: "@ + a.name + "\n\n"@
                        + a.prompt + "\n"@,
                },
            },
        ),
        _ => None,
    }
}

/// The id an agent acts under on the runtime; `None` is the runtime's own.
pub open spec fn acts_as(key: AgentKey) -> Option<Seq<char>> {
    match key {
        AgentKey::Main => None,
        AgentKey::Sub(id) => Some(ids::hyphenated(id.0)),
        AgentKey::Step(id) => Some(ids::hyphenated(id.0)),
        AgentKey::Fork(id) => Some(ids::hyphenated(id.0)),
    }
}

/// Which agent a client acts as. A worker, a step and a branch share the
/// session's sandbox and never its working directory and environment, which the
/// runtime keeps by this id.
pub fn scoped(key: AgentKey) -> (r: Option<String>)
    ensures
        r.deep_view() == acts_as(key),
{
    match key {
        AgentKey::Main => None,
        AgentKey::Sub(id) => Some(id.text()),
        AgentKey::Step(id) => Some(id.text()),
        AgentKey::Fork(id) => Some(id.text()),
    }
}

/// Why a plugin's own MCP server has no tools.
#[derive(Debug, PartialEq, Eq)]
pub enum McpServerFailure {
    Unreachable { server: String, reason: String },
    NeedsAuth { server: String },
}

/// What a [`McpServerFailure`] stands for.
#[verifier::ext_equal]
pub enum McpServerFailureView {
    Unreachable { server: Seq<char>, reason: Seq<char> },
    NeedsAuth { server: Seq<char> },
}

impl DeepView for McpServerFailure {
    type V = McpServerFailureView;

    open spec fn deep_view(&self) -> McpServerFailureView {
        match self {
            McpServerFailure::Unreachable { server, reason } => McpServerFailureView::Unreachable {
                server: server.deep_view(),
                reason: reason.deep_view(),
            },
            McpServerFailure::NeedsAuth { server } => McpServerFailureView::NeedsAuth {
                server: server.deep_view(),
            },
        }
    }
}

impl Dup for McpServerFailure {
    fn dup(&self) -> (out: Self) {
        match self {
            McpServerFailure::Unreachable { server, reason } => McpServerFailure::Unreachable {
                server: server.dup(),
                reason: reason.dup(),
            },
            McpServerFailure::NeedsAuth { server } => McpServerFailure::NeedsAuth {
                server: server.dup(),
            },
        }
    }
}

impl Clone for McpServerFailure {
    fn clone(&self) -> (out: Self)
        ensures
            out.deep_view() == self.deep_view(),
    {
        self.dup()
    }
}

/// What asking the runtime for its plugins' MCP servers found.
#[derive(Debug, PartialEq, Eq)]
pub struct McpDiscovery {
    pub failures: Vec<McpServerFailure>,
    pub tools: Vec<PluginMcpTool>,
}

/// What a [`McpDiscovery`] stands for.
#[verifier::ext_equal]
pub struct McpDiscoveryView {
    pub failures: Seq<McpServerFailureView>,
    pub tools: Seq<PluginMcpToolView>,
}

impl DeepView for McpDiscovery {
    type V = McpDiscoveryView;

    open spec fn deep_view(&self) -> McpDiscoveryView {
        McpDiscoveryView {
            failures: self.failures.deep_view(),
            tools: self.tools.deep_view(),
        }
    }
}

impl Dup for McpDiscovery {
    fn dup(&self) -> (out: Self) {
        McpDiscovery {
            failures: self.failures.dup(),
            tools: self.tools.dup(),
        }
    }
}

impl Clone for McpDiscovery {
    fn clone(&self) -> (out: Self)
        ensures
            out.deep_view() == self.deep_view(),
    {
        self.dup()
    }
}

/// A plugin's server that did not answer, as a toolbox holds it.
pub open spec fn unavailable_of(failure: McpServerFailureView) -> McpUnavailableView {
    match failure {
        McpServerFailureView::Unreachable { server, reason } => McpUnavailableView::Unreachable {
            server,
            reason,
        },
        McpServerFailureView::NeedsAuth { server } => McpUnavailableView::NeedsAuth { server },
    }
}

/// What an agent's MCP servers come to once its plugins' own are found: theirs
/// stand behind the ones already there.
pub open spec fn with_discovered(mcp: McpToolboxesView, found: McpDiscoveryView) -> McpToolboxesView {
    McpToolboxesView {
        boxes: if found.tools.len() > 0 {
            mcp.boxes.push(found.tools.map_values(|t: PluginMcpToolView| mcp_toolbox::plugin_spec(t)))
        } else {
            mcp.boxes
        },
        unavailable: mcp.unavailable + found.failures.map_values(
            |f: McpServerFailureView| unavailable_of(f),
        ),
    }
}

impl RuntimeCapability {
    pub fn new(agent_type: Option<String>) -> (r: Self)
        ensures
            r.agent_type == agent_type,
    {
        RuntimeCapability { agent_type }
    }

    /// What a diagnostic names this capability by.
    pub fn name(&self) -> (r: &'static str)
        ensures
            r@ == "runtime"@,
    {
        "runtime"
    }

    /// A failure that stops the turn: an agent with no sandbox can do nothing.
    pub fn fatal(&self, reason: String) -> (r: SetupError)
        ensures
            r.deep_view() == fatal_error(reason@),
    {
        SetupError { capability: "runtime", reason, fatal: true }
    }

    /// What an acquisition that failed comes to.
    pub fn acquire_failed(&self, failure: AcquireFailure) -> (r: SetupError)
        ensures
            r.deep_view() == acquire_error(failure.deep_view()),
    {
        match failure {
            AcquireFailure::Gone(m) => {
                let mut reason = GONE_PREFIX.to_owned();
                reason.append(m.as_str());
                self.fatal(reason)
            },
            AcquireFailure::Other(m) => self.fatal(m),
        }
    }

    /// The plugins an agent is provisioned with, given the account's defaults
    /// where there is a library to take plugins from.
    pub fn bundles(&self, settings: &AgentSettings, defaults: Option<Vec<String>>) -> (r: Vec<
        String,
    >)
        ensures
            r.deep_view() == bundles_of(settings.deep_view(), defaults.deep_view()),
    {
        if settings.takes_plugins() {
            if let Some(defaults) = defaults {
                proof {
                    assert(settings.plugins.deep_view().len() == settings.plugins.len());
                }
                if settings.plugins.len() > 0 {
                    return settings.plugins.dup();
                }
                return defaults;
            }
        }
        let none: Vec<String> = Vec::new();
        proof {
            assert(none.deep_view() =~= seq![]);
        }
        none
    }

    /// What the plugins' own MCP servers add to the ones already there. Never a
    /// failure: a plugin that brings a broken server must not stop an agent.
    pub fn discovered(&self, mcp: McpToolboxes, found: McpDiscovery) -> (r: McpToolboxes)
        ensures
            r.deep_view() == with_discovered(mcp.deep_view(), found.deep_view()),
    {
        let ghost before = mcp.unavailable.deep_view();
        let ghost more = found.failures.deep_view().map_values(
            |f: McpServerFailureView| unavailable_of(f),
        );
        let mut unavailable = mcp.unavailable;
        proof {
            assert(before + more.take(0) =~= before);
        }
        for i in 0..found.failures.len()
            invariant
                more == found.failures.deep_view().map_values(
                    |f: McpServerFailureView| unavailable_of(f),
                ),
                unavailable.deep_view() == before + more.take(i as int),
        {
            let ghost had = unavailable.deep_view();
            proof {
                assert(found.failures.deep_view()[i as int] == found.failures@[i as int].deep_view());
            }
            unavailable.push(
                match &found.failures[i] {
                    McpServerFailure::Unreachable { server, reason } => McpUnavailable::Unreachable {
                        server: server.clone(),
                        reason: reason.clone(),
                    },
                    McpServerFailure::NeedsAuth { server } => McpUnavailable::NeedsAuth {
                        server: server.clone(),
                    },
                },
            );
            proof {
                assert(unavailable.deep_view() =~= had.push(more[i as int]));
                assert(before + more.take(i + 1) =~= (before + more.take(i as int)).push(
                    more[i as int],
                ));
            }
        }
        proof {
            assert(more.take(found.failures.len() as int) =~= more);
            assert(found.tools.deep_view().len() == found.tools.len());
        }
        let ghost had = mcp.boxes.deep_view();
        let mut boxes = mcp.boxes;
        if found.tools.len() > 0 {
            let specs = PluginMcpToolbox::new(found.tools).specs();
            let ghost shown = specs.deep_view();
            boxes.push(specs);
            proof {
                assert(boxes.deep_view() =~= had.push(shown));
            }
        }
        McpToolboxes { boxes, unavailable }
    }

    /// The definition this agent runs as, looked up in the library as it is now:
    /// an agent whose plugin was uninstalled since fails rather than running a
    /// prompt nobody can point at.
    pub fn plugin_agent(&self, library: Option<&AgentCatalog>) -> (r: Result<
        Option<CatalogAgent>,
        SetupError,
    >)
        ensures
            match r {
                Ok(a) => definition(
                    self.agent_type.deep_view(),
                    match library {
                        Some(c) => Some(c.deep_view()),
                        None => None,
                    },
                ) == Ok::<Option<CatalogAgentView>, SetupErrorView>(a.deep_view()),
                Err(e) => definition(
                    self.agent_type.deep_view(),
                    match library {
                        Some(c) => Some(c.deep_view()),
                        None => None,
                    },
                ) == Err::<Option<CatalogAgentView>, SetupErrorView>(e.deep_view()),
            },
    {
        let name = match &self.agent_type {
            None => {
                return Ok(None);
            },
            Some(name) => name,
        };
        let mut reason = "this subagent runs as agent type '".to_owned();
        reason.append(name.as_str());
        match library {
            Some(c) => match c.get(name.as_str()) {
                Some(a) => Ok(Some(a.dup())),
                None => {
                    reason.append("', which no installed plugin declares");
                    Err(self.fatal(reason))
                },
            },
            None => {
                reason.append("', but the session loads no plugins");
                Err(self.fatal(reason))
            },
        }
    }

    /// The model this agent runs on. A declared model counts only where there is
    /// a provider for it: a word in a plugin's file does not move a session to
    /// another vendor.
    pub fn provider(&self, registered: &[String], session: &str, declared: Option<&str>) -> (r: Result<
        String,
        SetupError,
    >)
        ensures
            match r {
                Ok(model) => model_used(
                    registered.deep_view(),
                    session@,
                    match declared {
                        Some(m) => Some(m@),
                        None => None,
                    },
                ) == Ok::<Seq<char>, SetupErrorView>(model@),
                Err(e) => model_used(
                    registered.deep_view(),
                    session@,
                    match declared {
                        Some(m) => Some(m@),
                        None => None,
                    },
                ) == Err::<Seq<char>, SetupErrorView>(e.deep_view()),
            },
    {
        if let Some(model) = declared {
            if contains(registered, model) {
                return Ok(model.to_owned());
            }
        }
        if contains(registered, session) {
            return Ok(session.to_owned());
        }
        let mut reason = "no provider registered for model '".to_owned();
        reason.append(session);
        reason.append("'");
        Err(self.fatal(reason))
    }

    /// What a run is configured with. A definition's tool list narrows what the
    /// session grants and never adds to it.
    pub fn run_def(
        &self,
        settings: &AgentSettings,
        agent: &Option<CatalogAgent>,
        named: Vec<String>,
    ) -> (r: AgentRunDef)
        ensures
            r.deep_view() == run_configured(
                settings.deep_view(),
                agent.deep_view(),
                named.deep_view(),
            ),
    {
        let narrows = match agent {
            Some(a) => {
                proof {
                    assert(a.tools.deep_view().len() == a.tools.len());
                }
                a.tools.len() > 0
            },
            None => false,
        };
        let allowed_tools = if narrows {
            Some(narrow(&settings.allowed_tools, named))
        } else {
            settings.allowed_tools.dup()
        };
        AgentRunDef {
            system_prompt: None,
            max_iterations: settings.max_iterations,
            max_retries: Some(settings.max_retries),
            allowed_tools,
        }
    }

    /// What a worker is told it is; nothing for any other agent.
    pub fn role(&self, key: AgentKey, agent: &Option<CatalogAgent>) -> (r: Option<PromptSection>)
        ensures
            r.deep_view() == role_of(key, agent.deep_view()),
    {
        match key {
            AgentKey::Sub(_) => {
                let mut body = SUBAGENT_PROMPT_SUFFIX.to_owned();
                if let Some(a) = agent {
                    body.append("\n\n# Agent type: ");
                    body.append(a.name.as_str());
                    body.append("\n\n");
                    body.append(a.prompt.as_str());
                    body.append("\n");
                }
                Some(PromptSection { key: "subagent_role", body })
            },
            _ => None,
        }
    }
}

impl Default for RuntimeCapability {
    fn default() -> (r: Self)
        ensures
            r.agent_type is None,
    {
        RuntimeCapability { agent_type: None }
    }
}

/// Of the tools a definition names, the ones the session grants.
fn narrow(session: &Option<Vec<String>>, named: Vec<String>) -> (r: Vec<String>)
    ensures
        r.deep_view() == narrowed(session.deep_view(), named.deep_view()),
{
    let granted = match session {
        None => {
            return named;
        },
        Some(granted) => granted,
    };
    let ghost all = named.deep_view();
    let ghost may = granted.deep_view();
    let ghost keep = |t: Seq<char>|
        if may.contains(t) {
            Some(t)
        } else {
            None
        };
    let mut out: Vec<String> = Vec::new();
    for i in 0..named.len()
        invariant
            all == named.deep_view(),
            may == granted.deep_view(),
            keep == (|t: Seq<char>|
                if may.contains(t) {
                    Some(t)
                } else {
                    None
                }),
            out.deep_view() == lists::filter_map(all.take(i as int), keep),
    {
        let ghost had = out.deep_view();
        proof {
            lists::lemma_filter_map_step(all, keep, i as int);
            assert(all[i as int] == named@[i as int]@);
        }
        if contains(granted, named[i].as_str()) {
            out.push(named[i].clone());
            proof {
                assert(out.deep_view() =~= had.push(all[i as int]));
            }
        }
    }
    proof {
        assert(all.take(named.len() as int) =~= all);
    }
    out
}

/// A definition grants nothing the session withheld: every tool it leaves its
/// agent is one the session allows.
pub proof fn law_a_definition_grants_nothing(
    settings: AgentSettingsView,
    agent: CatalogAgentView,
    named: Seq<Seq<char>>,
    tool: Seq<char>,
)
    requires
        settings.allowed_tools is Some,
        run_configured(settings, Some(agent), named).allowed_tools->Some_0.contains(tool),
    ensures
        settings.allowed_tools->Some_0.contains(tool),
{
    if agent.tools.len() > 0 {
        let granted = settings.allowed_tools->Some_0;
        let keep = |t: Seq<char>|
            if granted.contains(t) {
                Some(t)
            } else {
                None
            };
        lists::lemma_filter_map_members(named, keep);
        let i = choose|i: int| 0 <= i < named.len() && keep(#[trigger] named[i]) == Some(tool);
        assert(named[i] == tool);
    }
}

/// No two agents but the main one act under the same id.
pub proof fn law_agents_act_under_their_own_ids(a: AgentId, b: AgentId)
    requires
        acts_as(AgentKey::Sub(a)) == acts_as(AgentKey::Sub(b)),
    ensures
        a == b,
{
    ids::law_hyphenated_is_injective(a.0, b.0);
}

/// A plugin's server never stands in front of one already there: the boxes
/// there keep their places.
pub proof fn law_discovery_appends(mcp: McpToolboxesView, found: McpDiscoveryView, i: int)
    requires
        0 <= i < mcp.boxes.len(),
    ensures
        with_discovered(mcp, found).boxes[i] == mcp.boxes[i],
{
}

/// A setup that fails says which capability failed and why, and stops the
/// turn; a runtime that is gone is said to be gone.
pub proof fn law_a_failed_setup_says_why(reason: Seq<char>)
    ensures
        fatal_error(reason) == (SetupErrorView { capability: "runtime"@, reason, fatal: true }),
        acquire_error(AcquireFailureView::Gone(reason)).reason == "the runtime is gone: "@ + reason,
        acquire_error(AcquireFailureView::Other(reason)).reason == reason,
        acquire_error(AcquireFailureView::Gone(reason)).fatal,
        acquire_error(AcquireFailureView::Other(reason)).fatal,
{
}

/// An agent that takes plugins gets the bundles its settings name, or the
/// session's own when they name none; any other gets none.
pub proof fn law_bundles_are_those_named_or_the_sessions(
    settings: AgentSettingsView,
    defaults: Seq<Seq<char>>,
)
    ensures
        !settings.takes_plugins() ==> bundles_of(settings, Some(defaults)).len() == 0,
        settings.takes_plugins() && settings.plugins.len() > 0 ==> bundles_of(
            settings,
            Some(defaults),
        ) == settings.plugins,
        settings.takes_plugins() && settings.plugins.len() == 0 ==> bundles_of(
            settings,
            Some(defaults),
        ) == defaults,
        bundles_of(settings, None).len() == 0,
{
}

/// A worker of a type runs under that type's own definition, as it is
/// installed; a type that is not there stops it, by its name. A worker of no
/// type has none.
pub proof fn law_a_worker_runs_as_its_type(name: Seq<char>, library: AgentCatalogView)
    ensures
        definition(None, Some(library)) == Ok::<Option<CatalogAgentView>, SetupErrorView>(None),
        definition(None, None) == Ok::<Option<CatalogAgentView>, SetupErrorView>(None),
        library.get(name) matches Some(a) ==> definition(Some(name), Some(library)) == Ok::<
            Option<CatalogAgentView>,
            SetupErrorView,
        >(Some(a)),
        library.get(name) is None ==> definition(Some(name), Some(library)) == Err::<
            Option<CatalogAgentView>,
            SetupErrorView,
        >(
            SetupErrorView {
                capability: "runtime"@,
                reason: "this subagent runs as agent type '"@ + name
                    + "', which no installed plugin declares"@,
                fatal: true,
            },
        ),
        definition(Some(name), None) == Err::<Option<CatalogAgentView>, SetupErrorView>(
            SetupErrorView {
                capability: "runtime"@,
                reason: "this subagent runs as agent type '"@ + name
                    + "', but the session loads no plugins"@,
                fatal: true,
            },
        ),
{
}

/// A run uses the model its definition declares when that one is registered,
/// else the session's; when that is not registered either, the run is stopped
/// by its name.
pub proof fn law_a_run_uses_a_registered_model(
    registered: Seq<Seq<char>>,
    session: Seq<char>,
    declared: Option<Seq<char>>,
)
    ensures
        model_used(registered, session, declared) matches Ok(model) ==> registered.contains(model),
        (declared matches Some(model) && registered.contains(model)) ==> model_used(
            registered,
            session,
            declared,
        ) == Ok::<Seq<char>, SetupErrorView>(declared->0),
        !(declared matches Some(model) && registered.contains(model)) && registered.contains(
            session,
        ) ==> model_used(registered, session, declared) == Ok::<Seq<char>, SetupErrorView>(session),
        !(declared matches Some(model) && registered.contains(model)) && !registered.contains(
            session,
        ) ==> model_used(registered, session, declared) == Err::<Seq<char>, SetupErrorView>(
            SetupErrorView {
                capability: "runtime"@,
                reason: "no provider registered for model '"@ + session + "'"@,
                fatal: true,
            },
        ),
{
}

/// A definition's tools are narrowed to those the session grants, tool by tool
/// and in order; a session that grants without limit narrows none.
pub proof fn law_a_definition_is_narrowed_tool_by_tool(
    granted: Seq<Seq<char>>,
    a: Seq<Seq<char>>,
    b: Seq<Seq<char>>,
    tool: Seq<char>,
)
    ensures
        narrowed(None, a) == a,
        narrowed(Some(granted), a + b) == narrowed(Some(granted), a) + narrowed(Some(granted), b),
        granted.contains(tool) ==> narrowed(Some(granted), seq![tool]) == seq![tool],
        !granted.contains(tool) ==> narrowed(Some(granted), seq![tool]).len() == 0,
{
    let keep = |t: Seq<char>|
        if granted.contains(t) {
            Some(t)
        } else {
            None
        };
    crate::lists::law_a_list_is_filtered_item_by_item(a, b, tool, keep);
}

/// A run keeps the limits of its settings, and their tools unless its
/// definition names tools of its own.
pub proof fn law_a_run_keeps_the_limits_of_its_settings(
    settings: AgentSettingsView,
    agent: CatalogAgentView,
    named: Seq<Seq<char>>,
)
    ensures
        ({
            let bare = run_configured(settings, None, named);
            let typed = run_configured(settings, Some(agent), named);
            &&& bare.system_prompt is None && typed.system_prompt is None
            &&& bare.max_iterations == settings.max_iterations && typed.max_iterations
                == settings.max_iterations
            &&& bare.max_retries == Some(settings.max_retries) && typed.max_retries == Some(
                settings.max_retries,
            )
            &&& bare.allowed_tools == settings.allowed_tools
            &&& agent.tools.len() == 0 ==> typed.allowed_tools == settings.allowed_tools
            &&& agent.tools.len() > 0 && settings.allowed_tools is None ==> typed.allowed_tools
                == Some(named)
            &&& agent.tools.len() > 0 ==> typed.allowed_tools == Some(
                narrowed(settings.allowed_tools, named),
            )
        }),
{
}

/// A worker is told its role, and its type's own words when it has a type; no
/// other agent is. Every agent but the main one acts under its own id.
pub proof fn law_a_worker_is_told_its_role(id: AgentId, agent: CatalogAgentView)
    ensures
        role_of(AgentKey::Sub(id), None) == Some(
            PromptSectionView { key: "subagent_role"@, body: SUBAGENT_PROMPT_SUFFIX@ },
        ),
        role_of(AgentKey::Sub(id), Some(agent)) == Some(
            PromptSectionView {
                key: "subagent_role"@,
                body: SUBAGENT_PROMPT_SUFFIX@ + "\n\n# Agent type: "@ + agent.name + "\n\n"@
                    + agent.prompt + "\n"@,
            },
        ),
        role_of(AgentKey::Main, Some(agent)) is None,
        role_of(AgentKey::Step(id), Some(agent)) is None,
        acts_as(AgentKey::Main) is None,
        acts_as(AgentKey::Sub(id)) == Some(ids::hyphenated(id.0)),
        acts_as(AgentKey::Step(id)) == Some(ids::hyphenated(id.0)),
{
}

/// What discovery found is added behind what there was: its tools as one more
/// box, when it found any, each shown as its plugin describes it, and a word
/// for each server that could not be had, in order.
pub proof fn law_what_was_found_is_added_behind(
    mcp: McpToolboxesView,
    found: McpDiscoveryView,
    i: int,
    j: int,
)
    ensures
        ({
            let after = with_discovered(mcp, found);
            &&& found.tools.len() == 0 ==> after.boxes == mcp.boxes
            &&& found.tools.len() > 0 ==> after.boxes.len() == mcp.boxes.len() + 1
                && after.boxes.last().len() == found.tools.len()
            &&& 0 <= i < found.tools.len() ==> after.boxes.last()[i] == mcp_toolbox::plugin_spec(found.tools[i])
            &&& after.unavailable.len() == mcp.unavailable.len() + found.failures.len()
            &&& 0 <= j < mcp.unavailable.len() ==> after.unavailable[j] == mcp.unavailable[j]
            &&& 0 <= j < found.failures.len() ==> after.unavailable[mcp.unavailable.len() + j] == (
            match found.failures[j] {
                McpServerFailureView::Unreachable {
                    server,
                    reason,
                } => McpUnavailableView::Unreachable { server, reason },
                McpServerFailureView::NeedsAuth { server } => McpUnavailableView::NeedsAuth {
                    server,
                },
            })
        }),
{
}

} // verus!
