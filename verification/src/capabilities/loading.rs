//! Loading the sandbox an agent runs in: from what the runtime, the plugin
//! library and the model registry answered, to what the agent runs with.
//!
//! Everything depends on what was asked before it. An agent whose runtime was
//! not acquired, or whose plugins were not provisioned, learns nothing else; an
//! agent that takes no plugins has no catalogue and no plugin servers, rather
//! than an empty one of each.

use crate::capabilities::{PromptSection, PromptSectionView, SetupError, SetupErrorView};
use crate::capabilities::runtime::{
    self, AcquireFailure, AcquireFailureView, McpDiscovery, McpDiscoveryView, RuntimeCapability,
};
use crate::context::{
    self, AgentRunDef, AgentRunDefView, AgentToolbox, AgentToolboxView, DefaultToolboxFactory,
    compaction_window,
};
use crate::lists;
use crate::mcp_toolbox::{McpToolboxes, McpToolboxesView};
use crate::model::{ToolSpec, ToolSpecView};
use crate::runners::{
    AgentCatalog, AgentCatalogView, AgentFacts, AgentFactsView, AgentKey, AgentSettings,
    AgentSettingsView, CatalogAgentView,
};
use crate::text::{Dup, same};
use vstd::prelude::*;

verus! {

/// A model there is a provider for.
#[derive(Debug, PartialEq, Eq)]
pub struct ModelCard {
    pub name: String,
    /// Its context window, where its card declares one.
    pub context_window: Option<u32>,
}

/// What a [`ModelCard`] stands for.
#[verifier::ext_equal]
pub struct ModelCardView {
    pub name: Seq<char>,
    pub context_window: Option<u32>,
}

impl DeepView for ModelCard {
    type V = ModelCardView;

    open spec fn deep_view(&self) -> ModelCardView {
        ModelCardView {
            name: self.name.deep_view(),
            context_window: self.context_window.deep_view(),
        }
    }
}

/// What was answered, in the order it is asked.
#[derive(Debug, PartialEq, Eq)]
pub struct Loaded {
    /// Why the runtime could not be acquired, if it could not.
    pub not_acquired: Option<AcquireFailure>,
    /// Why the plugins could not be provisioned, if they could not.
    pub not_provisioned: Option<String>,
    /// The workspaces a scan found, by name.
    pub workspaces: Vec<String>,
    /// The agent types the scan found in the plugin library.
    pub agents: AgentCatalog,
    /// The plugins' own MCP servers; nothing when asking for them failed.
    pub discovered: Option<McpDiscovery>,
    /// What the runtime's tools advertise.
    pub tools: Vec<ToolSpec>,
    /// The models there is a provider for.
    pub models: Vec<ModelCard>,
    /// What a definition's word for a tool comes to in this server's names.
    pub vocabulary: Vec<(String, Vec<String>)>,
}

/// What a [`Loaded`] stands for.
#[verifier::ext_equal]
pub struct LoadedView {
    pub not_acquired: Option<AcquireFailureView>,
    pub not_provisioned: Option<Seq<char>>,
    pub workspaces: Seq<Seq<char>>,
    pub agents: AgentCatalogView,
    pub discovered: Option<McpDiscoveryView>,
    pub tools: Seq<ToolSpecView>,
    pub models: Seq<ModelCardView>,
    pub vocabulary: Seq<(Seq<char>, Seq<Seq<char>>)>,
}

impl DeepView for Loaded {
    type V = LoadedView;

    open spec fn deep_view(&self) -> LoadedView {
        LoadedView {
            not_acquired: self.not_acquired.deep_view(),
            not_provisioned: self.not_provisioned.deep_view(),
            workspaces: self.workspaces.deep_view(),
            agents: self.agents.deep_view(),
            discovered: self.discovered.deep_view(),
            tools: self.tools.deep_view(),
            models: self.models.deep_view(),
            vocabulary: self.vocabulary.deep_view(),
        }
    }
}

/// What an agent runs with once its sandbox is there.
#[derive(Debug, PartialEq, Eq)]
pub struct RuntimeSetup {
    /// What a worker is told it is.
    pub prompt: Option<PromptSection>,
    /// The model it runs on.
    pub model: String,
    /// The window it compacts against, if it does.
    pub context_window: Option<u32>,
    pub def: AgentRunDef,
    /// What was found, for the capabilities that read it.
    pub facts: AgentFacts,
    /// The servers its tools come from.
    pub servers: McpToolboxes,
    pub toolbox: AgentToolbox,
}

/// What a [`RuntimeSetup`] stands for.
#[verifier::ext_equal]
pub struct RuntimeSetupView {
    pub prompt: Option<PromptSectionView>,
    pub model: Seq<char>,
    pub context_window: Option<u32>,
    pub def: AgentRunDefView,
    pub facts: AgentFactsView,
    pub servers: McpToolboxesView,
    pub toolbox: AgentToolboxView,
}

impl DeepView for RuntimeSetup {
    type V = RuntimeSetupView;

    open spec fn deep_view(&self) -> RuntimeSetupView {
        RuntimeSetupView {
            prompt: self.prompt.deep_view(),
            model: self.model.deep_view(),
            context_window: self.context_window.deep_view(),
            def: self.def.deep_view(),
            facts: self.facts.deep_view(),
            servers: self.servers.deep_view(),
            toolbox: self.toolbox.deep_view(),
        }
    }
}

/// The names of the models there is a provider for.
pub open spec fn model_names(models: Seq<ModelCardView>) -> Seq<Seq<char>> {
    models.map_values(|m: ModelCardView| m.name)
}

/// The window the first card of this name declares.
pub open spec fn window_of(models: Seq<ModelCardView>, name: Seq<char>) -> Option<u32> {
    match lists::find_map(
        models,
        |m: ModelCardView|
            if m.name == name {
                Some(m.context_window)
            } else {
                None
            },
    ) {
        Some(window) => window,
        None => None,
    }
}

/// What one word for a tool comes to; nothing when the word is not known.
pub open spec fn word_names(
    vocabulary: Seq<(Seq<char>, Seq<Seq<char>>)>,
    word: Seq<char>,
) -> Seq<Seq<char>> {
    match lists::find_map(
        vocabulary,
        |e: (Seq<char>, Seq<Seq<char>>)|
            if e.0 == word {
                Some(e.1)
            } else {
                None
            },
    ) {
        Some(names) => names,
        None => seq![],
    }
}

/// What these words for tools come to, one after the other.
pub open spec fn words_named(
    vocabulary: Seq<(Seq<char>, Seq<Seq<char>>)>,
    words: Seq<Seq<char>>,
) -> Seq<Seq<char>>
    decreases words.len(),
{
    if words.len() == 0 {
        seq![]
    } else {
        words_named(vocabulary, words.drop_last()) + word_names(vocabulary, words.last())
    }
}

/// The agent types an agent can spawn: none at all where it takes no plugins.
pub open spec fn shared_agents(settings: AgentSettingsView, load: LoadedView) -> Option<
    AgentCatalogView,
> {
    if settings.takes_plugins() {
        Some(load.agents)
    } else {
        None
    }
}

/// The servers an agent's tools come from: its plugins' own behind the ones it
/// was connected to, where it takes plugins and they were found.
pub open spec fn servers_found(
    settings: AgentSettingsView,
    mcp: McpToolboxesView,
    load: LoadedView,
) -> McpToolboxesView {
    match load.discovered {
        Some(found) if settings.takes_plugins() => runtime::with_discovered(mcp, found),
        _ => mcp,
    }
}

/// What an agent of this definition, running on this model, runs with.
pub open spec fn equipment(
    key: AgentKey,
    settings: AgentSettingsView,
    mcp: McpToolboxesView,
    load: LoadedView,
    agent: Option<CatalogAgentView>,
    model: Seq<char>,
) -> RuntimeSetupView {
    RuntimeSetupView {
        prompt: runtime::role_of(key, agent),
        model,
        context_window: if settings.auto_compact == Some(false) {
            None
        } else {
            window_of(load.models, settings.model)
        },
        def: runtime::run_configured(
            settings,
            agent,
            match agent {
                Some(a) => words_named(load.vocabulary, a.tools),
                None => seq![],
            },
        ),
        facts: AgentFactsView { agents: shared_agents(settings, load) },
        servers: servers_found(settings, mcp, load),
        toolbox: AgentToolboxView {
            base: context::base_specs(load.tools, servers_found(settings, mcp, load)),
            workspace_names: load.workspaces,
            use_plugins: settings.takes_plugins(),
        },
    }
}

/// The model an agent's definition declares.
pub open spec fn declared_model(agent: Option<CatalogAgentView>) -> Option<Seq<char>> {
    match agent {
        Some(a) => a.model,
        None => None,
    }
}

/// What loading an agent's sandbox comes to: the first thing that failed, or
/// what the agent runs with.
pub open spec fn setup_outcome(
    agent_type: Option<Seq<char>>,
    key: AgentKey,
    settings: AgentSettingsView,
    mcp: McpToolboxesView,
    load: LoadedView,
) -> Result<RuntimeSetupView, SetupErrorView> {
    match load.not_acquired {
        Some(failure) => Err(runtime::acquire_error(failure)),
        None => match load.not_provisioned {
            Some(reason) => Err(runtime::fatal_error(reason)),
            None => match runtime::definition(agent_type, shared_agents(settings, load)) {
                Err(e) => Err(e),
                Ok(agent) => match runtime::model_used(
                    model_names(load.models),
                    settings.model,
                    declared_model(agent),
                ) {
                    Err(e) => Err(e),
                    Ok(model) => Ok(equipment(key, settings, mcp, load, agent, model)),
                },
            },
        },
    }
}

/// The names of the models there is a provider for.
fn names_of_models(models: &[ModelCard]) -> (r: Vec<String>)
    ensures
        r.deep_view() == model_names(models.deep_view()),
{
    let ghost all = model_names(models.deep_view());
    let mut out: Vec<String> = Vec::new();
    for i in 0..models.len()
        invariant
            all == model_names(models.deep_view()),
            out.deep_view() == all.take(i as int),
    {
        let ghost had = out.deep_view();
        out.push(models[i].name.clone());
        proof {
            assert(models.deep_view()[i as int] == models@[i as int].deep_view());
            assert(out.deep_view() =~= had.push(all[i as int]));
            assert(all.take(i + 1) =~= all.take(i as int).push(all[i as int]));
        }
    }
    proof {
        assert(all.take(models.len() as int) =~= all);
    }
    out
}

/// The window the first card of this name declares.
fn card_window(models: &[ModelCard], name: &str) -> (r: Option<u32>)
    ensures
        r == window_of(models.deep_view(), name@),
{
    let ghost all = models.deep_view();
    let ghost f = |m: ModelCardView|
        if m.name == name@ {
            Some(m.context_window)
        } else {
            None
        };
    proof {
        assert(all.skip(0) =~= all);
    }
    for i in 0..models.len()
        invariant
            all == models.deep_view(),
            f == (|m: ModelCardView|
                if m.name == name@ {
                    Some(m.context_window)
                } else {
                    None
                }),
            lists::find_map(all, f) == lists::find_map(all.skip(i as int), f),
    {
        proof {
            assert(all[i as int] == models@[i as int].deep_view());
            assert(all.skip(i as int)[0] == all[i as int]);
            assert(all.skip(i as int).drop_first() =~= all.skip(i + 1));
        }
        if same(models[i].name.as_str(), name) {
            return models[i].context_window;
        }
    }
    proof {
        assert(all.skip(models.len() as int) =~= seq![]);
    }
    None
}

/// What one word for a tool comes to.
fn names_of_word(vocabulary: &[(String, Vec<String>)], word: &str) -> (r: Vec<String>)
    ensures
        r.deep_view() == word_names(vocabulary.deep_view(), word@),
{
    let ghost all = vocabulary.deep_view();
    let ghost f = |e: (Seq<char>, Seq<Seq<char>>)|
        if e.0 == word@ {
            Some(e.1)
        } else {
            None
        };
    proof {
        assert(all.skip(0) =~= all);
    }
    for i in 0..vocabulary.len()
        invariant
            all == vocabulary.deep_view(),
            f == (|e: (Seq<char>, Seq<Seq<char>>)|
                if e.0 == word@ {
                    Some(e.1)
                } else {
                    None
                }),
            lists::find_map(all, f) == lists::find_map(all.skip(i as int), f),
    {
        proof {
            assert(all[i as int] == vocabulary@[i as int].deep_view());
            assert(all.skip(i as int)[0] == all[i as int]);
            assert(all.skip(i as int).drop_first() =~= all.skip(i + 1));
        }
        if same(vocabulary[i].0.as_str(), word) {
            return vocabulary[i].1.dup();
        }
    }
    let none: Vec<String> = Vec::new();
    proof {
        assert(all.skip(vocabulary.len() as int) =~= seq![]);
        assert(none.deep_view() =~= seq![]);
    }
    none
}

/// What a definition's words for tools come to in this server's names. A word
/// that is not known comes to nothing.
pub fn named_tools(vocabulary: &[(String, Vec<String>)], words: &[String]) -> (r: Vec<String>)
    ensures
        r.deep_view() == words_named(vocabulary.deep_view(), words.deep_view()),
{
    let ghost all = words.deep_view();
    let ghost known = vocabulary.deep_view();
    let mut out: Vec<String> = Vec::new();
    proof {
        assert(out.deep_view() =~= seq![]);
    }
    for i in 0..words.len()
        invariant
            all == words.deep_view(),
            known == vocabulary.deep_view(),
            out.deep_view() == words_named(known, all.take(i as int)),
    {
        let ghost had = out.deep_view();
        let mut more = names_of_word(vocabulary, words[i].as_str());
        let ghost extra = more.deep_view();
        out.append(&mut more);
        proof {
            assert(all[i as int] == words@[i as int]@);
            assert(all.take(i + 1).drop_last() =~= all.take(i as int));
            assert(out.deep_view() =~= had + extra);
        }
    }
    proof {
        assert(all.take(words.len() as int) =~= all);
    }
    out
}

impl RuntimeCapability {
    /// What loading an agent's sandbox comes to. The first failure ends it, and
    /// nothing that would have been asked after it is read.
    pub fn setup(
        &self,
        key: AgentKey,
        settings: &AgentSettings,
        mcp: McpToolboxes,
        load: Loaded,
    ) -> (r: Result<RuntimeSetup, SetupError>)
        ensures
            match r {
                Ok(done) => setup_outcome(
                    self.agent_type.deep_view(),
                    key,
                    settings.deep_view(),
                    mcp.deep_view(),
                    load.deep_view(),
                ) == Ok::<RuntimeSetupView, SetupErrorView>(done.deep_view()),
                Err(e) => setup_outcome(
                    self.agent_type.deep_view(),
                    key,
                    settings.deep_view(),
                    mcp.deep_view(),
                    load.deep_view(),
                ) == Err::<RuntimeSetupView, SetupErrorView>(e.deep_view()),
            },
    {
        if let Some(failure) = load.not_acquired {
            return Err(self.acquire_failed(failure));
        }
        if let Some(reason) = load.not_provisioned {
            return Err(self.fatal(reason));
        }
        let plugins = settings.takes_plugins();
        let agents = if plugins {
            Some(load.agents)
        } else {
            None
        };
        let library = match &agents {
            Some(catalog) => Some(catalog),
            None => None,
        };
        let agent = match self.plugin_agent(library) {
            Ok(agent) => agent,
            Err(e) => {
                return Err(e);
            },
        };
        let declared = match &agent {
            Some(a) => match &a.model {
                Some(model) => Some(model.as_str()),
                None => None,
            },
            None => None,
        };
        let registered = names_of_models(&load.models);
        let model = match self.provider(&registered, settings.model.as_str(), declared) {
            Ok(model) => model,
            Err(e) => {
                return Err(e);
            },
        };
        let named = match &agent {
            Some(a) => named_tools(&load.vocabulary, &a.tools),
            None => Vec::new(),
        };
        proof {
            if agent is None {
                assert(named.deep_view() =~= seq![]);
            }
        }
        let servers = match load.discovered {
            Some(found) => if plugins {
                self.discovered(mcp, found)
            } else {
                mcp
            },
            None => mcp,
        };
        let toolbox = DefaultToolboxFactory.for_agent(
            load.tools,
            load.workspaces,
            plugins,
            servers.dup(),
        );
        Ok(
            RuntimeSetup {
                prompt: self.role(key, &agent),
                model,
                context_window: compaction_window(
                    settings.auto_compact,
                    card_window(&load.models, settings.model.as_str()),
                ),
                def: self.run_def(settings, &agent, named),
                facts: AgentFacts { agents },
                servers,
                toolbox,
            },
        )
    }
}

/// An agent that takes no plugins has no catalogue, no plugin servers and no
/// shared library, whatever the scan and the runtime would have said.
pub proof fn law_an_agent_without_plugins_sees_none(
    agent_type: Option<Seq<char>>,
    key: AgentKey,
    settings: AgentSettingsView,
    mcp: McpToolboxesView,
    load: LoadedView,
)
    requires
        !settings.takes_plugins(),
        setup_outcome(agent_type, key, settings, mcp, load) is Ok,
    ensures
        ({
            let done = setup_outcome(agent_type, key, settings, mcp, load)->Ok_0;
            &&& agent_type is None
            &&& done.facts.agents is None
            &&& done.servers == mcp
            &&& !done.toolbox.use_plugins
        }),
{
}

/// Everything that goes wrong while a sandbox is loaded stops the turn: an
/// agent with no sandbox can do nothing.
pub proof fn law_a_sandbox_that_fails_stops_the_turn(
    agent_type: Option<Seq<char>>,
    key: AgentKey,
    settings: AgentSettingsView,
    mcp: McpToolboxesView,
    load: LoadedView,
)
    requires
        setup_outcome(agent_type, key, settings, mcp, load) is Err,
    ensures
        setup_outcome(agent_type, key, settings, mcp, load)->Err_0.fatal,
        setup_outcome(agent_type, key, settings, mcp, load)->Err_0.capability == "runtime"@,
{
}

/// A runtime that was not acquired is all that is told: what would have been
/// asked after it changes nothing.
pub proof fn law_nothing_is_read_behind_a_failed_acquisition(
    agent_type: Option<Seq<char>>,
    key: AgentKey,
    settings: AgentSettingsView,
    mcp: McpToolboxesView,
    load: LoadedView,
    other: LoadedView,
)
    requires
        load.not_acquired is Some,
        other.not_acquired == load.not_acquired,
    ensures
        setup_outcome(agent_type, key, settings, mcp, load) == setup_outcome(
            agent_type,
            key,
            settings,
            mcp,
            other,
        ),
{
}

/// A model's window is the one on the first card of its name.
pub proof fn law_a_window_is_read_off_the_first_card(
    models: Seq<ModelCardView>,
    name: Seq<char>,
    k: int,
)
    requires
        0 <= k <= models.len(),
        forall|i: int| 0 <= i < k ==> (#[trigger] models[i]).name != name,
        k < models.len() ==> models[k].name == name,
    ensures
        k < models.len() ==> window_of(models, name) == models[k].context_window,
        k == models.len() ==> window_of(models, name) is None,
        model_names(models).len() == models.len(),
        forall|i: int|
            0 <= i < models.len() ==> (#[trigger] model_names(models)[i]) == models[i].name,
{
    let pick = |m: ModelCardView|
        if m.name == name {
            Some(m.context_window)
        } else {
            None
        };
    assert forall|j: int| 0 <= j < k implies pick(#[trigger] models[j]) is None by {
        assert(models[j].name != name);
    }
    crate::lists::law_a_search_ends_at_the_first_find(models, pick, k);
}

/// A definition's words stand for the tools the vocabulary gives them, word by
/// word and in order; a word it does not have stands for none.
pub proof fn law_words_stand_for_their_tools(
    vocabulary: Seq<(Seq<char>, Seq<Seq<char>>)>,
    words: Seq<Seq<char>>,
    word: Seq<char>,
    k: int,
)
    requires
        0 <= k <= vocabulary.len(),
        forall|i: int| 0 <= i < k ==> (#[trigger] vocabulary[i]).0 != word,
        k < vocabulary.len() ==> vocabulary[k].0 == word,
    ensures
        words_named(vocabulary, Seq::empty()) == Seq::<Seq<char>>::empty(),
        k < vocabulary.len() ==> words_named(vocabulary, words.push(word)) == words_named(
            vocabulary,
            words,
        ) + vocabulary[k].1,
        k == vocabulary.len() ==> words_named(vocabulary, words.push(word)) == words_named(
            vocabulary,
            words,
        ),
{
    lemma_word(vocabulary, word, k);
    assert(words.push(word).drop_last() =~= words);
    assert(words_named(vocabulary, words) + Seq::<Seq<char>>::empty() =~= words_named(
        vocabulary,
        words,
    ));
}

/// A word stands for what its first entry gives it.
proof fn lemma_word(vocabulary: Seq<(Seq<char>, Seq<Seq<char>>)>, word: Seq<char>, k: int)
    requires
        0 <= k <= vocabulary.len(),
        forall|i: int| 0 <= i < k ==> (#[trigger] vocabulary[i]).0 != word,
        k < vocabulary.len() ==> vocabulary[k].0 == word,
    ensures
        word_names(vocabulary, word) == (if k < vocabulary.len() {
            vocabulary[k].1
        } else {
            seq![]
        }),
    decreases k,
{
    if k > 0 {
        let rest = vocabulary.drop_first();
        assert(vocabulary[0].0 != word);
        assert forall|i: int| 0 <= i < k - 1 implies (#[trigger] rest[i]).0 != word by {
            assert(rest[i] == vocabulary[i + 1]);
        }
        lemma_word(rest, word, k - 1);
    }
}

/// A setup stops at the first thing that fails: acquiring the runtime, then
/// provisioning it, then finding the agent's type, then a model for it.
pub proof fn law_a_setup_stops_at_the_first_failure(
    agent_type: Option<Seq<char>>,
    key: AgentKey,
    settings: AgentSettingsView,
    mcp: McpToolboxesView,
    load: LoadedView,
)
    ensures
        ({
            let r = setup_outcome(agent_type, key, settings, mcp, load);
            let library = if settings.use_plugins != Some(false) {
                Some(load.agents)
            } else {
                None
            };
            &&& load.not_acquired matches Some(AcquireFailureView::Gone(m)) ==> r == Err::<
                RuntimeSetupView,
                SetupErrorView,
            >(
                SetupErrorView {
                    capability: "runtime"@,
                    reason: "the runtime is gone: "@ + m,
                    fatal: true,
                },
            )
            &&& load.not_acquired is None ==> (load.not_provisioned matches Some(reason) ==> r
                == Err::<RuntimeSetupView, SetupErrorView>(
                SetupErrorView { capability: "runtime"@, reason, fatal: true },
            ))
            &&& load.not_acquired is None && load.not_provisioned is None ==> match runtime::definition(
                agent_type,
                library,
            ) {
                Err(e) => r == Err::<RuntimeSetupView, SetupErrorView>(e),
                Ok(agent) => {
                    let declared = match agent {
                        Some(a) => a.model,
                        None => None,
                    };
                    match runtime::model_used(model_names(load.models), settings.model, declared) {
                        Err(e) => r == Err::<RuntimeSetupView, SetupErrorView>(e),
                        Ok(model) => r matches Ok(done) && done.model == model,
                    }
                },
            }
        }),
{
}

/// An agent is equipped with what was loaded for it: its role, the window of
/// the session's model unless it does not compact, the limits of its settings,
/// the types and servers its plugins brought, and the workspaces there are.
pub proof fn law_an_agent_is_equipped_with_what_was_loaded(
    key: AgentKey,
    settings: AgentSettingsView,
    mcp: McpToolboxesView,
    load: LoadedView,
    agent: Option<CatalogAgentView>,
    model: Seq<char>,
)
    ensures
        ({
            let done = equipment(key, settings, mcp, load, agent, model);
            let plugins = settings.use_plugins != Some(false);
            &&& done.model == model
            &&& done.prompt == runtime::role_of(key, agent)
            &&& settings.auto_compact == Some(false) ==> done.context_window is None
            &&& settings.auto_compact != Some(false) ==> done.context_window == window_of(
                load.models,
                settings.model,
            )
            &&& done.def.max_iterations == settings.max_iterations
            &&& done.def.max_retries == Some(settings.max_retries)
            &&& agent is None ==> done.def.allowed_tools == settings.allowed_tools
            &&& (agent matches Some(a) && a.tools.len() > 0) ==> done.def.allowed_tools == Some(
                runtime::narrowed(settings.allowed_tools, words_named(load.vocabulary, agent->0.tools)),
            )
            &&& plugins ==> done.facts.agents == Some(load.agents)
            &&& !plugins ==> done.facts.agents is None
            &&& plugins ==> (load.discovered matches Some(found) ==> done.servers
                == runtime::with_discovered(mcp, found))
            &&& !plugins || load.discovered is None ==> done.servers == mcp
            &&& done.toolbox.base == context::base_specs(load.tools, done.servers)
            &&& done.toolbox.workspace_names == load.workspaces
            &&& done.toolbox.use_plugins == plugins
        }),
{
}

} // verus!
