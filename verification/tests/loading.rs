//! Loading the sandbox an agent runs in.

use horsie_agent::capabilities::loading::{named_tools, Loaded, ModelCard};
use horsie_agent::capabilities::runtime::{AcquireFailure, McpDiscovery, RuntimeCapability};
use horsie_agent::context::AgentToolbox;
use horsie_agent::ids::AgentId;
use horsie_agent::mcp_toolbox::{McpToolboxes, PluginMcpTool};
use horsie_agent::model::ToolSpec;
use horsie_agent::runners::{AgentCatalog, AgentKey, AgentSettings, CatalogAgent};

/// The settings of an agent with nothing configured.
fn settings() -> AgentSettings {
    AgentSettings {
        model: "m".to_string(),
        max_iterations: None,
        max_retries: 3,
        allowed_tools: None,
        use_plugins: None,
        plugins: vec![],
        auto_compact: None,
        max_concurrent_subagents: None,
    }
}

fn scout() -> CatalogAgent {
    CatalogAgent {
        plugin: "fd".into(),
        name: "scout".into(),
        description: "searches".into(),
        model: Some("opus".into()),
        tools: vec!["Read".into(), "Fly".into()],
        prompt: "look around".into(),
    }
}

fn loaded() -> Loaded {
    Loaded {
        not_acquired: None,
        not_provisioned: None,
        workspaces: vec!["october".into()],
        agents: AgentCatalog { agents: vec![scout()] },
        discovered: Some(McpDiscovery {
            failures: vec![],
            tools: vec![PluginMcpTool {
                name: "mcp__docs__search".into(),
                description: None,
                input_schema: "{}".into(),
            }],
        }),
        tools: vec![ToolSpec {
            name: "bash".into(),
            description: String::new(),
            input_schema: "{}".into(),
        }],
        models: vec![
            ModelCard { name: "m".into(), context_window: Some(1000) },
            ModelCard { name: "opus".into(), context_window: Some(9000) },
        ],
        vocabulary: vec![("Read".into(), vec!["read_file".into(), "list_dir".into()])],
    }
}

fn names(toolbox: &AgentToolbox) -> Vec<String> {
    toolbox.specs().into_iter().map(|s| s.name).collect()
}

#[test]
fn a_sandbox_that_loads_gives_everything_the_agent_runs_with() {
    let done = RuntimeCapability::new(Some("scout".into()))
        .setup(AgentKey::Sub(AgentId(1)), &settings(), McpToolboxes::new(), loaded())
        .expect("it loads");
    assert_eq!(done.model, "opus");
    assert_eq!(done.context_window, Some(1000), "the window is the session's model's");
    assert_eq!(
        done.def.allowed_tools,
        Some(vec!["read_file".to_string(), "list_dir".to_string()])
    );
    assert!(done.prompt.expect("a worker").body.contains("# Agent type: scout"));
    assert_eq!(done.facts.agents.expect("a library").names(), vec!["scout"]);
    assert_eq!(done.servers.boxes.len(), 1);
    assert_eq!(
        names(&done.toolbox),
        vec!["bash", "mcp__docs__search", "skill", "inspect_workspace"]
    );
}

#[test]
fn an_agent_that_takes_no_plugins_sees_none() {
    let mut plain = settings();
    plain.use_plugins = Some(false);
    plain.auto_compact = Some(false);
    let done = RuntimeCapability::default()
        .setup(AgentKey::Main, &plain, McpToolboxes::new(), loaded())
        .expect("it loads");
    assert_eq!(done.facts.agents, None);
    assert!(done.servers.is_empty());
    assert_eq!(done.context_window, None);
    assert_eq!(done.prompt, None);
    assert_eq!(done.model, "m");
    assert_eq!(names(&done.toolbox), vec!["bash", "skill", "inspect_workspace"]);

    let typed = RuntimeCapability::new(Some("scout".into()))
        .setup(AgentKey::Main, &plain, McpToolboxes::new(), loaded())
        .expect_err("there is no library to find it in");
    assert!(typed.fatal);
}

#[test]
fn the_first_failure_is_what_is_told() {
    let setup = |load: Loaded| {
        RuntimeCapability::new(Some("ghost".into()))
            .setup(AgentKey::Main, &settings(), McpToolboxes::new(), load)
            .expect_err("it fails")
            .reason
    };
    let mut load = loaded();
    load.not_acquired = Some(AcquireFailure::Gone("expired".into()));
    load.not_provisioned = Some("disk full".into());
    assert_eq!(setup(load), "the runtime is gone: expired");
    let mut load = loaded();
    load.not_provisioned = Some("disk full".into());
    assert_eq!(setup(load), "disk full");
    assert_eq!(
        setup(loaded()),
        "this subagent runs as agent type 'ghost', which no installed plugin declares"
    );
}

#[test]
fn a_model_nobody_provides_stops_the_agent() {
    let mut load = loaded();
    load.models = vec![];
    let e = RuntimeCapability::default()
        .setup(AgentKey::Main, &settings(), McpToolboxes::new(), load)
        .expect_err("it fails");
    assert_eq!(e.reason, "no provider registered for model 'm'");
}

#[test]
fn a_word_nobody_knows_names_nothing() {
    let vocabulary = vec![("Read".to_string(), vec!["read_file".to_string()])];
    assert_eq!(
        named_tools(&vocabulary, &["Fly".into(), "Read".into(), "Read".into()]),
        vec!["read_file", "read_file"]
    );
}
