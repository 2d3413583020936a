//! The sandbox an agent works in, and what it runs as.

use horsie_agent::capabilities::runtime::{
    scoped, AcquireFailure, McpDiscovery, McpServerFailure, RuntimeCapability, GONE_PREFIX,
};
use horsie_agent::capabilities::{equip, Capabilities, Capability};
use horsie_agent::ids::AgentId;
use horsie_agent::mcp_toolbox::{McpToolboxes, McpUnavailable, PluginMcpTool};
use horsie_agent::runners::{AgentCatalog, AgentFacts, AgentKey, AgentSettings, CatalogAgent};

/// The settings of an agent with nothing configured.
fn settings() -> AgentSettings {
    AgentSettings {
        model: "m".to_string(),
        max_iterations: None,
        max_retries: 3,
        allowed_tools: None,
        use_plugins: None,
        plugins: vec![],
        auto_compact: None,
        max_concurrent_subagents: None,
    }
}

/// What loading an agent that found nothing leaves behind.
fn facts() -> AgentFacts {
    AgentFacts { agents: None }
}

/// The names one capability adds to an empty toolbox.
fn advertised_by(cap: &Capability, facts: &AgentFacts) -> Vec<String> {
    cap.layer(vec![], facts).into_iter().map(|s| s.name).collect()
}

fn auditor(tools: &[&str]) -> CatalogAgent {
    CatalogAgent {
        plugin: "fd".into(),
        name: "code-auditor".into(),
        description: "reviews".into(),
        model: None,
        tools: tools.iter().map(|t| t.to_string()).collect(),
        prompt: "be one".into(),
    }
}

#[test]
fn the_base_toolbox_is_a_layer_and_not_an_advertised_tool() {
    assert!(
        advertised_by(&Capability::Runtime(RuntimeCapability::default()), &facts()).is_empty()
    );
}

#[test]
fn no_runtime_is_fatal_and_equips_nothing() {
    let e = RuntimeCapability::default()
        .acquire_failed(AcquireFailure::Other("no vendor is registered".into()));
    assert_eq!(e.capability, "runtime");
    assert!(e.fatal, "an agent with no sandbox can do nothing");
    let stopped = equip(vec![e]).expect_err("a fatal failure stops the agent");
    assert_eq!(stopped.reason, "no vendor is registered");
}

#[test]
fn every_agent_but_the_main_one_acts_under_its_own_id() {
    let id = AgentId::new_v4();
    for key in [AgentKey::Sub(id), AgentKey::Step(id), AgentKey::Fork(id)] {
        assert_eq!(scoped(key), Some(id.text()), "{key:?} did not scope its client");
    }
    assert_eq!(
        scoped(AgentKey::Main),
        None,
        "the main agent is the runtime's own identity"
    );
}

#[test]
fn a_copied_capability_keeps_its_agent_type() {
    let caps = Capabilities::new(vec![Capability::Runtime(RuntimeCapability::new(Some(
        "code-auditor".into(),
    )))]);
    let read = caps.clone();
    let [Capability::Runtime(back)] = read.iter().as_slice() else {
        panic!("the copy changed which capability this is");
    };
    assert_eq!(back.agent_type.as_deref(), Some("code-auditor"));

    let caps = Capabilities::new(vec![Capability::Runtime(RuntimeCapability::default())]);
    let read = caps.clone();
    let [Capability::Runtime(back)] = read.iter().as_slice() else {
        panic!("the copy changed which capability this is");
    };
    assert_eq!(back.agent_type, None);
}

/// A runtime that is gone says so in words a reader can tell.
#[test]
fn a_runtime_that_is_gone_says_so() {
    let e = RuntimeCapability::default().acquire_failed(AcquireFailure::Gone("expired".into()));
    assert_eq!(e.reason, format!("{GONE_PREFIX}expired"));
    assert!(e.fatal);
    assert_eq!(e.text(), "runtime could not equip the agent: the runtime is gone: expired");
}

/// An agent's own plugins replace the account's defaults, and opting out takes
/// both.
#[test]
fn an_agents_own_plugins_replace_the_defaults() {
    let c = RuntimeCapability::default();
    let defaults = || Some(vec!["base".to_string()]);
    assert_eq!(c.bundles(&settings(), defaults()), vec!["base"]);
    assert!(c.bundles(&settings(), None).is_empty());
    let mut own = settings();
    own.plugins = vec!["mine".into()];
    assert_eq!(c.bundles(&own, defaults()), vec!["mine"]);
    own.use_plugins = Some(false);
    assert!(c.bundles(&own, defaults()).is_empty());
}

/// A worker of a type nothing declares does not run.
#[test]
fn a_type_nothing_declares_stops_the_agent() {
    let c = RuntimeCapability::new(Some("code-auditor".into()));
    let library = AgentCatalog { agents: vec![auditor(&[])] };
    assert_eq!(c.plugin_agent(Some(&library)), Ok(Some(auditor(&[]))));
    assert_eq!(
        c.plugin_agent(Some(&AgentCatalog { agents: vec![] })).expect_err("none").reason,
        "this subagent runs as agent type 'code-auditor', which no installed plugin declares"
    );
    assert_eq!(
        c.plugin_agent(None).expect_err("none").reason,
        "this subagent runs as agent type 'code-auditor', but the session loads no plugins"
    );
    assert_eq!(RuntimeCapability::default().plugin_agent(None), Ok(None));
}

/// A declared model counts only where there is a provider for it.
#[test]
fn a_declared_model_needs_a_provider() {
    let c = RuntimeCapability::default();
    let registered = vec!["m".to_string(), "opus".to_string()];
    assert_eq!(c.provider(&registered, "m", Some("opus")), Ok("opus".into()));
    assert_eq!(c.provider(&registered, "m", Some("haiku")), Ok("m".into()));
    assert_eq!(c.provider(&registered, "m", None), Ok("m".into()));
    assert_eq!(
        c.provider(&[], "m", None).expect_err("none").reason,
        "no provider registered for model 'm'"
    );
}

/// A definition's tool list narrows what the session grants and never adds to
/// it.
#[test]
fn a_definition_only_narrows() {
    let c = RuntimeCapability::default();
    let mut granted = settings();
    granted.allowed_tools = Some(vec!["bash".into(), "read_file".into()]);
    let named = vec!["read_file".to_string(), "horsie_agents".to_string()];
    let def = c.run_def(&granted, &Some(auditor(&["Read", "Other"])), named);
    assert_eq!(def.allowed_tools, Some(vec!["read_file".to_string()]));
    let def = c.run_def(&granted, &Some(auditor(&[])), vec![]);
    assert_eq!(def.allowed_tools, granted.allowed_tools);
    assert_eq!(def.max_retries, Some(3));
}

/// A worker is told it is one, with its type's own instructions behind.
#[test]
fn only_a_worker_is_told_it_is_one() {
    let c = RuntimeCapability::default();
    let id = AgentId(7);
    assert_eq!(c.role(AgentKey::Main, &None), None);
    assert_eq!(c.role(AgentKey::Step(id), &Some(auditor(&[]))), None);
    let plain = c.role(AgentKey::Sub(id), &None).expect("a worker");
    assert_eq!(plain.key, "subagent_role");
    assert!(plain.body.starts_with("# Subagent role\n"));
    let typed = c.role(AgentKey::Sub(id), &Some(auditor(&[]))).expect("a worker");
    assert!(typed.body.ends_with("\n\n# Agent type: code-auditor\n\nbe one\n"));
}

/// What plugins bring goes behind what is already there.
#[test]
fn discovery_goes_behind_what_is_there() {
    let c = RuntimeCapability::default();
    let found = McpDiscovery {
        tools: vec![PluginMcpTool {
            name: "mcp__docs__search".into(),
            description: None,
            input_schema: "{}".into(),
        }],
        failures: vec![
            McpServerFailure::NeedsAuth { server: "a".into() },
            McpServerFailure::Unreachable { server: "b".into(), reason: "down".into() },
        ],
    };
    let mcp = McpToolboxes {
        boxes: vec![vec![]],
        unavailable: vec![McpUnavailable::Gone { server: "z".into() }],
    };
    let out = c.discovered(mcp, found);
    assert_eq!(out.boxes.len(), 2);
    assert_eq!(out.boxes[1][0].name, "mcp__docs__search");
    assert_eq!(
        out.unavailable,
        vec![
            McpUnavailable::Gone { server: "z".into() },
            McpUnavailable::NeedsAuth { server: "a".into() },
            McpUnavailable::Unreachable { server: "b".into(), reason: "down".into() },
        ]
    );
}
