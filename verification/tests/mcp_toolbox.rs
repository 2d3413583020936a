//! The tools MCP servers bring.

use horsie_agent::context::DefaultToolboxFactory;
use horsie_agent::json::Json;
use horsie_agent::mcp_toolbox::{
    mcp_server_of, remote_outcome, CompositeToolbox, McpOutcome, McpToolDef, McpToolbox,
    McpToolboxes, McpUnavailable, PluginMcpTool, PluginMcpToolbox,
};
use horsie_agent::model::{ToolCallError, ToolSpec};

fn one_tool(name: &str) -> Vec<ToolSpec> {
    vec![ToolSpec {
        name: name.into(),
        description: String::new(),
        input_schema: "{\"type\":\"object\"}".into(),
    }]
}

#[test]
fn plugin_mcp_tools_become_specs() {
    let tb = PluginMcpToolbox::new(vec![
        PluginMcpTool {
            name: "mcp__docs__search".into(),
            description: Some("finds things".into()),
            input_schema: "{\"type\":\"object\",\"properties\":{\"q\":{\"type\":\"string\"}}}".into(),
        },
        PluginMcpTool {
            name: "mcp__docs__broken".into(),
            description: None,
            input_schema: "not json".into(),
        },
    ]);
    let specs = tb.specs();
    assert_eq!(specs[0].name, "mcp__docs__search");
    assert_eq!(specs[0].description, "finds things");
    let schema: serde_json::Value = serde_json::from_str(&specs[0].input_schema).expect("JSON");
    assert_eq!(schema["properties"]["q"]["type"], "string");
    assert_eq!(specs[1].input_schema, "{\"type\":\"object\"}");
    assert_eq!(specs[1].description, "");
}

#[test]
fn an_unknown_plugin_mcp_tool_is_refused_locally() {
    let tb = PluginMcpToolbox::new(Vec::new());
    let err = tb.accepts("mcp__docs__search").expect_err("no such tool");
    assert!(matches!(err, ToolCallError::InvalidInput(_)));
}

#[test]
fn composite_unions_specs_and_routes_by_name() {
    let tb = CompositeToolbox::new(vec![one_tool("alpha"), one_tool("beta")]);
    let names: Vec<String> = tb.specs().into_iter().map(|s| s.name).collect();
    assert_eq!(names, vec!["alpha", "beta"]);
    assert_eq!(tb.route("beta"), Ok(1));
    assert!(matches!(tb.route("gamma"), Err(ToolCallError::InvalidInput(_))));
}

#[test]
fn a_missing_server_answers_with_the_reason_it_is_missing() {
    let deleted = CompositeToolbox::new(vec![one_tool("bash")])
        .with_unavailable(vec![McpUnavailable::Gone { server: "acme".into() }]);
    let Err(ToolCallError::InvalidInput(said)) = deleted.route("mcp__acme__search") else {
        panic!("a call for a deleted server must be refused");
    };
    assert!(said.contains("acme"), "{said}");
    assert!(said.contains("no longer configured"), "{said}");

    let down = CompositeToolbox::new(Vec::new()).with_unavailable(vec![
        McpUnavailable::Unreachable {
            server: "acme".into(),
            reason: "connection refused".into(),
        },
    ]);
    let Err(ToolCallError::InvalidInput(said)) = down.route("mcp__acme__search") else {
        panic!("a call for an unreachable server must be refused");
    };
    assert!(said.contains("connection refused"), "{said}");
    assert!(
        said.contains("later turn"),
        "down is recoverable and deleted is not: {said}"
    );

    let Err(ToolCallError::InvalidInput(said)) = down.route("mcp__other__thing") else {
        panic!("unknown tools are still refused");
    };
    assert_eq!(said, "no tool named 'mcp__other__thing'");
}

#[test]
fn mcp_toolbox_namespaces_specs_and_executes() {
    let tb = McpToolbox::new(
        "github".into(),
        vec![McpToolDef {
            name: "create_pull_request".into(),
            description: "open a PR".into(),
            input_schema: "{\"type\":\"object\"}".into(),
        }],
    );
    let specs = tb.specs();
    assert_eq!(specs.len(), 1);
    assert_eq!(specs[0].name, "mcp__github__create_pull_request");
    assert_eq!(specs[0].description, "open a PR");

    assert_eq!(tb.tool_of("mcp__github__create_pull_request"), Ok("create_pull_request"));
    let out = remote_outcome(Ok(McpOutcome { text: "PR #7 opened".into(), is_error: false }));
    assert_eq!(out, Ok(Json::String("PR #7 opened".into())));

    assert!(matches!(tb.tool_of("bash"), Err(ToolCallError::InvalidInput(_))));
}

#[test]
fn an_admin_server_outranks_a_plugin_of_the_same_name() {
    let plugin = PluginMcpToolbox::new(vec![PluginMcpTool {
        name: "mcp__github__open_pr".into(),
        description: Some("the plugin's".into()),
        input_schema: "{\"type\":\"object\"}".into(),
    }]);
    let admin = McpToolbox::new(
        "github".into(),
        vec![McpToolDef {
            name: "open_pr".into(),
            description: "the admin's".into(),
            input_schema: "{\"type\":\"object\"}".into(),
        }],
    );
    let tb = CompositeToolbox::new(vec![admin.specs(), plugin.specs()]);
    let specs: Vec<_> = tb
        .specs()
        .into_iter()
        .filter(|s| s.name == "mcp__github__open_pr")
        .collect();
    assert_eq!(specs.len(), 1);
    assert_eq!(specs[0].description, "the admin's");
    assert_eq!(tb.route("mcp__github__open_pr"), Ok(0), "the admin server runs it");
}

#[test]
fn mcp_toolbox_maps_is_error_to_execution_failed() {
    let tb = McpToolbox::new(
        "srv".into(),
        vec![McpToolDef {
            name: "boom".into(),
            description: String::new(),
            input_schema: "{\"type\":\"object\"}".into(),
        }],
    );
    assert_eq!(tb.tool_of("mcp__srv__boom"), Ok("boom"));
    match remote_outcome(Ok(McpOutcome { text: "kaboom".into(), is_error: true })) {
        Err(ToolCallError::ExecutionFailed(msg)) => assert_eq!(msg, "kaboom"),
        other => panic!("expected ExecutionFailed, got {other:?}"),
    }
}

/// The server a tool name names.
#[test]
fn a_tool_name_names_its_server() {
    assert_eq!(mcp_server_of("mcp__acme__search"), Some("acme"));
    assert_eq!(mcp_server_of("mcp__acme__search__deep"), Some("acme"));
    assert_eq!(mcp_server_of("bash"), None);
    assert_eq!(mcp_server_of("mcp__acme"), None, "no tool is named");
    assert_eq!(mcp_server_of("mcp__"), None);
}

/// A name that names no tool of a server is no word on that server.
#[test]
fn a_name_without_a_tool_is_simply_unknown() {
    let missing = || McpUnavailable::Gone { server: "acme".into() };
    let tb = DefaultToolboxFactory::composite(
        one_tool("bash"),
        McpToolboxes { boxes: vec![], unavailable: vec![missing()] },
    )
    .expect("a server is missing");
    assert_eq!(
        tb.route("mcp__acme"),
        Err(ToolCallError::InvalidInput("no tool named 'mcp__acme'".into()))
    );
    assert_eq!(
        tb.route("mcp__acme__search"),
        Err(ToolCallError::InvalidInput(missing().explain()))
    );
}

/// Nothing connected and nothing missing leaves the runtime's tools alone.
#[test]
fn no_servers_leave_the_runtime_alone() {
    assert!(McpToolboxes::new().is_empty());
    assert_eq!(DefaultToolboxFactory::composite(one_tool("bash"), McpToolboxes::new()), None);
    let mcp = McpToolboxes { boxes: vec![one_tool("mcp__a__x"), one_tool("bash")], unavailable: vec![] };
    let tb = DefaultToolboxFactory::composite(one_tool("bash"), mcp).expect("a server is there");
    assert_eq!(tb.specs().len(), 2, "a repeated name is advertised once");
    assert_eq!(tb.route("bash"), Ok(0), "the runtime's tools come first");
}

/// A server that wants authorising says so.
#[test]
fn a_server_that_wants_authorising_says_so() {
    let e = McpUnavailable::NeedsAuth { server: "acme".into() };
    assert_eq!(e.server(), "acme");
    assert!(e.explain().starts_with("the MCP server 'acme'"));
}
