//! The MCP servers an agent is connected to.

use horsie_agent::capabilities::decision::Msg;
use horsie_agent::capabilities::mcp::McpCapability;
use horsie_agent::capabilities::{Capabilities, Capability};

fn call(name: &str) -> Msg {
    Msg::Tool { call: "t1".to_string(), name: name.to_string() }
}

#[test]
fn no_servers_connects_nothing() {
    assert_eq!(McpCapability::new(vec![]).connects(false), Ok(false));
    assert_eq!(McpCapability::default().connects(true), Ok(false));
}

#[test]
fn mcp_no_service_is_degraded_rather_than_fatal() {
    let e = McpCapability::new(vec!["github".into(), "docs".into()])
        .connects(false)
        .expect_err("no service is wired");
    assert_eq!(e.capability, "mcp");
    assert!(!e.fatal, "a server that will not connect costs tools, not the turn");
    assert!(e.reason.contains("github") && e.reason.contains("docs"));
    assert_eq!(
        e.reason,
        "this agent names MCP servers (github, docs) but no MCP service is configured"
    );
}

#[test]
fn mcp_it_claims_no_tool_name_through_the_mailbox() {
    let c = McpCapability::new(vec!["github".into()]);
    assert!(c.handle(&call("mcp__github__list_issues")).is_none());
    assert!(c.handle(&call("bash")).is_none());
    assert!(
        c.tools().is_empty(),
        "the tools are advertised by the toolbox that will run them"
    );
}

#[test]
fn a_copied_capability_keeps_its_servers() {
    let caps = Capabilities::new(vec![Capability::Mcp(McpCapability::new(vec![
        "github".into(),
        "docs".into(),
    ]))]);
    let read = caps.clone();
    let [Capability::Mcp(back)] = read.iter().as_slice() else {
        panic!("the copy changed which capability this is");
    };
    assert_eq!(back.servers, vec!["github".to_string(), "docs".to_string()]);
}

/// With a service behind it, a server that is named is connected; a failure to
/// connect costs the tools and not the turn.
#[test]
fn a_named_server_is_connected() {
    let c = McpCapability::new(vec!["github".into()]);
    assert_eq!(c.connects(true), Ok(true));
    let e = c.failed("timed out");
    assert_eq!(e.reason, "build MCP toolboxes: timed out");
    assert!(!e.fatal);
}
