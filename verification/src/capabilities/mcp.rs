//! The MCP servers an agent is connected to.
//!
//! Which servers an agent gets is decided for each agent, so the names live
//! here. A call to one of their tools is answered by the toolbox built from the
//! connections, so nothing of theirs passes through here.

use crate::capabilities::{SetupError, SetupErrorView};
use crate::capabilities::decision::{Decision, Msg};
use crate::model::ToolSpec;
use crate::text::{self, Dup, join};
use vstd::prelude::*;

verus! {

/// The MCP servers an agent is connected to, by name.
#[derive(Debug, PartialEq, Eq)]
pub struct McpCapability {
    pub servers: Vec<String>,
}

/// What a [`McpCapability`] stands for.
#[verifier::ext_equal]
pub struct McpCapabilityView {
    pub servers: Seq<Seq<char>>,
}

impl DeepView for McpCapability {
    type V = McpCapabilityView;

    open spec fn deep_view(&self) -> McpCapabilityView {
        McpCapabilityView {
            servers: self.servers.deep_view(),
        }
    }
}

impl Dup for McpCapability {
    fn dup(&self) -> (out: Self) {
        McpCapability {
            servers: self.servers.dup(),
        }
    }
}

impl Clone for McpCapability {
    fn clone(&self) -> (out: Self)
        ensures
            out.deep_view() == self.deep_view(),
    {
        self.dup()
    }
}

impl McpCapability {
    pub fn new(servers: Vec<String>) -> (r: Self)
        ensures
            r.servers == servers,
    {
        McpCapability { servers }
    }

    /// What a diagnostic names this capability by.
    pub fn name(&self) -> (r: &'static str)
        ensures
            r@ == "mcp"@,
    {
        "mcp"
    }

    /// Whether there is anything to connect, given whether a service that
    /// connects is configured. An agent that names no servers connects to none;
    /// one that names some with no service behind them loses those tools and
    /// keeps its turn.
    pub fn connects(&self, configured: bool) -> (r: Result<bool, SetupError>)
        ensures
            match r {
                Ok(connects) => connects == (self.servers@.len() > 0) && (connects ==> configured),
                Err(e) => self.servers@.len() > 0 && !configured && e.deep_view() == (
                SetupErrorView {
                    capability: "mcp"@,
                    reason: "this agent names MCP servers ("@ + text::joined(
                        self.servers.deep_view(),
                        ", "@,
                    ) + ") but no MCP service is configured"@,
                    fatal: false,
                }),
            },
    {
        if self.servers.len() == 0 {
            return Ok(false);
        }
        if configured {
            return Ok(true);
        }
        let mut reason = "this agent names MCP servers (".to_owned();
        reason.append(join(&self.servers, ", ").as_str());
        reason.append(") but no MCP service is configured");
        Err(SetupError { capability: "mcp", reason, fatal: false })
    }

    /// Connecting failed: the agent starts without these servers.
    pub fn failed(&self, error: &str) -> (r: SetupError)
        ensures
            r.deep_view() == (SetupErrorView {
                capability: "mcp"@,
                reason: "build MCP toolboxes: "@ + error@,
                fatal: false,
            }),
    {
        let mut reason = "build MCP toolboxes: ".to_owned();
        reason.append(error);
        SetupError { capability: "mcp", reason, fatal: false }
    }

    /// The tools claimed here: none, because the toolbox that runs them
    /// advertises them.
    pub fn tools(&self) -> (r: Vec<ToolSpec>)
        ensures
            r@.len() == 0,
    {
        Vec::new()
    }

    /// Nothing reaches this capability.
    pub fn handle(&self, _msg: &Msg) -> (r: Option<Decision>)
        ensures
            r is None,
    {
        None
    }
}

impl Default for McpCapability {
    fn default() -> (r: Self)
        ensures
            r.servers@.len() == 0,
    {
        McpCapability { servers: Vec::new() }
    }
}

} // verus!
