//! `memory_*`: the spaces an agent can read and write between sessions.
//!
//! Which spaces an agent reaches is decided for each agent, so the names live
//! here. The tools answer on the agent's own task, so nothing of theirs passes
//! through here.

use crate::capabilities::{PromptSection, PromptSectionView, SetupError, SetupErrorView};
use crate::capabilities::decision::{Decision, Msg};
use crate::text::{self, Dup, join};
use vstd::prelude::*;

verus! {

/// The tools this capability equips.
pub const TOOLS: [&'static str; 5] = [
    "memory_load",
    "memory_create",
    "memory_update",
    "memory_delete",
    "memory_list",
];

/// The memory spaces an agent can reach, by name.
#[derive(Debug, PartialEq, Eq)]
pub struct MemoryCapability {
    pub spaces: Vec<String>,
}

/// What a [`MemoryCapability`] stands for.
#[verifier::ext_equal]
pub struct MemoryCapabilityView {
    pub spaces: Seq<Seq<char>>,
}

impl DeepView for MemoryCapability {
    type V = MemoryCapabilityView;

    open spec fn deep_view(&self) -> MemoryCapabilityView {
        MemoryCapabilityView {
            spaces: self.spaces.deep_view(),
        }
    }
}

impl Dup for MemoryCapability {
    fn dup(&self) -> (out: Self) {
        MemoryCapability {
            spaces: self.spaces.dup(),
        }
    }
}

impl Clone for MemoryCapability {
    fn clone(&self) -> (out: Self)
        ensures
            out.deep_view() == self.deep_view(),
    {
        self.dup()
    }
}

impl MemoryCapability {
    pub fn new(spaces: Vec<String>) -> (r: Self)
        ensures
            r.spaces == spaces,
    {
        MemoryCapability { spaces }
    }

    /// What a diagnostic names this capability by.
    pub fn name(&self) -> (r: &'static str)
        ensures
            r@ == "memory"@,
    {
        "memory"
    }

    /// Whether there is an index to read and a layer to equip, given whether a
    /// memory service is configured. An agent that names no spaces has nothing
    /// to read; one that names some with no service behind them loses the tools
    /// and keeps its turn.
    pub fn reads(&self, configured: bool) -> (r: Result<bool, SetupError>)
        ensures
            match r {
                Ok(reads) => reads == (self.spaces@.len() > 0) && (reads ==> configured),
                Err(e) => self.spaces@.len() > 0 && !configured && e.deep_view() == (
                SetupErrorView {
                    capability: "memory"@,
                    reason: "this agent names memory spaces ("@ + text::joined(
                        self.spaces.deep_view(),
                        ", "@,
                    ) + ") but no memory service is configured"@,
                    fatal: false,
                }),
            },
    {
        if self.spaces.len() == 0 {
            return Ok(false);
        }
        if configured {
            return Ok(true);
        }
        let mut reason = "this agent names memory spaces (".to_owned();
        reason.append(join(&self.spaces, ", ").as_str());
        reason.append(") but no memory service is configured");
        Err(SetupError { capability: "memory", reason, fatal: false })
    }

    /// Reading the index failed: the agent starts without its memory.
    pub fn failed(&self, error: &str) -> (r: SetupError)
        ensures
            r.deep_view() == (SetupErrorView {
                capability: "memory"@,
                reason: "read the memory index: "@ + error@,
                fatal: false,
            }),
    {
        let mut reason = "read the memory index: ".to_owned();
        reason.append(error);
        SetupError { capability: "memory", reason, fatal: false }
    }

    /// The paragraph the index of what is saved is shown by.
    pub fn prompt(&self, index: String) -> (r: PromptSection)
        ensures
            r.deep_view() == (PromptSectionView { key: "memory"@, body: index@ }),
    {
        PromptSection { key: "memory", body: index }
    }

    /// Nothing reaches this capability.
    pub fn handle(&self, _msg: &Msg) -> (r: Option<Decision>)
        ensures
            r is None,
    {
        None
    }
}

impl Default for MemoryCapability {
    fn default() -> (r: Self)
        ensures
            r.spaces@.len() == 0,
    {
        MemoryCapability { spaces: Vec::new() }
    }
}

} // verus!
