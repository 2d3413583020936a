//! `horsie_*`: managing the server from inside a conversation.
//!
//! Granted, never inherited: an agent that was not given this capability has no
//! such tools and nothing that claims their calls. The tools themselves answer
//! on the agent's own task, so nothing of theirs passes through here.

use crate::capabilities::{PromptSection, PromptSectionView, SetupError, SetupErrorView};
use crate::capabilities::decision::{Decision, Msg};
use crate::text::Dup;
use vstd::prelude::*;

verus! {

/// What every control-plane tool's name starts with.
pub const PREFIX: &'static str = "horsie_";

/// Authority over the server.
#[derive(Debug, Clone, Copy, PartialEq, Eq, Structural)]
pub struct ControlPlaneCapability;

impl DeepView for ControlPlaneCapability {
    type V = ControlPlaneCapability;

    open spec fn deep_view(&self) -> ControlPlaneCapability {
        *self
    }
}

impl Dup for ControlPlaneCapability {
    fn dup(&self) -> (out: Self) {
        *self
    }
}

/// What an agent is told it can manage.
pub open spec fn control_prompt(index: Seq<char>) -> PromptSectionView {
    PromptSectionView {
        key: "control_plane"@,
        body: "## Managing this horsie server\n\nYou can manage this server through the `horsie_*` tools: "@
            + index
            + "\n\nCall a resource's tool with an `action`. Changes take effect immediately and are not confirmed with the user first, so read before you write when you are unsure which row you mean."@,
    }
}

impl ControlPlaneCapability {
    /// What a diagnostic names this capability by.
    pub fn name(&self) -> (r: &'static str)
        ensures
            r@ == "control_plane"@,
    {
        "control_plane"
    }

    /// What equipping an agent with this comes to, given the index of what the
    /// tools reach, or nothing where no services are wired. That costs the
    /// agent its tools and not its turn.
    pub fn equipped(&self, index: Option<&str>) -> (r: Result<PromptSection, SetupError>)
        ensures
            match index {
                Some(index) => r matches Ok(said) && said.deep_view() == control_prompt(index@),
                None => r matches Err(e) && e.deep_view() == (SetupErrorView {
                    capability: "control_plane"@,
                    reason: "this agent asks for the control plane but no services are wired"@,
                    fatal: false,
                }),
            },
    {
        match index {
            Some(index) => {
                let mut body =
                    "## Managing this horsie server\n\nYou can manage this server through the `horsie_*` tools: ".to_owned();
                body.append(index);
                body.append(
                    "\n\nCall a resource's tool with an `action`. Changes take effect immediately and are not confirmed with the user first, so read before you write when you are unsure which row you mean.",
                );
                Ok(PromptSection { key: "control_plane", body })
            },
            None => Err(
                SetupError {
                    capability: "control_plane",
                    reason: "this agent asks for the control plane but no services are wired".to_owned(),
                    fatal: false,
                },
            ),
        }
    }

    /// Nothing: every call is answered before it becomes a message.
    pub fn handle(&self, _msg: &Msg) -> (r: Option<Decision>)
        ensures
            r is None,
    {
        None
    }
}

/// The paragraph on managing the server shows the index of its tools as it is.
pub proof fn law_the_index_is_shown_as_it_is(a: Seq<char>, b: Seq<char>)
    ensures
        control_prompt(a).key == "control_plane"@,
        control_prompt(a).body.len() > a.len(),
        control_prompt(a) == control_prompt(b) ==> a == b,
        crate::text::occurs(control_prompt(a).body, a),
{
    let head =
        "## Managing this horsie server\n\nYou can manage this server through the `horsie_*` tools: "@;
    reveal_strlit("## Managing this horsie server\n\nYou can manage this server through the `horsie_*` tools: ");
    let body = control_prompt(a).body;
    let n = head.len() as int;
    assert(n > 0);
    assert(body.skip(n).take(a.len() as int) =~= a);
    assert(a.is_prefix_of(body.skip(n)));
    if control_prompt(a) == control_prompt(b) {
        let other = control_prompt(b).body;
        assert(body.len() == other.len());
        assert(a.len() == b.len());
        assert(other.skip(n).take(b.len() as int) =~= b);
    }
}

} // verus!
