//! How an agent was configured to run.

use crate::model::ThinkingEffort;
use crate::text::Dup;
use vstd::prelude::*;

verus! {

/// How an agent was configured to run.
#[derive(Debug, PartialEq, Eq)]
pub struct AgentParams {
    pub system_prompt: Option<String>,
    /// The tools this agent was narrowed to, when it was.
    pub tools: Option<Vec<String>>,
    pub thinking_effort: Option<ThinkingEffort>,
    /// How many provider calls one turn may make.
    pub max_iterations: Option<u32>,
    /// How often one call is tried again.
    pub max_retries: u32,
    /// Whether this agent owes a result, and may not end without one.
    pub requires_result: bool,
    /// Whether this agent waits for the work it delegated before it reports.
    pub park_on_outstanding_work: bool,
}

/// What a [`AgentParams`] stands for.
#[verifier::ext_equal]
pub struct AgentParamsView {
    pub system_prompt: Option<Seq<char>>,
    pub tools: Option<Seq<Seq<char>>>,
    pub thinking_effort: Option<ThinkingEffort>,
    pub max_iterations: Option<u32>,
    pub max_retries: u32,
    pub requires_result: bool,
    pub park_on_outstanding_work: bool,
}

impl DeepView for AgentParams {
    type V = AgentParamsView;

    open spec fn deep_view(&self) -> AgentParamsView {
        AgentParamsView {
            system_prompt: self.system_prompt.deep_view(),
            tools: self.tools.deep_view(),
            thinking_effort: self.thinking_effort.deep_view(),
            max_iterations: self.max_iterations.deep_view(),
            max_retries: self.max_retries.deep_view(),
            requires_result: self.requires_result.deep_view(),
            park_on_outstanding_work: self.park_on_outstanding_work.deep_view(),
        }
    }
}

impl Dup for AgentParams {
    fn dup(&self) -> (out: Self) {
        AgentParams {
            system_prompt: self.system_prompt.dup(),
            tools: self.tools.dup(),
            thinking_effort: self.thinking_effort.dup(),
            max_iterations: self.max_iterations.dup(),
            max_retries: self.max_retries.dup(),
            requires_result: self.requires_result.dup(),
            park_on_outstanding_work: self.park_on_outstanding_work.dup(),
        }
    }
}

impl Clone for AgentParams {
    fn clone(&self) -> (out: Self)
        ensures
            out.deep_view() == self.deep_view(),
    {
        self.dup()
    }
}

} // verus!
