//! The token budget: at what share of its context window an agent compacts,
//! and to what.
//!
//! Policy and no state: the size of the last prompt is a fact every runner
//! agrees on, and what varies is the two percentages read against it.

use crate::text::Dup;
use vstd::prelude::*;

verus! {

/// The share of a model's context window at which an agent compacts, absent a
/// runner saying otherwise.
pub const DEFAULT_TRIGGER_AT_PERCENT: u32 = 80;

/// Roughly how much of the window a compaction leaves as recent messages,
/// absent a runner saying otherwise.
pub const DEFAULT_RETAIN_PERCENT: u32 = 20;

/// One runner's answer to when a turn compacts, and to what.
#[derive(Debug, Clone, Copy, PartialEq, Eq)]
pub struct TokenBudgetCapability {
    trigger_at_percent: u32,
    retain_percent: u32,
}

impl DeepView for TokenBudgetCapability {
    type V = TokenBudgetCapability;

    open spec fn deep_view(&self) -> TokenBudgetCapability {
        *self
    }
}

impl Dup for TokenBudgetCapability {
    fn dup(&self) -> (out: Self) {
        *self
    }
}

impl TokenBudgetCapability {
    /// The share a turn compacts at, and the share it leaves.
    pub closed spec fn shares(self) -> (u32, u32) {
        (self.trigger_at_percent, self.retain_percent)
    }

    pub fn new(trigger_at_percent: u32, retain_percent: u32) -> (r: Self)
        ensures
            r.shares() == (trigger_at_percent, retain_percent),
    {
        TokenBudgetCapability { trigger_at_percent, retain_percent }
    }

    /// What a diagnostic names this capability by.
    pub fn name(&self) -> (r: &'static str)
        ensures
            r@ == "token_budget"@,
    {
        "token_budget"
    }

    /// What a turn compacts at, and to what.
    pub fn target(&self) -> (r: (u32, u32))
        ensures
            r == self.shares(),
    {
        (self.trigger_at_percent, self.retain_percent)
    }
}

impl Default for TokenBudgetCapability {
    fn default() -> (r: Self)
        ensures
            r.shares() == (DEFAULT_TRIGGER_AT_PERCENT, DEFAULT_RETAIN_PERCENT),
    {
        TokenBudgetCapability::new(DEFAULT_TRIGGER_AT_PERCENT, DEFAULT_RETAIN_PERCENT)
    }
}

} // verus!
